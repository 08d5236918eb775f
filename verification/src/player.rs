//! The player's character.

pub mod movement;
pub mod respawn;
