//! The level: which one is played, its resizable platforms, the groups that
//! scale them, and the portals that lead on.

use vstd::prelude::*;
use crate::GameState;

pub mod level_portal;
pub mod resizable;
pub mod scale_table;

verus! {

/// The number of the level that is played or about to be loaded, counted
/// from one; `None` where no level is.
#[derive(Clone, Copy, Debug, PartialEq, Eq)]
pub struct CurrentLevel(pub Option<usize>);

/// What has to be done to bring a level in.
#[derive(Clone, Copy, Debug, PartialEq, Eq, Structural)]
pub struct LevelLoad {
    /// The place of the level's file in the level index, counted from zero.
    pub entry: usize,
    /// The state that the game goes to once the load is under way.
    pub next_state: GameState,
}

/// Decides what to load. A level is loaded where one is asked for and the
/// level index, of `index_len` entries, has arrived: level `n` is entry
/// `n - 1` of the index, and the game goes on to `InGame`. While the index
/// has not arrived (`None`), or no level is asked for, nothing is loaded.
pub fn load_level(current_level: &CurrentLevel, index_len: Option<usize>) -> (r: Option<LevelLoad>)
    requires
        current_level.0 is Some && index_len is Some ==> 1 <= current_level.0->0 <= index_len->0,
    ensures
        r == (if current_level.0 is Some && index_len is Some {
            Some(
                LevelLoad {
                    entry: (current_level.0->0 - 1) as usize,
                    next_state: GameState::InGame,
                },
            )
        } else {
            None
        }),
{
    match current_level.0 {
        Some(level) => match index_len {
            Some(_) => Some(LevelLoad { entry: level - 1, next_state: GameState::InGame }),
            None => None,
        },
        None => None,
    }
}

/// Forgets which level was played.
pub fn unset_level(lvl: &mut CurrentLevel)
    ensures
        final(lvl).0 is None,
{
    lvl.0 = None;
}

} // verus!
