//! The simulation core of a puzzle platformer whose platforms stretch and
//! shrink in groups.
//!
//! A tick of the simulation runs in three phases, in this order: the input
//! phase turns what the devices report into events, the update phase changes
//! the scale groups and finds which characters stand on the ground, and the
//! movement phase recomputes the platforms and pushes the characters.

use vstd::prelude::*;

pub mod camera;
pub mod input;
pub mod level;
pub mod math;
pub mod player;
pub mod tick;

verus! {

/// What the game is doing.
#[derive(Clone, Copy, Debug, PartialEq, Eq, Hash, Structural)]
pub enum GameState {
    Menu,
    InGame,
    Loading,
    LevelEditor,
}

impl Default for GameState {
    /// The game starts in the menu.
    fn default() -> (r: GameState)
        ensures
            r == GameState::Menu,
    {
        GameState::Menu
    }
}

/// The phases of a tick.
#[derive(Clone, Copy, Debug, PartialEq, Eq, Hash, Structural)]
pub enum GameplaySet {
    Input,
    Update,
    Movement,
}

impl GameplaySet {
    /// The place of the phase within a tick.
    pub open spec fn position(self) -> int {
        match self {
            GameplaySet::Input => 0,
            GameplaySet::Update => 1,
            GameplaySet::Movement => 2,
        }
    }

    /// The phases in the order in which a tick runs them.
    pub fn chain() -> (r: Vec<GameplaySet>)
        ensures
            r@ == seq![GameplaySet::Input, GameplaySet::Update, GameplaySet::Movement],
            forall|i: int| 0 <= i < r@.len() ==> (#[trigger] r@[i]).position() == i,
    {
        let mut phases: Vec<GameplaySet> = Vec::new();
        phases.push(GameplaySet::Input);
        phases.push(GameplaySet::Update);
        phases.push(GameplaySet::Movement);
        phases
    }
}

/// The state that the game goes to on its own at start-up: until there is a
/// menu, it leaves `Menu` for `Loading` at once. `None` means that the state
/// stays.
pub fn exit_menu_auto(st: GameState) -> (r: Option<GameState>)
    ensures
        r == (if st == GameState::Menu {
            Some(GameState::Loading)
        } else {
            None
        }),
{
    if st == GameState::Menu {
        Some(GameState::Loading)
    } else {
        None
    }
}

} // verus!
