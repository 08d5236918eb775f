//! Portals: a player that touches one is taken to the level it leads to.

use vstd::prelude::*;
use crate::level::CurrentLevel;
use crate::GameState;

verus! {

/// The number of the level that a portal leads to.
#[derive(Clone, Copy, Debug, PartialEq, Eq, Structural)]
pub struct LevelTransition(pub usize);

/// One of the entities that a portal's shape cast has met is a player.
pub open spec fn touched_by_player(hits: Seq<u64>, players: Seq<u64>) -> bool {
    exists|i: int| 0 <= i < hits.len() && players.contains(#[trigger] hits[i])
}

/// The level that the portals lead to: that of the last portal touched by a
/// player, if any is touched.
pub open spec fn portal_target(
    transitions: Seq<(Vec<u64>, LevelTransition)>,
    players: Seq<u64>,
) -> Option<usize>
    decreases transitions.len(),
{
    if transitions.len() == 0 {
        None
    } else if touched_by_player(transitions.last().0@, players) {
        Some(transitions.last().1.0)
    } else {
        portal_target(transitions.drop_last(), players)
    }
}

/// Whether `entity` is one of `entities`.
pub fn holds_entity(entities: &Vec<u64>, entity: u64) -> (r: bool)
    ensures
        r == entities@.contains(entity),
{
    let mut i: usize = 0;
    while i < entities.len()
        invariant
            i <= entities.len(),
            forall|j: int| 0 <= j < i ==> entities@[j] != entity,
        decreases entities.len() - i,
    {
        if entities[i] == entity {
            return true;
        }
        i += 1;
    }
    false
}

/// Whether one of the entities that a shape cast has met is a player.
pub fn is_touched_by_player(hits: &Vec<u64>, players: &Vec<u64>) -> (r: bool)
    ensures
        r == touched_by_player(hits@, players@),
{
    let mut i: usize = 0;
    while i < hits.len()
        invariant
            i <= hits.len(),
            forall|j: int| 0 <= j < i ==> !players@.contains(#[trigger] hits@[j]),
        decreases hits.len() - i,
    {
        if holds_entity(players, hits[i]) {
            assert(players@.contains(hits@[i as int]));
            return true;
        }
        i += 1;
    }
    false
}

/// Sends the game to the level of a portal that a player touches. Each
/// portal comes with the entities that its shape cast has met; `players`
/// holds the player entities. Where a player touches a portal, the level
/// asked for becomes that of the last such portal and the game goes to
/// `Loading`; otherwise nothing changes and the state stays (`None`).
pub fn handle_portal_interactions(
    transitions: &Vec<(Vec<u64>, LevelTransition)>,
    players: &Vec<u64>,
    current_level: &mut CurrentLevel,
) -> (r: Option<GameState>)
    ensures
        match portal_target(transitions@, players@) {
            Some(level) => final(current_level).0 == Some(level) && r == Some(GameState::Loading),
            None => *final(current_level) == *old(current_level) && r is None,
        },
{
    let mut next: Option<GameState> = None;
    let mut i: usize = 0;
    proof {
        assert(transitions@.take(0).len() == 0);
    }
    while i < transitions.len()
        invariant
            i <= transitions.len(),
            match portal_target(transitions@.take(i as int), players@) {
                Some(level) => current_level.0 == Some(level) && next == Some(GameState::Loading),
                None => *current_level == *old(current_level) && next is None,
            },
        decreases transitions.len() - i,
    {
        proof {
            let shorter = transitions@.take(i as int);
            let longer = transitions@.take(i + 1);
            assert(longer.drop_last() == shorter);
            assert(longer.last() == transitions@[i as int]);
        }
        if is_touched_by_player(&transitions[i].0, players) {
            current_level.0 = Some(transitions[i].1.0);
            next = Some(GameState::Loading);
        }
        i += 1;
    }
    proof {
        assert(transitions@.take(transitions.len() as int) == transitions@);
    }
    next
}

} // verus!
