//! What happens to a player that falls out of the window.

use vstd::prelude::*;
use crate::camera::{WINDOW_BOTTOM, WINDOW_LEFT};
use crate::math::{Scalar, Transform, Vector};

verus! {

/// A request to put the player back at the start.
#[derive(Clone, Copy, Debug, PartialEq, Eq, Structural)]
pub struct Respawn;

/// The raw horizontal coordinate at which a player comes back: 150 right of
/// the window's left edge.
pub const RESPAWN_X: i64 = WINDOW_LEFT + 150_000_000;

/// The raw vertical coordinate at which a player comes back (-100).
pub const RESPAWN_Y: i64 = -100_000_000;

/// The player has fallen below the lower edge of the window.
pub open spec fn is_out_of_bounds(player: Transform) -> bool {
    player.translation.y@ < WINDOW_BOTTOM
}

/// How many of the players have fallen below the lower edge of the window.
pub open spec fn fallen(players: Seq<Transform>) -> nat
    decreases players.len(),
{
    if players.len() == 0 {
        0
    } else {
        fallen(players.drop_last()) + (if is_out_of_bounds(players.last()) {
            1nat
        } else {
            0nat
        })
    }
}

/// Asks for a respawn once for every player that has fallen below the lower
/// edge of the window.
pub fn check_out_of_bounds(players: &Vec<Transform>) -> (r: Vec<Respawn>)
    ensures
        r@.len() == fallen(players@),
{
    let mut events: Vec<Respawn> = Vec::new();
    let mut i: usize = 0;
    proof {
        assert(players@.take(0).len() == 0);
    }
    while i < players.len()
        invariant
            i <= players.len(),
            events@.len() == fallen(players@.take(i as int)),
            events@.len() <= i,
        decreases players.len() - i,
    {
        proof {
            let shorter = players@.take(i as int);
            let longer = players@.take(i + 1);
            assert(longer.drop_last() == shorter);
            assert(longer.last() == players@[i as int]);
        }
        if players[i].translation.y.raw < WINDOW_BOTTOM {
            events.push(Respawn);
        }
        i += 1;
    }
    proof {
        assert(players@.take(players.len() as int) == players@);
    }
    events
}

/// Puts the player back at the start, at rest, where a respawn is asked for.
/// Each player comes as its transform and its velocity. Nothing happens
/// unless there is exactly one player and at least one request.
pub fn respawn(players: &mut Vec<(Transform, Vector)>, events: &Vec<Respawn>)
    ensures
        final(players)@.len() == old(players)@.len(),
        old(players)@.len() == 1 && events@.len() > 0 ==> {
            &&& final(players)@[0].0.translation.x@ == RESPAWN_X
            &&& final(players)@[0].0.translation.y@ == RESPAWN_Y
            &&& final(players)@[0].0.scale == old(players)@[0].0.scale
            &&& final(players)@[0].1.x@ == 0
            &&& final(players)@[0].1.y@ == 0
        },
        !(old(players)@.len() == 1 && events@.len() > 0) ==> final(players)@ == old(players)@,
{
    if players.len() == 1 && events.len() > 0 {
        let scale: Vector = players[0].0.scale;
        let at: Vector = Vector { x: Scalar { raw: RESPAWN_X }, y: Scalar { raw: RESPAWN_Y } };
        players.set(0, (Transform { translation: at, scale }, Vector::zero()));
    }
}

} // verus!
