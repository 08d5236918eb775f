//! Where the camera looks.

use vstd::prelude::*;
use crate::input::{Input, KeyCode};
use crate::math::{saturate, Scalar, Transform, Vector};

verus! {

/// The raw width of the window (1024).
pub const WINDOW_WIDTH: i64 = 1_024_000_000;

/// The raw height of the window (720).
pub const WINDOW_HEIGHT: i64 = 720_000_000;

/// The raw coordinate of the window's left edge when the camera is at rest.
pub const WINDOW_LEFT: i64 = -512_000_000;

/// The raw coordinate of the window's lower edge when the camera is at rest.
pub const WINDOW_BOTTOM: i64 = -360_000_000;

/// The raw distance that the editor's camera covers in one tick along an
/// axis whose key is held (2).
pub const EDITOR_CAMERA_STEP: i64 = 2_000_000;

/// The size of the window.
pub fn window_size() -> (r: Vector)
    ensures
        r.x@ == WINDOW_WIDTH,
        r.y@ == WINDOW_HEIGHT,
{
    Vector { x: Scalar { raw: WINDOW_WIDTH }, y: Scalar { raw: WINDOW_HEIGHT } }
}

/// The lower left corner of the window when the camera is at rest.
pub fn window_bottom_left() -> (r: Vector)
    ensures
        r.x@ == WINDOW_LEFT,
        r.y@ == WINDOW_BOTTOM,
{
    Vector { x: Scalar { raw: WINDOW_LEFT }, y: Scalar { raw: WINDOW_BOTTOM } }
}

/// `x`, or zero where `x` is negative.
pub open spec fn not_below_zero(x: int) -> int {
    if x <= 0 {
        0
    } else {
        x
    }
}

/// Lets the camera follow the player, but never below or left of the origin.
/// Nothing happens unless there is exactly one camera and exactly one
/// player.
pub fn move_camera_game(cameras: &mut Vec<Transform>, players: &Vec<Transform>)
    ensures
        final(cameras)@.len() == old(cameras)@.len(),
        old(cameras)@.len() == 1 && players@.len() == 1 ==> {
            &&& final(cameras)@[0].translation.x@ == not_below_zero(players@[0].translation.x@)
            &&& final(cameras)@[0].translation.y@ == not_below_zero(players@[0].translation.y@)
            &&& final(cameras)@[0].scale == old(cameras)@[0].scale
        },
        !(old(cameras)@.len() == 1 && players@.len() == 1) ==> final(cameras)@ == old(cameras)@,
{
    if cameras.len() == 1 && players.len() == 1 {
        let target: Vector = players[0].translation;
        let zero: Scalar = Scalar::zero();
        cameras[0].translation = Vector { x: target.x.max(zero), y: target.y.max(zero) };
    }
}

/// The raw distance that the editor's camera is asked to cover along an
/// axis: a step toward larger coordinates for `forth`, one toward smaller
/// ones for `back`.
pub open spec fn editor_motion(forth: bool, back: bool) -> int {
    ((if forth { 1int } else { 0int }) - (if back { 1int } else { 0int })) * EDITOR_CAMERA_STEP
}

/// Moves the editor's camera by the keys held (`A`/`Left`, `D`/`Right`,
/// `W`/`Up`, `S`/`Down`), but never below or left of the origin. Nothing
/// happens unless there is exactly one camera.
pub fn move_camera_editor(cameras: &mut Vec<Transform>, keyboard_input: &Input)
    ensures
        final(cameras)@.len() == old(cameras)@.len(),
        old(cameras)@.len() == 1 ==> {
            let left = keyboard_input.is_pressed(KeyCode::A) || keyboard_input.is_pressed(
                KeyCode::Left,
            );
            let right = keyboard_input.is_pressed(KeyCode::D) || keyboard_input.is_pressed(
                KeyCode::Right,
            );
            let up = keyboard_input.is_pressed(KeyCode::W) || keyboard_input.is_pressed(
                KeyCode::Up,
            );
            let down = keyboard_input.is_pressed(KeyCode::S) || keyboard_input.is_pressed(
                KeyCode::Down,
            );
            &&& final(cameras)@[0].translation.x@ == not_below_zero(
                saturate(old(cameras)@[0].translation.x@ + editor_motion(right, left)),
            )
            &&& final(cameras)@[0].translation.y@ == not_below_zero(
                saturate(old(cameras)@[0].translation.y@ + editor_motion(up, down)),
            )
            &&& final(cameras)@[0].scale == old(cameras)@[0].scale
        },
        old(cameras)@.len() != 1 ==> final(cameras)@ == old(cameras)@,
{
    let left: bool = keyboard_input.any_pressed(KeyCode::A, KeyCode::Left);
    let right: bool = keyboard_input.any_pressed(KeyCode::D, KeyCode::Right);
    let up: bool = keyboard_input.any_pressed(KeyCode::W, KeyCode::Up);
    let down: bool = keyboard_input.any_pressed(KeyCode::S, KeyCode::Down);
    if cameras.len() == 1 {
        let across: i64 = ((if right { 1i64 } else { 0i64 }) - (if left { 1i64 } else { 0i64 }))
            * EDITOR_CAMERA_STEP;
        let upward: i64 = ((if up { 1i64 } else { 0i64 }) - (if down { 1i64 } else { 0i64 }))
            * EDITOR_CAMERA_STEP;
        let at: Vector = cameras[0].translation;
        let zero: Scalar = Scalar::zero();
        let x: Scalar = at.x.sat_add(Scalar { raw: across }).max(zero);
        let y: Scalar = at.y.sat_add(Scalar { raw: upward }).max(zero);
        cameras[0].translation = Vector { x, y };
    }
}

} // verus!
