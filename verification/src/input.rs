//! What the devices report for one tick: the keys that are down, the keys
//! that went down since the last tick, and the turns of the scroll wheel.

use vstd::prelude::*;
use crate::math::Scalar;

verus! {

/// The keys that the game reads.
#[derive(Clone, Copy, Debug, PartialEq, Eq, Hash, Structural)]
pub enum KeyCode {
    A,
    D,
    S,
    W,
    Down,
    Left,
    Right,
    Up,
    Space,
}

/// The state of the keyboard during one tick.
#[derive(Clone, Debug)]
pub struct Input {
    /// The keys that are held down.
    pub pressed: Vec<KeyCode>,
    /// The keys that went down since the last tick.
    pub just_pressed: Vec<KeyCode>,
}

/// Whether `key` occurs in `keys`.
pub fn holds_key(keys: &Vec<KeyCode>, key: KeyCode) -> (r: bool)
    ensures
        r == keys@.contains(key),
{
    let mut i: usize = 0;
    while i < keys.len()
        invariant
            i <= keys.len(),
            forall|j: int| 0 <= j < i ==> keys@[j] != key,
        decreases keys.len() - i,
    {
        if keys[i] == key {
            return true;
        }
        i += 1;
    }
    false
}

impl Input {
    /// A keyboard on which no key is down.
    pub fn new() -> (r: Input)
        ensures
            r.pressed@.len() == 0,
            r.just_pressed@.len() == 0,
    {
        Input { pressed: Vec::new(), just_pressed: Vec::new() }
    }

    /// `key` is held down.
    pub open spec fn is_pressed(self, key: KeyCode) -> bool {
        self.pressed@.contains(key)
    }

    /// `key` went down since the last tick.
    pub open spec fn is_just_pressed(self, key: KeyCode) -> bool {
        self.just_pressed@.contains(key)
    }

    /// Whether `key` is held down.
    pub fn pressed(&self, key: KeyCode) -> (r: bool)
        ensures
            r == self.is_pressed(key),
    {
        holds_key(&self.pressed, key)
    }

    /// Whether `key` went down since the last tick.
    pub fn just_pressed(&self, key: KeyCode) -> (r: bool)
        ensures
            r == self.is_just_pressed(key),
    {
        holds_key(&self.just_pressed, key)
    }

    /// Whether one of two keys is held down.
    pub fn any_pressed(&self, first: KeyCode, second: KeyCode) -> (r: bool)
        ensures
            r == (self.is_pressed(first) || self.is_pressed(second)),
    {
        holds_key(&self.pressed, first) || holds_key(&self.pressed, second)
    }

    /// Whether one of two keys went down since the last tick.
    pub fn any_just_pressed(&self, first: KeyCode, second: KeyCode) -> (r: bool)
        ensures
            r == (self.is_just_pressed(first) || self.is_just_pressed(second)),
    {
        holds_key(&self.just_pressed, first) || holds_key(&self.just_pressed, second)
    }
}

/// The unit in which a scroll wheel reports a turn.
#[derive(Clone, Copy, Debug, PartialEq, Eq, Structural)]
pub enum MouseScrollUnit {
    Line,
    Pixel,
}

/// One turn of the scroll wheel.
#[derive(Clone, Copy, Debug, PartialEq, Eq, Structural)]
pub struct MouseWheel {
    pub unit: MouseScrollUnit,
    /// The vertical amount, in the unit.
    pub y: Scalar,
}

} // verus!
