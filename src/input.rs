//! The sixteen-key hexadecimal keypad.

use vstd::prelude::*;

verus! {

/// Number of keys on the keypad.
pub const KEY_COUNT: usize = 16;

/// Whether any of the keys is down.
pub open spec fn any_pressed(state: Seq<bool>) -> bool {
    exists|k: int| 0 <= k < state.len() && #[trigger] state[k]
}

/// The lowest-numbered key that is down, if one is.
pub open spec fn lowest_pressed(state: Seq<bool>, k: int) -> bool {
    &&& 0 <= k < state.len()
    &&& state[k]
    &&& forall|j: int| 0 <= j < k ==> !#[trigger] state[j]
}

/// A snapshot of the keypad: `state[k]` is true while key `k` is held.
/// The driver refreshes it once per iteration; the interpreter only reads it.
pub struct Input {
    pub state: [bool; 16],
}

impl Input {
    /// All keys released.
    pub fn new() -> (r: Input)
        ensures
            forall|k: int| 0 <= k < KEY_COUNT ==> !#[trigger] r.state@[k],
    {
        Input { state: [false; 16] }
    }

    /// Replaces the whole snapshot.
    pub fn set_state(&mut self, state: [bool; 16])
        ensures
            final(self).state == state,
    {
        self.state = state;
    }

    /// Marks one key as held or released.
    pub fn set_key(&mut self, key: usize, pressed: bool)
        requires
            key < KEY_COUNT,
        ensures
            final(self).state@ == old(self).state@.update(key as int, pressed),
    {
        self.state[key] = pressed;
    }

    /// Whether key `key` is held. There is no key past `KEY_COUNT - 1`, so
    /// such a key is never held.
    pub fn is_pressed(&self, key: usize) -> (r: bool)
        ensures
            r == (key < KEY_COUNT && self.state@[key as int]),
    {
        key < KEY_COUNT && self.state[key]
    }

    /// The lowest-numbered key that is held, or `None` when none is.
    pub fn first_pressed(&self) -> (r: Option<u8>)
        ensures
            r is None <==> !any_pressed(self.state@),
            r matches Some(k) ==> lowest_pressed(self.state@, k as int),
    {
        let mut k: usize = 0;
        while k < KEY_COUNT
            invariant
                k <= KEY_COUNT,
                self.state@.len() == KEY_COUNT,
                forall|j: int| 0 <= j < k ==> !#[trigger] self.state@[j],
            decreases KEY_COUNT - k,
        {
            if self.state[k] {
                return Some(k as u8);
            }
            k = k + 1;
        }
        None
    }

    /// Whether any key is held.
    pub fn any_pressed(&self) -> (r: bool)
        ensures
            r == any_pressed(self.state@),
    {
        self.first_pressed().is_some()
    }
}

} // verus!
