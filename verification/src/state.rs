//! The shared control state: the enabled flag, the two trigger flags and the
//! active compensation strength.
//!
//! The process holds one logical instance of this state, written by the input
//! listener and the control surface and read by the compensation loop. Each
//! field is read and written independently (per-field last-write-wins); no
//! cross-field transaction is needed, so the state is modelled here as a plain
//! value with total field accessors. The strength field always stays within
//! `[0, MAX_STRENGTH]`: writers clamp, so readers never observe an
//! out-of-range value.

use vstd::prelude::*;

verus! {

/// Largest admissible compensation strength.
pub const MAX_STRENGTH: i32 = 20;

/// The process-wide control signal shared by all workers.
#[derive(Clone, Copy, PartialEq, Eq, Structural, Debug)]
pub struct ControlState {
    /// Whether compensation is armed at all.
    pub enabled: bool,
    /// Whether the right trigger button is currently held.
    pub trigger_right: bool,
    /// Whether the left trigger button is currently held.
    pub trigger_left: bool,
    /// Current compensation magnitude, within `[0, MAX_STRENGTH]`.
    pub strength: i32,
}

/// What every writer keeps true of the state: the strength is in range.
pub open spec fn state_wf(st: ControlState) -> bool {
    0 <= st.strength <= MAX_STRENGTH
}

/// How a writer brings an arbitrary requested strength into range.
pub open spec fn clamp_strength(v: int) -> int {
    if v < 0 {
        0
    } else if v > MAX_STRENGTH {
        MAX_STRENGTH as int
    } else {
        v
    }
}

impl ControlState {
    /// The state at process start: disarmed, no trigger held, zero strength.
    pub fn new() -> (st: ControlState)
        ensures
            st == (ControlState { enabled: false, trigger_right: false, trigger_left: false, strength: 0 }),
            state_wf(st),
    {
        ControlState { enabled: false, trigger_right: false, trigger_left: false, strength: 0 }
    }

    pub fn get_enabled(&self) -> (b: bool)
        ensures
            b == self.enabled,
    {
        self.enabled
    }

    pub fn set_enabled(&mut self, value: bool)
        ensures
            *final(self) == (ControlState { enabled: value, ..*old(self) }),
    {
        self.enabled = value;
    }

    pub fn get_strength(&self) -> (s: i32)
        ensures
            s == self.strength,
    {
        self.strength
    }

    /// Writes the strength, clamping an out-of-range request into
    /// `[0, MAX_STRENGTH]`; every other field is left as it was.
    pub fn set_strength(&mut self, value: i32)
        ensures
            *final(self) == (ControlState { strength: clamp_strength(value as int) as i32, ..*old(self) }),
            state_wf(*final(self)),
    {
        let clamped: i32 = if value < 0 {
            0
        } else if value > MAX_STRENGTH {
            MAX_STRENGTH
        } else {
            value
        };
        self.strength = clamped;
    }

    pub fn get_trigger_right(&self) -> (b: bool)
        ensures
            b == self.trigger_right,
    {
        self.trigger_right
    }

    pub fn set_trigger_right(&mut self, value: bool)
        ensures
            *final(self) == (ControlState { trigger_right: value, ..*old(self) }),
    {
        self.trigger_right = value;
    }

    pub fn get_trigger_left(&self) -> (b: bool)
        ensures
            b == self.trigger_left,
    {
        self.trigger_left
    }

    pub fn set_trigger_left(&mut self, value: bool)
        ensures
            *final(self) == (ControlState { trigger_left: value, ..*old(self) }),
    {
        self.trigger_left = value;
    }
}

/// Setting then reading the strength returns the value that was set: for any
/// in-range request nothing is lost to clamping, so a write of `s` followed by
/// a read yields exactly `s`.
pub proof fn lemma_strength_set_then_get(st: ControlState, s: i32)
    requires
        0 <= s <= MAX_STRENGTH,
    ensures
        (ControlState { strength: clamp_strength(s as int) as i32, ..st }).strength == s,
{
}

} // verus!
