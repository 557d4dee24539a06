//! The profile data model: a named strength preset.
//!
//! The process loads an ordered list of operators at startup, lets the user
//! adjust or reset each one's current strength, and saves the list on
//! demand; no operator is added or removed at runtime. Names are not
//! guaranteed unique. Both strengths of a well-formed operator lie within
//! `[0, MAX_STRENGTH]`.

use vstd::prelude::*;

use crate::state::MAX_STRENGTH;

verus! {

/// A named recoil strength preset.
#[derive(Debug, Clone)]
pub struct Operator {
    pub name: String,
    pub default_strength: i32,
    pub current_strength: i32,
}

/// The mathematical value of an [`Operator`]: its name as a character
/// sequence and its two strengths as unbounded integers.
pub ghost struct Profile {
    pub name: Seq<char>,
    pub default_strength: int,
    pub current_strength: int,
}

impl View for Operator {
    type V = Profile;

    open spec fn view(&self) -> Profile {
        Profile {
            name: self.name@,
            default_strength: self.default_strength as int,
            current_strength: self.current_strength as int,
        }
    }
}

impl Profile {
    /// Both strengths of a valid profile lie within `[0, MAX_STRENGTH]`.
    pub open spec fn wf(self) -> bool {
        &&& 0 <= self.default_strength <= MAX_STRENGTH
        &&& 0 <= self.current_strength <= MAX_STRENGTH
    }
}

/// What resetting a profile does: the current strength goes back to the
/// default, everything else stays.
pub open spec fn spec_reset(p: Profile) -> Profile {
    Profile { current_strength: p.default_strength, ..p }
}

/// The list of profiles an operator list stands for.
pub open spec fn profiles_of(ops: Seq<Operator>) -> Seq<Profile> {
    ops.map_values(|op: Operator| op@)
}

/// Every profile in the list is valid.
pub open spec fn profiles_wf(ps: Seq<Profile>) -> bool {
    forall|k: int| 0 <= k < ps.len() ==> (#[trigger] ps[k]).wf()
}

impl Operator {
    /// Puts the current strength back to the default strength.
    pub fn reset(&mut self)
        ensures
            final(self)@ == spec_reset(old(self)@),
    {
        self.current_strength = self.default_strength;
    }
}

/// Resetting a profile sets its current strength to its default strength,
/// and doing so again changes nothing more: reset is idempotent.
pub proof fn lemma_reset_idempotent(p: Profile)
    ensures
        spec_reset(p).current_strength == p.default_strength,
        spec_reset(spec_reset(p)) == spec_reset(p),
{
}

} // verus!
