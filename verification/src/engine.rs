//! The compensation loop's per-cycle decision.
//!
//! Every cycle the loop takes a fresh snapshot of the shared control state
//! and asks this module what to do: whether to emit a relative pointer
//! displacement, which displacement, and how long to sleep before the next
//! evaluation. Compensation fires exactly when the enabled flag and both
//! trigger flags hold together; a firing cycle emits one vertical
//! displacement of the current strength and sleeps the short active
//! interval, any other cycle emits nothing and sleeps the longer idle
//! interval. The timed sleep and the actuator call themselves are platform
//! work and stay outside this crate.

use vstd::prelude::*;

use crate::state::ControlState;

verus! {

/// Cadence of firing cycles, in milliseconds: short, so that the injected
/// displacements feel continuous.
pub const ACTIVE_INTERVAL_MS: u64 = 7;

/// Cadence of non-firing cycles, in milliseconds: deliberately coarser, to
/// bound the cost of polling while compensation is not firing.
pub const IDLE_INTERVAL_MS: u64 = 10;

/// What one cycle of the compensation loop does: at most one relative
/// pointer displacement `(dx, dy)`, then a sleep of `sleep_ms` milliseconds.
#[derive(Clone, Copy, Debug)]
pub struct CycleAction {
    /// The displacement to inject this cycle, if any.
    pub displacement: Option<(i32, i32)>,
    /// How long to sleep before the next evaluation, in milliseconds.
    pub sleep_ms: u64,
}

/// The firing condition: compensation is armed and both triggers are held.
pub open spec fn fires(st: ControlState) -> bool {
    st.enabled && st.trigger_right && st.trigger_left
}

/// What one cycle does, as a function of the snapshot: a firing cycle emits
/// exactly one vertical displacement of the snapshot's strength and waits
/// the active interval, any other cycle emits nothing and waits the idle
/// interval.
pub open spec fn spec_cycle(st: ControlState) -> CycleAction {
    if fires(st) {
        CycleAction { displacement: Some((0i32, st.strength)), sleep_ms: ACTIVE_INTERVAL_MS }
    } else {
        CycleAction { displacement: None, sleep_ms: IDLE_INTERVAL_MS }
    }
}

/// Decides one cycle of the compensation loop from a snapshot of the shared
/// control state.
///
/// A displacement is produced if and only if the firing condition holds of
/// the snapshot; a firing cycle emits exactly one command, vertical-only,
/// of the snapshot's strength.
pub fn evaluate_cycle(st: &ControlState) -> (a: CycleAction)
    ensures
        a == spec_cycle(*st),
        a.displacement is Some <==> fires(*st),
{
    if st.get_enabled() && st.get_trigger_right() && st.get_trigger_left() {
        CycleAction { displacement: Some((0, st.get_strength())), sleep_ms: ACTIVE_INTERVAL_MS }
    } else {
        CycleAction { displacement: None, sleep_ms: IDLE_INTERVAL_MS }
    }
}

/// While the enabled flag is down, no cycle ever fires, whatever the
/// triggers hold: a disarmed state never produces a displacement command.
pub proof fn lemma_disabled_never_fires(st: ControlState)
    requires
        !st.enabled,
    ensures
        !fires(st),
        spec_cycle(st).displacement is None,
{
}

} // verus!
