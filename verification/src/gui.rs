//! The control surface's state and actions.
//!
//! The presentation layer owns no compensation logic: it holds this state
//! and calls the actions below, which read and write the shared control
//! state and the profile list. Rendering and window management stay
//! outside this crate; they only display these fields and forward clicks
//! and slider moves into these methods.

use vstd::prelude::*;

use crate::operators::{profiles_of, spec_reset, Operator, Profile};
use crate::state::{clamp_strength, ControlState};

verus! {

/// What the control surface shows and edits: a mirror of the enabled flag,
/// the ordered profile list, and which profile is selected.
pub struct MyApp {
    /// Mirror of the shared enabled flag, refreshed each presentation cycle.
    pub is_active: bool,
    /// The ordered profile list, fixed in composition at load time.
    pub operators: Vec<Operator>,
    /// Index of the profile the user is editing.
    pub selected_index: usize,
}

impl MyApp {
    /// The surface is well-formed when the selection is in range and every
    /// profile is valid.
    pub open spec fn wf(self) -> bool {
        &&& self.selected_index < self.operators@.len()
        &&& forall|k: int|
            0 <= k < self.operators@.len() ==> (#[trigger] self.operators@[k])@.wf()
    }

    /// The profile the surface currently edits.
    pub open spec fn selected(self) -> Profile {
        self.operators@[self.selected_index as int]@
    }

    /// Builds the surface over a freshly loaded profile list: nothing
    /// selected but the first profile, compensation shown as disarmed, and
    /// the first profile's current strength (or zero, for an empty list)
    /// written into the shared state.
    pub fn new(operators: Vec<Operator>, st: &mut ControlState) -> (app: MyApp)
        ensures
            app.is_active == false,
            app.selected_index == 0,
            app.operators@ == operators@,
            *final(st) == (ControlState {
                strength: clamp_strength(
                    if operators@.len() > 0 {
                        operators@[0]@.current_strength
                    } else {
                        0
                    },
                ) as i32,
                ..*old(st)
            }),
    {
        let initial: i32 = if operators.len() > 0 {
            operators[0].current_strength
        } else {
            0
        };
        st.set_strength(initial);
        MyApp { is_active: false, operators, selected_index: 0 }
    }

    /// Refreshes the surface's enabled mirror from the shared state.
    pub fn sync_active(&mut self, st: &ControlState)
        ensures
            final(self).is_active == st.enabled,
            final(self).operators@ == old(self).operators@,
            final(self).selected_index == old(self).selected_index,
    {
        self.is_active = st.get_enabled();
    }

    /// Selects the profile at `index` and copies its current strength into
    /// the shared state: the sole bridge from profile state to the
    /// compensation loop.
    pub fn select_operator(&mut self, index: usize, st: &mut ControlState)
        requires
            old(self).wf(),
            index < old(self).operators@.len(),
        ensures
            final(self).operators@ == old(self).operators@,
            final(self).selected_index == index,
            final(self).is_active == old(self).is_active,
            final(self).wf(),
            *final(st) == (ControlState {
                strength: old(self).operators@[index as int]@.current_strength as i32,
                ..*old(st)
            }),
    {
        self.selected_index = index;
        let value = self.operators[index].current_strength;
        st.set_strength(value);
    }

    /// Adjusts the selected profile's current strength to `value`, clamped
    /// into range, and copies the clamped value into the shared state.
    pub fn set_current_strength(&mut self, value: i32, st: &mut ControlState)
        requires
            old(self).wf(),
        ensures
            profiles_of(final(self).operators@) == profiles_of(old(self).operators@).update(
                old(self).selected_index as int,
                Profile {
                    current_strength: clamp_strength(value as int),
                    ..old(self).selected()
                },
            ),
            final(self).selected_index == old(self).selected_index,
            final(self).is_active == old(self).is_active,
            final(self).wf(),
            *final(st) == (ControlState { strength: clamp_strength(value as int) as i32, ..*old(st) }),
    {
        let i = self.selected_index;
        let clamped: i32 = if value < 0 {
            0
        } else if value > crate::state::MAX_STRENGTH {
            crate::state::MAX_STRENGTH
        } else {
            value
        };
        let name = self.operators[i].name.clone();
        let default_strength = self.operators[i].default_strength;
        let updated = Operator { name, default_strength, current_strength: clamped };
        self.operators.set(i, updated);
        st.set_strength(clamped);
        proof {
            assert(profiles_of(self.operators@) =~= profiles_of(old(self).operators@).update(
                i as int,
                Profile { current_strength: clamp_strength(value as int), ..old(self).selected() },
            ));
        }
    }

    /// Resets the selected profile's current strength to its default and
    /// copies that default into the shared state.
    pub fn reset_selected(&mut self, st: &mut ControlState)
        requires
            old(self).wf(),
        ensures
            profiles_of(final(self).operators@) == profiles_of(old(self).operators@).update(
                old(self).selected_index as int,
                spec_reset(old(self).selected()),
            ),
            final(self).selected_index == old(self).selected_index,
            final(self).is_active == old(self).is_active,
            final(self).wf(),
            *final(st) == (ControlState {
                strength: old(self).selected().default_strength as i32,
                ..*old(st)
            }),
    {
        let i = self.selected_index;
        let name = self.operators[i].name.clone();
        let default_strength = self.operators[i].default_strength;
        let updated = Operator { name, default_strength, current_strength: default_strength };
        self.operators.set(i, updated);
        st.set_strength(default_strength);
        proof {
            assert(profiles_of(self.operators@) =~= profiles_of(old(self).operators@).update(
                i as int,
                spec_reset(old(self).selected()),
            ));
        }
    }
}

} // verus!
