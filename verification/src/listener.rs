//! The input listener's decision: how one raw input edge updates the shared
//! control state.
//!
//! The platform side subscribes to the global stream of pointer and key
//! edges and translates each edge it observes into an [`InputEvent`]; this
//! module decides, fully verified, what that edge does to the control
//! state. A right/left button press or release sets or clears the matching
//! trigger flag, the designated hotkey's release edge toggles the enabled
//! flag, and every other edge leaves the state untouched. The blocking
//! subscription itself, and its one-shot failure report, stay outside this
//! crate.

use vstd::prelude::*;

use crate::state::{state_wf, ControlState};

verus! {

/// A pointer button as the listener distinguishes them.
#[derive(Clone, Copy, PartialEq, Eq, Structural, Debug)]
pub enum Button {
    /// The left trigger button.
    Left,
    /// The right trigger button.
    Right,
    /// Any other pointer button: its edges are ignored.
    Other,
}

/// A key as the listener distinguishes them.
#[derive(Clone, Copy, PartialEq, Eq, Structural, Debug)]
pub enum Key {
    /// The designated toggle hotkey.
    Hotkey,
    /// Any other key: its edges are ignored.
    Other,
}

/// One raw input edge, as handed in by the platform subscription.
#[derive(Clone, Copy, PartialEq, Eq, Structural, Debug)]
pub enum InputEvent {
    ButtonPress(Button),
    ButtonRelease(Button),
    KeyRelease(Key),
    /// Any other kind of edge (motion, wheel, key press, ...): ignored.
    Other,
}

/// What one input edge does to the control state.
pub open spec fn spec_apply_event(st: ControlState, ev: InputEvent) -> ControlState {
    match ev {
        InputEvent::ButtonPress(Button::Right) => ControlState { trigger_right: true, ..st },
        InputEvent::ButtonPress(Button::Left) => ControlState { trigger_left: true, ..st },
        InputEvent::ButtonRelease(Button::Right) => ControlState { trigger_right: false, ..st },
        InputEvent::ButtonRelease(Button::Left) => ControlState { trigger_left: false, ..st },
        InputEvent::KeyRelease(Key::Hotkey) => ControlState { enabled: !st.enabled, ..st },
        _ => st,
    }
}

/// Applies one input edge to the control state: presses and releases of the
/// two trigger buttons move the matching trigger flag, the hotkey's release
/// edge toggles the enabled flag, and every other edge changes nothing.
pub fn apply_event(st: &mut ControlState, ev: InputEvent)
    ensures
        *final(st) == spec_apply_event(*old(st), ev),
{
    match ev {
        InputEvent::ButtonPress(Button::Right) => st.set_trigger_right(true),
        InputEvent::ButtonPress(Button::Left) => st.set_trigger_left(true),
        InputEvent::ButtonRelease(Button::Right) => st.set_trigger_right(false),
        InputEvent::ButtonRelease(Button::Left) => st.set_trigger_left(false),
        InputEvent::KeyRelease(Key::Hotkey) => {
            let current = st.get_enabled();
            st.set_enabled(!current);
        },
        _ => {},
    }
}

/// One hotkey release toggles the enabled flag; a second one toggles it
/// back. So from a disarmed state one release arms compensation and the
/// next release disarms it again, and nothing else about the state moves.
pub proof fn lemma_hotkey_release_toggles(st: ControlState)
    ensures
        spec_apply_event(st, InputEvent::KeyRelease(Key::Hotkey)).enabled == !st.enabled,
        spec_apply_event(
            spec_apply_event(st, InputEvent::KeyRelease(Key::Hotkey)),
            InputEvent::KeyRelease(Key::Hotkey),
        ) == st,
{
}

/// No input edge moves the strength field, and no edge breaks the state's
/// well-formedness: the listener only ever touches the boolean flags.
pub proof fn lemma_events_preserve_strength(st: ControlState, ev: InputEvent)
    ensures
        spec_apply_event(st, ev).strength == st.strength,
        state_wf(st) ==> state_wf(spec_apply_event(st, ev)),
{
}

} // verus!
