use recoil_control::listener::{apply_event, Button, InputEvent, Key};
use recoil_control::state::ControlState;

#[test]
fn hotkey_release_toggles_enabled_false_true_false() {
    let mut st = ControlState::new();
    assert!(!st.get_enabled());
    apply_event(&mut st, InputEvent::KeyRelease(Key::Hotkey));
    assert!(st.get_enabled());
    apply_event(&mut st, InputEvent::KeyRelease(Key::Hotkey));
    assert!(!st.get_enabled());
}

#[test]
fn trigger_buttons_follow_press_and_release() {
    let mut st = ControlState::new();
    apply_event(&mut st, InputEvent::ButtonPress(Button::Right));
    assert!(st.get_trigger_right());
    assert!(!st.get_trigger_left());
    apply_event(&mut st, InputEvent::ButtonPress(Button::Left));
    assert!(st.get_trigger_left());
    apply_event(&mut st, InputEvent::ButtonRelease(Button::Right));
    assert!(!st.get_trigger_right());
    assert!(st.get_trigger_left());
    apply_event(&mut st, InputEvent::ButtonRelease(Button::Left));
    assert!(!st.get_trigger_left());
}

#[test]
fn other_edges_are_ignored() {
    let mut st = ControlState::new();
    st.set_enabled(true);
    st.set_trigger_right(true);
    st.set_strength(5);
    apply_event(&mut st, InputEvent::ButtonPress(Button::Other));
    apply_event(&mut st, InputEvent::ButtonRelease(Button::Other));
    apply_event(&mut st, InputEvent::KeyRelease(Key::Other));
    apply_event(&mut st, InputEvent::Other);
    assert!(st.get_enabled());
    assert!(st.get_trigger_right());
    assert!(!st.get_trigger_left());
    assert_eq!(st.get_strength(), 5);
}

#[test]
fn events_never_touch_the_strength() {
    let mut st = ControlState::new();
    st.set_strength(13);
    apply_event(&mut st, InputEvent::ButtonPress(Button::Right));
    apply_event(&mut st, InputEvent::KeyRelease(Key::Hotkey));
    apply_event(&mut st, InputEvent::ButtonRelease(Button::Left));
    assert_eq!(st.get_strength(), 13);
}
