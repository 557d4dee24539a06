use recoil_control::state::{ControlState, MAX_STRENGTH};

#[test]
fn new_state_is_disarmed_and_zero() {
    let st = ControlState::new();
    assert!(!st.get_enabled());
    assert!(!st.get_trigger_right());
    assert!(!st.get_trigger_left());
    assert_eq!(st.get_strength(), 0);
}

#[test]
fn strength_set_then_get_returns_it_for_every_value_in_range() {
    for s in 0..=MAX_STRENGTH {
        let mut st = ControlState::new();
        st.set_strength(s);
        assert_eq!(st.get_strength(), s);
    }
}

#[test]
fn strength_writes_above_range_clamp_to_max() {
    let mut st = ControlState::new();
    st.set_strength(MAX_STRENGTH + 5);
    assert_eq!(st.get_strength(), MAX_STRENGTH);
}

#[test]
fn strength_writes_below_range_clamp_to_zero() {
    let mut st = ControlState::new();
    st.set_strength(-3);
    assert_eq!(st.get_strength(), 0);
}

#[test]
fn field_writes_do_not_touch_other_fields() {
    let mut st = ControlState::new();
    st.set_enabled(true);
    st.set_trigger_right(true);
    st.set_strength(9);
    st.set_trigger_left(true);
    assert!(st.get_enabled());
    assert!(st.get_trigger_right());
    assert!(st.get_trigger_left());
    assert_eq!(st.get_strength(), 9);
}
