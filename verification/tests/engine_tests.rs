use recoil_control::engine::{evaluate_cycle, ACTIVE_INTERVAL_MS, IDLE_INTERVAL_MS};
use recoil_control::state::ControlState;

#[test]
fn active_cycle_issues_exactly_one_vertical_displacement_of_the_strength() {
    let st = ControlState { enabled: true, trigger_right: true, trigger_left: true, strength: 7 };
    let a = evaluate_cycle(&st);
    assert_eq!(a.displacement, Some((0, 7)));
    assert_eq!(a.sleep_ms, ACTIVE_INTERVAL_MS);
}

#[test]
fn one_trigger_down_means_idle_and_no_displacement() {
    let st = ControlState { enabled: true, trigger_right: true, trigger_left: false, strength: 7 };
    let a = evaluate_cycle(&st);
    assert_eq!(a.displacement, None);
    assert_eq!(a.sleep_ms, IDLE_INTERVAL_MS);
}

#[test]
fn disabled_never_fires_whatever_the_triggers() {
    for &(tr, tl) in &[(false, false), (false, true), (true, false), (true, true)] {
        let st = ControlState { enabled: false, trigger_right: tr, trigger_left: tl, strength: 20 };
        let a = evaluate_cycle(&st);
        assert_eq!(a.displacement, None);
        assert_eq!(a.sleep_ms, IDLE_INTERVAL_MS);
    }
}

#[test]
fn fires_exactly_when_enabled_and_both_triggers_hold() {
    for &en in &[false, true] {
        for &tr in &[false, true] {
            for &tl in &[false, true] {
                let st = ControlState {
                    enabled: en,
                    trigger_right: tr,
                    trigger_left: tl,
                    strength: 4,
                };
                let a = evaluate_cycle(&st);
                assert_eq!(a.displacement.is_some(), en && tr && tl);
            }
        }
    }
}

#[test]
fn strength_is_read_fresh_each_cycle() {
    let mut st = ControlState { enabled: true, trigger_right: true, trigger_left: true, strength: 3 };
    assert_eq!(evaluate_cycle(&st).displacement, Some((0, 3)));
    st.set_strength(11);
    assert_eq!(evaluate_cycle(&st).displacement, Some((0, 11)));
}
