use recoil_control::gui::MyApp;
use recoil_control::operators::Operator;
use recoil_control::state::ControlState;

fn op(name: &str, default_strength: i32, current_strength: i32) -> Operator {
    Operator { name: name.to_string(), default_strength, current_strength }
}

fn sample() -> Vec<Operator> {
    vec![op("Ash", 2, 2), op("Mira", 4, 4), op("Doc", 3, 3)]
}

#[test]
fn new_surface_writes_the_first_profile_strength() {
    let mut st = ControlState::new();
    let app = MyApp::new(sample(), &mut st);
    assert!(!app.is_active);
    assert_eq!(app.selected_index, 0);
    assert_eq!(st.get_strength(), 2);
}

#[test]
fn new_surface_over_no_profiles_writes_zero() {
    let mut st = ControlState::new();
    st.set_strength(9);
    let app = MyApp::new(Vec::new(), &mut st);
    assert_eq!(app.operators.len(), 0);
    assert_eq!(st.get_strength(), 0);
}

#[test]
fn selecting_then_editing_then_reset_restores_the_default() {
    let mut st = ControlState::new();
    let mut app = MyApp::new(sample(), &mut st);

    app.select_operator(1, &mut st);
    assert_eq!(st.get_strength(), 4);

    app.set_current_strength(10, &mut st);
    assert_eq!(app.operators[1].current_strength, 10);
    assert_eq!(st.get_strength(), 10);

    app.reset_selected(&mut st);
    assert_eq!(app.operators[1].current_strength, 4);
    assert_eq!(st.get_strength(), 4);
}

#[test]
fn reset_is_idempotent_on_the_selected_profile() {
    let mut st = ControlState::new();
    let mut app = MyApp::new(sample(), &mut st);
    app.select_operator(2, &mut st);
    app.reset_selected(&mut st);
    let once = app.operators[2].current_strength;
    app.reset_selected(&mut st);
    assert_eq!(app.operators[2].current_strength, once);
    assert_eq!(once, 3);
}

#[test]
fn slider_writes_are_clamped_into_range() {
    let mut st = ControlState::new();
    let mut app = MyApp::new(sample(), &mut st);
    app.set_current_strength(99, &mut st);
    assert_eq!(app.operators[0].current_strength, 20);
    assert_eq!(st.get_strength(), 20);
    app.set_current_strength(-1, &mut st);
    assert_eq!(app.operators[0].current_strength, 0);
    assert_eq!(st.get_strength(), 0);
}

#[test]
fn sync_active_mirrors_the_shared_flag() {
    let mut st = ControlState::new();
    let mut app = MyApp::new(sample(), &mut st);
    st.set_enabled(true);
    app.sync_active(&st);
    assert!(app.is_active);
    st.set_enabled(false);
    app.sync_active(&st);
    assert!(!app.is_active);
}
