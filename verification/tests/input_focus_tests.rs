use spark_tui::engine::arrays::Arrays;
use spark_tui::engine::registry::Registry;
use spark_tui::primitives::input::{input_with_focus, InputProps};
use spark_tui::state::focus::{get_focused_index, FocusState};

#[test]
fn auto_focus_focuses_the_new_input() {
    let mut reg = Registry::new();
    let mut arrays = Arrays::new();
    let mut focus: FocusState<Box<dyn Fn()>> = FocusState::new();
    let mut props = InputProps::new("x".to_string());
    props.auto_focus = true;
    let i = input_with_focus(&mut reg, &mut arrays, &mut focus, &props);
    assert_eq!(get_focused_index(&focus), i as i32);
}

#[test]
fn without_auto_focus_focus_stays() {
    let mut reg = Registry::new();
    let mut arrays = Arrays::new();
    let mut focus: FocusState<Box<dyn Fn()>> = FocusState::new();
    let props = InputProps::new("x".to_string());
    let _i = input_with_focus(&mut reg, &mut arrays, &mut focus, &props);
    assert_eq!(get_focused_index(&focus), -1);
}
