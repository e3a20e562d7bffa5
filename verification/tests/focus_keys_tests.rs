use spark_tui::engine::arrays::interaction::{set_focusable, set_tab_index};
use spark_tui::engine::arrays::Arrays;
use spark_tui::engine::registry::{allocate_index, Registry};
use spark_tui::state::focus::{
    blur, focus, focus_first, focus_last, focus_next, focus_previous, get_focus_trap_container, get_focusable_indices,
    get_focused_index, has_focus, is_focus_trapped, is_focused, pop_focus_trap, push_focus_trap, register_callbacks,
    restore_focus_from_history, unregister_callbacks, FocusCallbacks, FocusState,
};
use spark_tui::state::global_keys::{global_key_action, handle_global_key, setup_global_keys, GlobalKeyAction};
use spark_tui::state::input::InputEvent;
use spark_tui::state::keyboard::{
    cleanup_index, dispatch, dispatch_focused, last_event, last_key, on, on_focused, on_key, on_keys,
    reset_keyboard_state, unsubscribe, KeyState, KeyboardEvent, KeyboardState, Modifiers,
};
use spark_tui::state::mouse::{MouseButton, MouseEvent, ScrollDirection};
use std::cell::Cell;
use std::rc::Rc;

type Focus = FocusState<Box<dyn Fn()>>;
type Keys = KeyboardState<Box<dyn Fn(&KeyboardEvent) -> bool>, Box<dyn Fn() -> bool>>;

fn focusable_boxes(tab_indices: &[i32]) -> (Registry, Arrays) {
    let mut reg = Registry::new();
    let mut arrays = Arrays::new();
    for &t in tab_indices {
        let i = allocate_index(&mut reg, &mut arrays, None);
        set_focusable(&mut arrays.interaction, i, true);
        set_tab_index(&mut arrays.interaction, i, t);
    }
    (reg, arrays)
}

#[test]
fn focus_test_initial_state() {
    let f: Focus = FocusState::new();
    assert_eq!(get_focused_index(&f), -1);
    assert!(!has_focus(&f));
}

#[test]
fn test_focus_trap() {
    let mut f: Focus = FocusState::new();
    assert!(!is_focus_trapped(&f));
    push_focus_trap(&mut f, 0);
    assert!(is_focus_trapped(&f));
    assert_eq!(get_focus_trap_container(&f), Some(0));
    push_focus_trap(&mut f, 1);
    assert_eq!(get_focus_trap_container(&f), Some(1));
    assert_eq!(pop_focus_trap(&mut f), Some(1));
    assert_eq!(get_focus_trap_container(&f), Some(0));
    assert_eq!(pop_focus_trap(&mut f), Some(0));
    assert!(!is_focus_trapped(&f));
}

#[test]
fn test_focus_single_component() {
    let (reg, arrays) = focusable_boxes(&[0]);
    let mut f: Focus = FocusState::new();
    assert!(focus(&mut f, &reg, &arrays, 0));
    assert_eq!(get_focused_index(&f), 0);
    assert!(has_focus(&f));
    assert!(is_focused(&f, 0));
}

#[test]
fn test_focus_non_focusable() {
    let mut reg = Registry::new();
    let mut arrays = Arrays::new();
    allocate_index(&mut reg, &mut arrays, None);
    let mut f: Focus = FocusState::new();
    assert!(!focus(&mut f, &reg, &arrays, 0));
    assert_eq!(get_focused_index(&f), -1);
}

#[test]
fn test_focus_next_previous() {
    let (reg, arrays) = focusable_boxes(&[1, 2, 3]);
    let mut f: Focus = FocusState::new();
    assert!(focus_first(&mut f, &reg, &arrays));
    assert_eq!(get_focused_index(&f), 0);
    assert!(focus_next(&mut f, &reg, &arrays));
    assert_eq!(get_focused_index(&f), 1);
    assert!(focus_next(&mut f, &reg, &arrays));
    assert_eq!(get_focused_index(&f), 2);
    assert!(focus_next(&mut f, &reg, &arrays));
    assert_eq!(get_focused_index(&f), 0);
    assert!(focus_previous(&mut f, &reg, &arrays));
    assert_eq!(get_focused_index(&f), 2);
}

#[test]
fn next_then_previous_returns() {
    let (reg, arrays) = focusable_boxes(&[4, 1, 9, 1]);
    let mut f: Focus = FocusState::new();
    for start in 0..4usize {
        assert!(focus(&mut f, &reg, &arrays, start));
        focus_next(&mut f, &reg, &arrays);
        focus_previous(&mut f, &reg, &arrays);
        assert_eq!(get_focused_index(&f), start as i32);
    }
    assert!(focus_last(&mut f, &reg, &arrays));
    assert_eq!(get_focused_index(&f), 2);
}

#[test]
fn test_focus_callbacks() {
    let (reg, arrays) = focusable_boxes(&[0, 0]);
    let focus_count = Rc::new(Cell::new(0));
    let blur_count = Rc::new(Cell::new(0));
    let fc = focus_count.clone();
    let bc = blur_count.clone();
    let mut f: Focus = FocusState::new();
    let registration = register_callbacks(
        &mut f,
        0,
        FocusCallbacks {
            on_focus: Some(Box::new(move || fc.set(fc.get() + 1))),
            on_blur: Some(Box::new(move || bc.set(bc.get() + 1))),
        },
    );
    focus(&mut f, &reg, &arrays, 0);
    assert_eq!(focus_count.get(), 1);
    assert_eq!(blur_count.get(), 0);
    focus(&mut f, &reg, &arrays, 1);
    assert_eq!(focus_count.get(), 1);
    assert_eq!(blur_count.get(), 1);
    focus(&mut f, &reg, &arrays, 0);
    assert_eq!(focus_count.get(), 2);
    unregister_callbacks(&mut f, registration);
    focus(&mut f, &reg, &arrays, 1);
    assert_eq!(blur_count.get(), 1);
}

#[test]
fn test_blur() {
    let (reg, arrays) = focusable_boxes(&[0]);
    let mut f: Focus = FocusState::new();
    focus(&mut f, &reg, &arrays, 0);
    assert!(has_focus(&f));
    blur(&mut f, &reg);
    assert!(!has_focus(&f));
    assert_eq!(get_focused_index(&f), -1);
}

#[test]
fn test_focus_history() {
    let (reg, arrays) = focusable_boxes(&[0, 0]);
    let mut f: Focus = FocusState::new();
    focus(&mut f, &reg, &arrays, 0);
    focus(&mut f, &reg, &arrays, 1);
    assert_eq!(get_focused_index(&f), 1);
    blur(&mut f, &reg);
    assert_eq!(get_focused_index(&f), -1);
    assert!(restore_focus_from_history(&mut f, &reg, &arrays));
    assert_eq!(get_focused_index(&f), 1);
    assert!(restore_focus_from_history(&mut f, &reg, &arrays));
    assert_eq!(get_focused_index(&f), 0);
    assert!(!restore_focus_from_history(&mut f, &reg, &arrays));
}

#[test]
fn test_tab_index_ordering() {
    let (reg, arrays) = focusable_boxes(&[30, 10, 20]);
    assert_eq!(get_focusable_indices(&reg, &arrays), vec![1, 2, 0]);
    let mut f: Focus = FocusState::new();
    focus_first(&mut f, &reg, &arrays);
    assert_eq!(get_focused_index(&f), 1);
    focus_next(&mut f, &reg, &arrays);
    assert_eq!(get_focused_index(&f), 2);
    focus_next(&mut f, &reg, &arrays);
    assert_eq!(get_focused_index(&f), 0);
}

fn press(keys: &mut Keys, f: &mut Focus, reg: &Registry, arrays: &mut Arrays, running: &mut bool, e: KeyboardEvent) -> bool {
    let handle = setup_global_keys();
    let consumed = handle_global_key(&handle, &e, running, f, reg, arrays, None);
    consumed || dispatch(keys, e)
}

#[test]
fn test_ctrl_c_sets_running_false() {
    let mut keys: Keys = KeyboardState::new();
    let mut f: Focus = FocusState::new();
    let (reg, mut arrays) = focusable_boxes(&[]);
    let mut running = true;
    let event = KeyboardEvent::with_modifiers("c", Modifiers::ctrl());
    assert!(press(&mut keys, &mut f, &reg, &mut arrays, &mut running, event));
    assert!(!running);
}

#[test]
fn test_regular_c_does_not_stop() {
    let mut keys: Keys = KeyboardState::new();
    let mut f: Focus = FocusState::new();
    let (reg, mut arrays) = focusable_boxes(&[]);
    let mut running = true;
    press(&mut keys, &mut f, &reg, &mut arrays, &mut running, KeyboardEvent::new("c"));
    assert!(running);
}

#[test]
fn test_cleanup_removes_handlers() {
    let mut f: Focus = FocusState::new();
    let (reg, mut arrays) = focusable_boxes(&[]);
    let mut running = true;
    let mut handle = setup_global_keys();
    handle.cleanup();
    let event = KeyboardEvent::with_modifiers("c", Modifiers::ctrl());
    assert!(!handle_global_key(&handle, &event, &mut running, &mut f, &reg, &mut arrays, None));
    assert!(running);
}

#[test]
fn test_tab_calls_focus_next() {
    let mut keys: Keys = KeyboardState::new();
    let mut f: Focus = FocusState::new();
    let (reg, mut arrays) = focusable_boxes(&[1, 2]);
    let mut running = true;
    focus(&mut f, &reg, &arrays, 0);
    press(&mut keys, &mut f, &reg, &mut arrays, &mut running, KeyboardEvent::new("Tab"));
    assert_eq!(get_focused_index(&f), 1);
}

#[test]
fn test_shift_tab_calls_focus_previous() {
    let mut keys: Keys = KeyboardState::new();
    let mut f: Focus = FocusState::new();
    let (reg, mut arrays) = focusable_boxes(&[1, 2]);
    let mut running = true;
    focus(&mut f, &reg, &arrays, 1);
    press(&mut keys, &mut f, &reg, &mut arrays, &mut running, KeyboardEvent::with_modifiers("Tab", Modifiers::shift()));
    assert_eq!(get_focused_index(&f), 0);
}

#[test]
fn global_key_actions() {
    assert_eq!(global_key_action(&KeyboardEvent::new("ArrowUp")), GlobalKeyAction::ArrowScroll(ScrollDirection::Up));
    assert_eq!(global_key_action(&KeyboardEvent::with_modifiers("ArrowUp", Modifiers::shift())), GlobalKeyAction::Pass);
    assert_eq!(global_key_action(&KeyboardEvent::new("PageDown")), GlobalKeyAction::PageScroll(ScrollDirection::Down));
    assert_eq!(global_key_action(&KeyboardEvent::with_modifiers("Home", Modifiers::ctrl())), GlobalKeyAction::HomeEnd(true));
    assert_eq!(global_key_action(&KeyboardEvent::new("Home")), GlobalKeyAction::Pass);
}

#[test]
fn test_input_event_enum() {
    let mouse_event = MouseEvent::down(MouseButton::Left, 0, 0);
    let key_event = KeyboardEvent::new("Enter");
    let _input_mouse = InputEvent::Mouse(mouse_event);
    let _input_key = InputEvent::Key(key_event);
    let _input_resize = InputEvent::Resize(120, 40);
    let input_none = InputEvent::NoEvent;
    match input_none {
        InputEvent::Mouse(_) => {}
        InputEvent::Key(_) => {}
        InputEvent::Resize(_, _) => {}
        InputEvent::NoEvent => {}
    }
}

#[test]
fn keyboard_test_initial_state() {
    let k: Keys = KeyboardState::new();
    assert!(last_event(&k).is_none());
    assert_eq!(last_key(&k), "");
}

#[test]
fn keyboard_test_dispatch_updates_state() {
    let mut k: Keys = KeyboardState::new();
    dispatch(&mut k, KeyboardEvent::new("a"));
    assert_eq!(last_key(&k), "a");
    dispatch(&mut k, KeyboardEvent::new("Enter"));
    assert_eq!(last_key(&k), "Enter");
}

#[test]
fn test_global_handler() {
    let mut k: Keys = KeyboardState::new();
    let count = Rc::new(Cell::new(0));
    let c = count.clone();
    let id = on(&mut k, Box::new(move |_e: &KeyboardEvent| {
        c.set(c.get() + 1);
        false
    }));
    dispatch(&mut k, KeyboardEvent::new("a"));
    assert_eq!(count.get(), 1);
    dispatch(&mut k, KeyboardEvent::new("b"));
    assert_eq!(count.get(), 2);
    unsubscribe(&mut k, id);
    dispatch(&mut k, KeyboardEvent::new("c"));
    assert_eq!(count.get(), 2);
}

#[test]
fn test_key_specific_handler() {
    let mut k: Keys = KeyboardState::new();
    let enter_count = Rc::new(Cell::new(0));
    let c = enter_count.clone();
    let id = on_key(&mut k, "Enter", Box::new(move || {
        c.set(c.get() + 1);
        true
    }));
    dispatch(&mut k, KeyboardEvent::new("a"));
    assert_eq!(enter_count.get(), 0);
    dispatch(&mut k, KeyboardEvent::new("Enter"));
    assert_eq!(enter_count.get(), 1);
    dispatch(&mut k, KeyboardEvent::new("Enter"));
    assert_eq!(enter_count.get(), 2);
    unsubscribe(&mut k, id);
    dispatch(&mut k, KeyboardEvent::new("Enter"));
    assert_eq!(enter_count.get(), 2);
}

#[test]
fn test_handler_consumption() {
    let mut k: Keys = KeyboardState::new();
    let consumed = Rc::new(Cell::new(false));
    let c = consumed.clone();
    on_key(&mut k, "Enter", Box::new(move || {
        c.set(true);
        true
    }));
    let reached = Rc::new(Cell::new(false));
    let r = reached.clone();
    on(&mut k, Box::new(move |_e: &KeyboardEvent| {
        r.set(true);
        false
    }));
    let result = dispatch(&mut k, KeyboardEvent::new("Enter"));
    assert!(result);
    assert!(consumed.get());
    assert!(!reached.get());
}

#[test]
fn test_focused_handler() {
    let mut k: Keys = KeyboardState::new();
    let count = Rc::new(Cell::new(0));
    let c = count.clone();
    let id = on_focused(&mut k, 5, Box::new(move |_e: &KeyboardEvent| {
        c.set(c.get() + 1);
        false
    }));
    let event = KeyboardEvent::new("a");
    dispatch_focused(&k, 3, &event);
    assert_eq!(count.get(), 0);
    dispatch_focused(&k, 5, &event);
    assert_eq!(count.get(), 1);
    unsubscribe(&mut k, id);
    dispatch_focused(&k, 5, &event);
    assert_eq!(count.get(), 1);
}

#[test]
fn test_only_press_dispatched() {
    let mut k: Keys = KeyboardState::new();
    let count = Rc::new(Cell::new(0));
    let c = count.clone();
    on(&mut k, Box::new(move |_e: &KeyboardEvent| {
        c.set(c.get() + 1);
        false
    }));
    dispatch(&mut k, KeyboardEvent { key: "a".to_string(), modifiers: Modifiers::default(), state: KeyState::Press, raw: None });
    assert_eq!(count.get(), 1);
    dispatch(&mut k, KeyboardEvent { key: "a".to_string(), modifiers: Modifiers::default(), state: KeyState::Repeat, raw: None });
    assert_eq!(count.get(), 1);
    dispatch(&mut k, KeyboardEvent { key: "a".to_string(), modifiers: Modifiers::default(), state: KeyState::Release, raw: None });
    assert_eq!(count.get(), 1);
}

#[test]
fn test_modifiers() {
    let mut k: Keys = KeyboardState::new();
    let ctrl_pressed = Rc::new(Cell::new(false));
    let c = ctrl_pressed.clone();
    on(&mut k, Box::new(move |event: &KeyboardEvent| {
        if event.modifiers.ctrl && event.key == "c" {
            c.set(true);
        }
        false
    }));
    dispatch(&mut k, KeyboardEvent::with_modifiers("c", Modifiers::ctrl()));
    assert!(ctrl_pressed.get());
}

#[test]
fn on_keys_and_cleanup_index() {
    fn bump() -> bool {
        true
    }
    let mut plain: KeyboardState<Box<dyn Fn(&KeyboardEvent) -> bool>, fn() -> bool> = KeyboardState::new();
    let ids = on_keys(&mut plain, &["x", "y"], bump as fn() -> bool);
    assert_eq!(ids.len(), 2);
    assert!(dispatch(&mut plain, KeyboardEvent::new("y")));
    assert!(!dispatch(&mut plain, KeyboardEvent::new("z")));
    let mut k: Keys = KeyboardState::new();
    let count = Rc::new(Cell::new(0));
    let c = count.clone();
    on_focused(&mut k, 7, Box::new(move |_e: &KeyboardEvent| {
        c.set(c.get() + 1);
        true
    }));
    cleanup_index(&mut k, 7);
    assert!(!dispatch_focused(&k, 7, &KeyboardEvent::new("a")));
    assert_eq!(count.get(), 0);
    reset_keyboard_state(&mut k);
    assert!(last_event(&k).is_none());
}

#[test]
fn focus_trap_keeps_tab_inside_the_container() {
    let (reg, mut arrays) = focusable_boxes(&[0, 0, 0, 0]);
    spark_tui::engine::arrays::core_arrays::set_parent_index(&mut arrays.core, 1, Some(0));
    spark_tui::engine::arrays::core_arrays::set_parent_index(&mut arrays.core, 2, Some(0));
    let mut f: Focus = FocusState::new();
    push_focus_trap(&mut f, 0);
    assert!(focus(&mut f, &reg, &arrays, 1));
    assert!(focus_next(&mut f, &reg, &arrays));
    assert_eq!(get_focused_index(&f), 2);
    assert!(focus_next(&mut f, &reg, &arrays));
    assert_eq!(get_focused_index(&f), 1);
    assert!(focus_previous(&mut f, &reg, &arrays));
    assert_eq!(get_focused_index(&f), 2);
    pop_focus_trap(&mut f);
    assert!(focus_next(&mut f, &reg, &arrays));
    assert_eq!(get_focused_index(&f), 3);
}
