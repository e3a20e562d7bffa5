use spark_tui::engine::arrays::Arrays;
use spark_tui::engine::registry::{pop_parent_context, push_parent_context, Registry};
use spark_tui::primitives::box_primitive::{box_primitive, register_box_handlers, BoxHandlers, BoxProps};
use spark_tui::primitives::input::{input, register_input_handlers, InputProps};
use spark_tui::primitives::text::{text, TextProps};
use spark_tui::state::focus::{get_focused_index, FocusState};
use spark_tui::state::keyboard::{KeyboardEvent, KeyboardState};
use spark_tui::state::mouse::{
    dispatch, fill_hit_rect, find_click_receiver, focus_clicked, pointer_state, HitGrid, MouseButton, MouseEvent,
    MouseHandlers, MouseState,
};
use std::cell::Cell;
use std::rc::Rc;

type Observer = Box<dyn Fn(&MouseEvent)>;
type Consumer = Box<dyn Fn(&MouseEvent) -> bool>;
type KeyHandler = Box<dyn Fn(&KeyboardEvent) -> bool>;
type Keys = KeyboardState<KeyHandler, Box<dyn Fn() -> bool>>;

fn no_handlers() -> BoxHandlers<Observer, Consumer, KeyHandler> {
    BoxHandlers {
        on_click: None,
        on_mouse_down: None,
        on_mouse_up: None,
        on_mouse_enter: None,
        on_mouse_leave: None,
        on_scroll: None,
        on_key: None,
    }
}

/// Press and release at (x, y); returns what the click focused.
fn click(
    mouse: &mut MouseState<Observer, Consumer>,
    grid: &HitGrid,
    arrays: &mut Arrays,
    reg: &Registry,
    focus: &mut FocusState<Box<dyn Fn()>>,
    x: u16,
    y: u16,
) -> Option<usize> {
    let down = MouseEvent::down(MouseButton::Left, x, y);
    let before = pointer_state(mouse);
    dispatch(mouse, grid, &mut arrays.interaction, &arrays.core, down);
    focus_clicked(mouse, grid, focus, reg, arrays, before, down);
    let up = MouseEvent::up(MouseButton::Left, x, y);
    let before = pointer_state(mouse);
    dispatch(mouse, grid, &mut arrays.interaction, &arrays.core, up);
    focus_clicked(mouse, grid, focus, reg, arrays, before, up)
}

#[test]
fn click_on_child_focuses_focusable_box() {
    let mut reg = Registry::new();
    let mut arrays = Arrays::new();
    let b = box_primitive(&mut reg, &mut arrays, &BoxProps { focusable: Some(true), ..Default::default() });
    push_parent_context(&mut reg, b);
    let t = text(&mut reg, &mut arrays, &TextProps { content: "hi".to_string(), ..Default::default() });
    pop_parent_context(&mut reg);
    let mut mouse: MouseState<Observer, Consumer> = MouseState::new();
    let mut keys: Keys = KeyboardState::new();
    assert_eq!(register_box_handlers(&mut mouse, &mut keys, b, true, no_handlers()), None);
    let mut grid = HitGrid::new(10, 10);
    fill_hit_rect(&mut grid, 0, 0, 10, 10, b);
    fill_hit_rect(&mut grid, 0, 0, 2, 1, t);
    assert_eq!(find_click_receiver(&mouse, &arrays.core, t), Some(b));
    let mut focus: FocusState<Box<dyn Fn()>> = FocusState::new();
    assert_eq!(click(&mut mouse, &grid, &mut arrays, &reg, &mut focus, 1, 0), Some(b));
    assert_eq!(get_focused_index(&focus), b as i32);
}

#[test]
fn click_without_focus_on_click_does_not_focus() {
    let mut reg = Registry::new();
    let mut arrays = Arrays::new();
    let b = box_primitive(&mut reg, &mut arrays, &BoxProps::default());
    let mut mouse: MouseState<Observer, Consumer> = MouseState::new();
    let mut keys: Keys = KeyboardState::new();
    let count = Rc::new(Cell::new(0));
    let c2 = count.clone();
    let mut h = no_handlers();
    h.on_click = Some(Box::new(move |_e: &MouseEvent| c2.set(c2.get() + 1)));
    register_box_handlers(&mut mouse, &mut keys, b, false, h);
    let mut grid = HitGrid::new(4, 4);
    fill_hit_rect(&mut grid, 0, 0, 4, 4, b);
    let mut focus: FocusState<Box<dyn Fn()>> = FocusState::new();
    assert_eq!(click(&mut mouse, &grid, &mut arrays, &reg, &mut focus, 1, 1), None);
    assert_eq!(count.get(), 1);
    assert_eq!(get_focused_index(&focus), -1);
}

#[test]
fn focusable_box_registers_its_key_handler() {
    let mut mouse: MouseState<Observer, Consumer> = MouseState::new();
    let mut keys: Keys = KeyboardState::new();
    let mut h = no_handlers();
    h.on_key = Some(Box::new(|_e: &KeyboardEvent| true));
    assert_eq!(register_box_handlers(&mut mouse, &mut keys, 3, true, h), Some(0));
    let mut h2 = no_handlers();
    h2.on_key = Some(Box::new(|_e: &KeyboardEvent| true));
    assert_eq!(register_box_handlers(&mut mouse, &mut keys, 4, false, h2), None);
}

#[test]
fn click_on_input_focuses_it() {
    let mut reg = Registry::new();
    let mut arrays = Arrays::new();
    let i = input(&mut reg, &mut arrays, &InputProps::new("x".to_string()));
    let mut mouse: MouseState<Observer, Consumer> = MouseState::new();
    register_input_handlers(&mut mouse, i, MouseHandlers::none());
    let mut grid = HitGrid::new(4, 1);
    fill_hit_rect(&mut grid, 0, 0, 4, 1, i);
    let mut focus: FocusState<Box<dyn Fn()>> = FocusState::new();
    assert_eq!(click(&mut mouse, &grid, &mut arrays, &reg, &mut focus, 2, 0), Some(i));
    assert_eq!(get_focused_index(&focus), i as i32);
}
