use spark_tui::engine::arrays::core_arrays::CoreArrays;
use spark_tui::engine::arrays::interaction::{get_hovered, get_pressed, InteractionArrays};
use spark_tui::state::mouse::{
    cleanup_index, clear_hit_grid, dispatch, fill_hit_rect, hit_grid_size, hit_test, hovered_component,
    is_mouse_down, mouse_x, mouse_y, on_click, on_component, on_scroll, pressed_component, reset_mouse_state,
    resize_hit_grid, unsubscribe, HitGrid, MouseAction, MouseButton, MouseEvent, MouseHandlers, MouseState,
    ScrollDirection,
};
use std::cell::Cell;
use std::rc::Rc;

type Observer = Box<dyn Fn(&MouseEvent)>;
type Consumer = Box<dyn Fn(&MouseEvent) -> bool>;

struct Env {
    mouse: MouseState<Observer, Consumer>,
    grid: HitGrid,
    inter: InteractionArrays,
    core: CoreArrays,
}

impl Env {
    fn new() -> Env {
        let mut mouse = MouseState::new();
        let mut grid = HitGrid::new(1, 1);
        reset_mouse_state(&mut mouse, &mut grid);
        Env { mouse, grid, inter: InteractionArrays::new(), core: CoreArrays::new() }
    }

    fn send(&mut self, e: MouseEvent) -> bool {
        dispatch(&mut self.mouse, &self.grid, &mut self.inter, &self.core, e)
    }

    fn click(&mut self, x: u16, y: u16) {
        self.send(MouseEvent::down(MouseButton::Left, x, y));
        self.send(MouseEvent::up(MouseButton::Left, x, y));
    }
}

fn click_handlers(f: Observer) -> MouseHandlers<Observer, Consumer> {
    MouseHandlers { on_click: Some(f), ..MouseHandlers::none() }
}

#[test]
fn test_hit_grid_get_set() {
    let mut grid = HitGrid::new(10, 10);
    assert_eq!(grid.get(5, 5), None);
    grid.set(5, 5, 42);
    assert_eq!(grid.get(5, 5), Some(42));
    assert_eq!(grid.get(4, 5), None);
    assert_eq!(grid.get(5, 4), None);
}

#[test]
fn test_hit_grid_fill_rect() {
    let mut grid = HitGrid::new(10, 10);
    grid.fill_rect(2, 2, 4, 4, 42);
    assert_eq!(grid.get(2, 2), Some(42));
    assert_eq!(grid.get(3, 3), Some(42));
    assert_eq!(grid.get(5, 5), Some(42));
    assert_eq!(grid.get(0, 0), None);
    assert_eq!(grid.get(1, 2), None);
    assert_eq!(grid.get(6, 2), None);
    assert_eq!(grid.get(8, 8), None);
}

#[test]
fn mouse_test_hit_grid_resize() {
    let mut grid = HitGrid::new(10, 10);
    grid.fill_rect(0, 0, 5, 5, 1);
    assert_eq!(grid.get(2, 2), Some(1));
    grid.resize(20, 20);
    assert_eq!(grid.get(2, 2), None);
    assert_eq!(grid.width(), 20);
    assert_eq!(grid.height(), 20);
}

#[test]
fn test_hit_grid_out_of_bounds() {
    let mut grid = HitGrid::new(10, 10);
    assert_eq!(grid.get(10, 5), None);
    assert_eq!(grid.get(5, 10), None);
    assert_eq!(grid.get(100, 100), None);
    grid.set(100, 100, 42);
    assert_eq!(grid.get(100, 100), None);
    grid.fill_rect(8, 8, 10, 10, 42);
    assert_eq!(grid.get(8, 8), Some(42));
    assert_eq!(grid.get(9, 9), Some(42));
}

#[test]
fn test_hit_grid_clear() {
    let mut grid = HitGrid::new(10, 10);
    grid.fill_rect(0, 0, 10, 10, 42);
    assert_eq!(grid.get(5, 5), Some(42));
    grid.clear();
    assert_eq!(grid.get(5, 5), None);
}

#[test]
fn test_global_hit_grid() {
    let mut env = Env::new();
    assert_eq!(hit_grid_size(&env.grid), (80, 24));
    fill_hit_rect(&mut env.grid, 0, 0, 5, 5, 10);
    assert_eq!(hit_test(&env.grid, 2, 2), Some(10));
    assert_eq!(hit_test(&env.grid, 6, 6), None);
    clear_hit_grid(&mut env.grid);
    assert_eq!(hit_test(&env.grid, 2, 2), None);
    resize_hit_grid(&mut env.grid, 3, 3);
    assert_eq!(hit_grid_size(&env.grid), (3, 3));
}

#[test]
fn test_on_component_registration() {
    let mut env = Env::new();
    let called = Rc::new(Cell::new(false));
    let c = called.clone();
    on_component(&mut env.mouse, 5, click_handlers(Box::new(move |_e: &MouseEvent| c.set(true))));
    fill_hit_rect(&mut env.grid, 0, 0, 5, 5, 5);
    env.click(2, 2);
    assert!(called.get());
    spark_tui::state::mouse::remove_component_handlers(&mut env.mouse, 5);
    called.set(false);
    env.click(2, 2);
    assert!(!called.get());
}

#[test]
fn test_handler_cleanup() {
    let mut env = Env::new();
    let count = Rc::new(Cell::new(0));
    let c = count.clone();
    let id = on_click(&mut env.mouse, Box::new(move |_e: &MouseEvent| {
        c.set(c.get() + 1);
        false
    }));
    env.click(0, 0);
    assert_eq!(count.get(), 1);
    unsubscribe(&mut env.mouse, id);
    env.click(0, 0);
    assert_eq!(count.get(), 1);
}

#[test]
fn mouse_test_dispatch_updates_state() {
    let mut env = Env::new();
    env.send(MouseEvent::new(MouseAction::Move, MouseButton::NoButton, 10, 20));
    assert_eq!(mouse_x(&env.mouse), 10);
    assert_eq!(mouse_y(&env.mouse), 20);
    assert!(!is_mouse_down(&env.mouse));
    env.send(MouseEvent::down(MouseButton::Left, 15, 25));
    assert_eq!(mouse_x(&env.mouse), 15);
    assert_eq!(mouse_y(&env.mouse), 25);
    assert!(is_mouse_down(&env.mouse));
    env.send(MouseEvent::up(MouseButton::Left, 15, 25));
    assert!(!is_mouse_down(&env.mouse));
}

#[test]
fn test_hover_detection() {
    let mut env = Env::new();
    let enter_count = Rc::new(Cell::new(0));
    let leave_count = Rc::new(Cell::new(0));
    let ec = enter_count.clone();
    let lc = leave_count.clone();
    on_component(
        &mut env.mouse,
        5,
        MouseHandlers {
            on_mouse_enter: Some(Box::new(move |_e: &MouseEvent| ec.set(ec.get() + 1))),
            on_mouse_leave: Some(Box::new(move |_e: &MouseEvent| lc.set(lc.get() + 1))),
            ..MouseHandlers::none()
        },
    );
    fill_hit_rect(&mut env.grid, 5, 5, 5, 5, 5);
    env.send(MouseEvent::move_to(0, 0));
    assert_eq!(enter_count.get(), 0);
    assert_eq!(leave_count.get(), 0);
    env.send(MouseEvent::move_to(7, 7));
    assert_eq!(enter_count.get(), 1);
    assert_eq!(leave_count.get(), 0);
    assert_eq!(hovered_component(&env.mouse), Some(5));
    assert!(get_hovered(&env.inter, 5));
    env.send(MouseEvent::move_to(8, 8));
    assert_eq!(enter_count.get(), 1);
    assert_eq!(leave_count.get(), 0);
    env.send(MouseEvent::move_to(0, 0));
    assert_eq!(enter_count.get(), 1);
    assert_eq!(leave_count.get(), 1);
    assert!(!get_hovered(&env.inter, 5));
}

#[test]
fn test_click_detection() {
    let mut env = Env::new();
    let click_count = Rc::new(Cell::new(0));
    let c = click_count.clone();
    on_component(&mut env.mouse, 5, click_handlers(Box::new(move |_e: &MouseEvent| c.set(c.get() + 1))));
    fill_hit_rect(&mut env.grid, 0, 0, 10, 10, 5);
    env.click(5, 5);
    assert_eq!(click_count.get(), 1);
    env.send(MouseEvent::down(MouseButton::Left, 5, 5));
    assert_eq!(pressed_component(&env.mouse), Some(5));
    assert!(get_pressed(&env.inter, 5));
    clear_hit_grid(&mut env.grid);
    env.send(MouseEvent::up(MouseButton::Left, 50, 50));
    assert_eq!(click_count.get(), 1);
    assert!(!get_pressed(&env.inter, 5));
    fill_hit_rect(&mut env.grid, 0, 0, 10, 10, 5);
    env.send(MouseEvent::down(MouseButton::Left, 5, 5));
    env.send(MouseEvent::up(MouseButton::Right, 5, 5));
    assert_eq!(click_count.get(), 1);
}

#[test]
fn test_scroll_dispatch() {
    let mut env = Env::new();
    let scroll_count = Rc::new(Cell::new(0));
    let c = scroll_count.clone();
    on_scroll(&mut env.mouse, Box::new(move |event: &MouseEvent| {
        if let Some(scroll) = &event.scroll {
            if scroll.direction == ScrollDirection::Up {
                c.set(c.get() + 1);
            }
        }
        false
    }));
    env.send(MouseEvent::scroll(5, 5, ScrollDirection::Up, 3));
    assert_eq!(scroll_count.get(), 1);
    env.send(MouseEvent::scroll(5, 5, ScrollDirection::Down, 3));
    assert_eq!(scroll_count.get(), 1);
    env.send(MouseEvent::scroll(5, 5, ScrollDirection::Up, 1));
    assert_eq!(scroll_count.get(), 2);
}

#[test]
fn test_global_click_handler() {
    let mut env = Env::new();
    let click_count = Rc::new(Cell::new(0));
    let c = click_count.clone();
    let id = on_click(&mut env.mouse, Box::new(move |_e: &MouseEvent| {
        c.set(c.get() + 1);
        false
    }));
    env.click(0, 0);
    assert_eq!(click_count.get(), 1);
    unsubscribe(&mut env.mouse, id);
    env.click(0, 0);
    assert_eq!(click_count.get(), 1);
}

#[test]
fn test_cleanup_index() {
    let mut env = Env::new();
    let called = Rc::new(Cell::new(false));
    let c = called.clone();
    on_component(&mut env.mouse, 5, click_handlers(Box::new(move |_e: &MouseEvent| c.set(true))));
    fill_hit_rect(&mut env.grid, 0, 0, 10, 10, 5);
    env.click(5, 5);
    assert!(called.get());
    cleanup_index(&mut env.mouse, 5);
    called.set(false);
    env.click(5, 5);
    assert!(!called.get());
}

#[test]
fn click_bubbles_to_the_nearest_ancestor_with_a_handler() {
    let mut env = Env::new();
    spark_tui::engine::arrays::core_arrays::set_parent_index(&mut env.core, 7, Some(3));
    spark_tui::engine::arrays::core_arrays::set_parent_index(&mut env.core, 3, Some(1));
    let hits = Rc::new(Cell::new(0));
    let h = hits.clone();
    on_component(&mut env.mouse, 1, click_handlers(Box::new(move |_e: &MouseEvent| h.set(h.get() + 1))));
    fill_hit_rect(&mut env.grid, 0, 0, 2, 2, 7);
    env.click(1, 1);
    assert_eq!(hits.get(), 1);
}

#[test]
fn consuming_scroll_handler_of_the_component_stops_global_ones() {
    let mut env = Env::new();
    let global = Rc::new(Cell::new(0));
    let g = global.clone();
    on_scroll(&mut env.mouse, Box::new(move |_e: &MouseEvent| {
        g.set(g.get() + 1);
        false
    }));
    on_component(
        &mut env.mouse,
        4,
        MouseHandlers { on_scroll: Some(Box::new(|_e: &MouseEvent| true)), ..MouseHandlers::none() },
    );
    fill_hit_rect(&mut env.grid, 0, 0, 3, 3, 4);
    assert!(env.send(MouseEvent::scroll(1, 1, ScrollDirection::Down, 1)));
    assert_eq!(global.get(), 0);
    assert!(!env.send(MouseEvent::scroll(10, 10, ScrollDirection::Down, 1)));
    assert_eq!(global.get(), 1);
}
