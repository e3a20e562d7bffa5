use spark_tui::engine::arrays::interaction::{
    get_cursor_blink_fps, get_cursor_position, get_cursor_visible, get_focusable, get_hovered, get_pressed,
    get_scroll_offset_x, get_scroll_offset_y, get_tab_index, set_cursor_blink_fps, set_cursor_position,
    set_cursor_visible, set_focusable, set_hovered, set_pressed, set_scroll_offset, set_tab_index, InteractionArrays,
};
use spark_tui::engine::arrays::text::{
    get_text_align, get_text_attrs, get_text_content, get_text_wrap, set_text_align, set_text_attrs,
    set_text_content, set_text_wrap, TextArrays,
};
use spark_tui::engine::arrays::Arrays;
use spark_tui::engine::arrays::core_arrays::set_parent_index;
use spark_tui::engine::registry::{
    allocate_index, get_allocated_count, get_current_parent_index, get_id, get_index, is_allocated, on_destroy,
    pop_parent_context, push_parent_context, release_index, reset_registry, DestroyCallbacks, Registry,
};
use spark_tui::types::{Attr, TextAlign, TextWrap};
use std::cell::Cell;
use std::rc::Rc;

type Callbacks = DestroyCallbacks<Box<dyn FnOnce()>>;

fn fresh() -> (Registry, Arrays, Callbacks) {
    (Registry::new(), Arrays::new(), DestroyCallbacks::new())
}

#[test]
fn test_focusable() {
    let mut a = InteractionArrays::new();
    assert!(!get_focusable(&a, 0));
    set_focusable(&mut a, 0, true);
    assert!(get_focusable(&a, 0));
}

#[test]
fn test_tab_index() {
    let mut a = InteractionArrays::new();
    assert_eq!(get_tab_index(&a, 0), 0);
    set_tab_index(&mut a, 0, 5);
    assert_eq!(get_tab_index(&a, 0), 5);
}

#[test]
fn test_scroll_offset() {
    let mut a = InteractionArrays::new();
    assert_eq!(get_scroll_offset_x(&a, 0), 0);
    assert_eq!(get_scroll_offset_y(&a, 0), 0);
    set_scroll_offset(&mut a, 0, 10, 20);
    assert_eq!(get_scroll_offset_x(&a, 0), 10);
    assert_eq!(get_scroll_offset_y(&a, 0), 20);
}

#[test]
fn test_hover_press() {
    let mut a = InteractionArrays::new();
    assert!(!get_hovered(&a, 0));
    assert!(!get_pressed(&a, 0));
    set_hovered(&mut a, 0, true);
    set_pressed(&mut a, 0, true);
    assert!(get_hovered(&a, 0));
    assert!(get_pressed(&a, 0));
}

#[test]
fn test_cursor() {
    let mut a = InteractionArrays::new();
    assert_eq!(get_cursor_position(&a, 0), 0);
    assert!(get_cursor_visible(&a, 0));
    assert_eq!(get_cursor_blink_fps(&a, 0), 2);
    set_cursor_position(&mut a, 0, 5);
    set_cursor_visible(&mut a, 0, false);
    set_cursor_blink_fps(&mut a, 0, 4);
    assert_eq!(get_cursor_position(&a, 0), 5);
    assert!(!get_cursor_visible(&a, 0));
    assert_eq!(get_cursor_blink_fps(&a, 0), 4);
}

#[test]
fn test_text_content() {
    let mut a = TextArrays::new();
    assert_eq!(get_text_content(&a, 0), "");
    set_text_content(&mut a, 0, "Hello, World!".to_string());
    assert_eq!(get_text_content(&a, 0), "Hello, World!");
}

#[test]
fn test_text_attrs() {
    let mut a = TextArrays::new();
    assert_eq!(get_text_attrs(&a, 0), Attr::NONE());
    set_text_attrs(&mut a, 0, Attr::BOLD() | Attr::ITALIC());
    assert_eq!(get_text_attrs(&a, 0), Attr::BOLD() | Attr::ITALIC());
}

#[test]
fn test_text_align() {
    let mut a = TextArrays::new();
    assert_eq!(get_text_align(&a, 0), TextAlign::Left);
    set_text_align(&mut a, 0, TextAlign::Center);
    assert_eq!(get_text_align(&a, 0), TextAlign::Center);
}

#[test]
fn test_text_wrap() {
    let mut a = TextArrays::new();
    assert_eq!(get_text_wrap(&a, 0), TextWrap::Wrap);
    set_text_wrap(&mut a, 0, TextWrap::Truncate);
    assert_eq!(get_text_wrap(&a, 0), TextWrap::Truncate);
}

#[test]
fn test_allocate_index() {
    let (mut reg, mut arrays, mut cbs) = fresh();
    reset_registry(&mut reg, &mut arrays, &mut cbs);
    let idx1 = allocate_index(&mut reg, &mut arrays, None);
    let idx2 = allocate_index(&mut reg, &mut arrays, None);
    let idx3 = allocate_index(&mut reg, &mut arrays, Some("my_box"));
    assert_eq!(idx1, 0);
    assert_eq!(idx2, 1);
    assert_eq!(idx3, 2);
    assert!(is_allocated(&reg, 0));
    assert!(is_allocated(&reg, 1));
    assert!(is_allocated(&reg, 2));
    assert!(!is_allocated(&reg, 3));
    assert_eq!(get_allocated_count(&reg), 3);
}

#[test]
fn test_release_and_reuse() {
    let (mut reg, mut arrays, mut cbs) = fresh();
    let idx1 = allocate_index(&mut reg, &mut arrays, None);
    let idx2 = allocate_index(&mut reg, &mut arrays, None);
    release_index(&mut reg, &mut arrays, &mut cbs, idx1);
    assert!(!is_allocated(&reg, idx1));
    assert!(is_allocated(&reg, idx2));
    let idx3 = allocate_index(&mut reg, &mut arrays, None);
    assert_eq!(idx3, idx1);
}

#[test]
fn test_id_mapping() {
    let (mut reg, mut arrays, _cbs) = fresh();
    let idx = allocate_index(&mut reg, &mut arrays, Some("test_component"));
    assert_eq!(get_index(&reg, "test_component"), Some(idx));
    assert_eq!(get_id(&reg, idx), Some("test_component".to_string()));
}

#[test]
fn test_parent_context() {
    let (mut reg, _arrays, _cbs) = fresh();
    assert_eq!(get_current_parent_index(&reg), None);
    push_parent_context(&mut reg, 5);
    assert_eq!(get_current_parent_index(&reg), Some(5));
    push_parent_context(&mut reg, 10);
    assert_eq!(get_current_parent_index(&reg), Some(10));
    pop_parent_context(&mut reg);
    assert_eq!(get_current_parent_index(&reg), Some(5));
    pop_parent_context(&mut reg);
    assert_eq!(get_current_parent_index(&reg), None);
}

#[test]
fn test_destroy_callback() {
    let (mut reg, mut arrays, mut cbs) = fresh();
    let called = Rc::new(Cell::new(false));
    let called_clone = called.clone();
    let idx = allocate_index(&mut reg, &mut arrays, None);
    on_destroy(&mut cbs, idx, Box::new(move || {
        called_clone.set(true);
    }));
    assert!(!called.get());
    release_index(&mut reg, &mut arrays, &mut cbs, idx);
    assert!(called.get());
}

#[test]
fn release_of_a_parent_releases_its_children_and_clears_their_slots() {
    let (mut reg, mut arrays, mut cbs) = fresh();
    let parent = allocate_index(&mut reg, &mut arrays, None);
    let child = allocate_index(&mut reg, &mut arrays, Some("child"));
    set_parent_index(&mut arrays.core, child, Some(parent));
    set_focusable(&mut arrays.interaction, child, true);
    release_index(&mut reg, &mut arrays, &mut cbs, parent);
    assert!(!is_allocated(&reg, parent));
    assert!(!is_allocated(&reg, child));
    assert_eq!(get_index(&reg, "child"), None);
    assert!(!get_focusable(&arrays.interaction, child));
    assert_eq!(get_allocated_count(&reg), 0);
    assert_eq!(allocate_index(&mut reg, &mut arrays, None), 0);
}

#[test]
fn generated_ids_are_distinct_and_recorded() {
    let (mut reg, mut arrays, _cbs) = fresh();
    let a = allocate_index(&mut reg, &mut arrays, None);
    let b = allocate_index(&mut reg, &mut arrays, None);
    let ia = get_id(&reg, a).unwrap();
    let ib = get_id(&reg, b).unwrap();
    assert_ne!(ia, ib);
    assert_eq!(get_index(&reg, &ia), Some(a));
}

#[test]
fn allocating_an_existing_id_returns_its_index() {
    let (mut reg, mut arrays, _cbs) = fresh();
    let a = allocate_index(&mut reg, &mut arrays, Some("x"));
    let b = allocate_index(&mut reg, &mut arrays, Some("x"));
    assert_eq!(a, b);
    assert_eq!(get_allocated_count(&reg), 1);
}

#[test]
fn id_lookup_holds_from_any_registry_state() {
    let mut reg = spark_tui::engine::registry::Registry::new();
    let mut arrays = spark_tui::engine::arrays::Arrays::new();
    let mut callbacks: spark_tui::engine::registry::DestroyCallbacks<Box<dyn FnOnce()>> =
        spark_tui::engine::registry::DestroyCallbacks::new();
    let a = spark_tui::engine::registry::allocate_index(&mut reg, &mut arrays, Some("a"));
    let b = spark_tui::engine::registry::allocate_index(&mut reg, &mut arrays, None);
    spark_tui::engine::registry::release_index(&mut reg, &mut arrays, &mut callbacks, a);
    assert_eq!(spark_tui::engine::registry::get_index(&reg, "a"), None);
    let x = spark_tui::engine::registry::allocate_index(&mut reg, &mut arrays, Some("x"));
    assert_eq!(spark_tui::engine::registry::get_index(&reg, "x"), Some(x));
    assert_eq!(spark_tui::engine::registry::get_id(&reg, x), Some("x".to_string()));
    let count = spark_tui::engine::registry::get_allocated_count(&reg);
    assert_eq!(spark_tui::engine::registry::allocate_index(&mut reg, &mut arrays, Some("x")), x);
    assert_eq!(spark_tui::engine::registry::get_allocated_count(&reg), count);
    assert_ne!(x, b);
}
