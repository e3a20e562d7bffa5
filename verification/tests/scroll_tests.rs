use spark_tui::engine::arrays::core_arrays::{set_parent_index, CoreArrays};
use spark_tui::engine::arrays::interaction::{
    get_prev_max_scroll_y, get_scroll_offset_x, get_scroll_offset_y, get_stick_to_bottom, set_focusable,
    set_prev_max_scroll_y, set_scroll_offset as raw_set_offset, set_stick_to_bottom, InteractionArrays,
};
use spark_tui::engine::arrays::Arrays;
use spark_tui::engine::registry::{allocate_index, Registry};
use spark_tui::layout::computed::ComputedLayout;
use spark_tui::state::focus::{focus, FocusState};
use spark_tui::state::mouse::{clear_hit_grid, fill_hit_rect, HitGrid, ScrollDirection};
use spark_tui::state::scroll::{
    find_scrollable_ancestor, get_focused_scrollable, get_max_scroll, get_scroll_offset, handle_arrow_scroll,
    handle_home_end, handle_page_scroll, handle_stick_to_bottom, handle_wheel_scroll, is_at_bottom, is_scrollable,
    scroll_by, scroll_by_with_chaining, scroll_focused_into_view, scroll_into_view, scroll_to_bottom, scroll_to_end,
    scroll_to_start, scroll_to_top, set_scroll_offset, LINE_SCROLL, PAGE_SCROLL_TENTHS, WHEEL_SCROLL,
};

type Focus = FocusState<Box<dyn Fn()>>;

fn create_test_layout(scrollable_indices: &[(usize, u16, u16)]) -> ComputedLayout {
    let max_idx = scrollable_indices.iter().map(|(i, _, _)| *i).max().unwrap_or(0);
    let size = max_idx + 1;
    let mut layout = ComputedLayout {
        x: vec![0; size],
        y: vec![0; size],
        width: vec![80; size],
        height: vec![24; size],
        scrollable: vec![0; size],
        max_scroll_x: vec![0; size],
        max_scroll_y: vec![0; size],
        content_width: 80,
        content_height: 24,
    };
    for &(idx, max_x, max_y) in scrollable_indices {
        layout.scrollable[idx] = 1;
        layout.max_scroll_x[idx] = max_x;
        layout.max_scroll_y[idx] = max_y;
    }
    layout
}

/// A focus state with component 0 allocated, focusable and focused.
fn focused_zero() -> (Focus, Registry, Arrays) {
    let mut reg = Registry::new();
    let mut arrays = Arrays::new();
    let i = allocate_index(&mut reg, &mut arrays, None);
    set_focusable(&mut arrays.interaction, i, true);
    let mut f: Focus = FocusState::new();
    focus(&mut f, &reg, &arrays, 0);
    (f, reg, arrays)
}

#[test]
fn test_is_scrollable() {
    let layout = create_test_layout(&[(0, 10, 20)]);
    assert!(is_scrollable(&layout, 0));
    assert!(!is_scrollable(&layout, 1));
}

#[test]
fn test_is_scrollable_empty_layout() {
    let layout = ComputedLayout::new();
    assert!(!is_scrollable(&layout, 0));
    assert!(!is_scrollable(&layout, 999));
}

#[test]
fn test_get_scroll_offset() {
    let mut inter = InteractionArrays::new();
    assert_eq!(get_scroll_offset(&inter, 0), (0, 0));
    raw_set_offset(&mut inter, 0, 5, 10);
    assert_eq!(get_scroll_offset(&inter, 0), (5, 10));
}

#[test]
fn test_get_max_scroll() {
    let layout = create_test_layout(&[(0, 100, 200)]);
    assert_eq!(get_max_scroll(&layout, 0), (100, 200));
    assert_eq!(get_max_scroll(&layout, 999), (0, 0));
}

#[test]
fn test_set_scroll_offset_clamps() {
    let mut inter = InteractionArrays::new();
    let layout = create_test_layout(&[(0, 10, 20)]);
    set_scroll_offset(&layout, &mut inter, 0, 5, 10);
    assert_eq!(get_scroll_offset(&inter, 0), (5, 10));
    set_scroll_offset(&layout, &mut inter, 0, 100, 200);
    assert_eq!(get_scroll_offset(&inter, 0), (10, 20));
    set_scroll_offset(&layout, &mut inter, 0, 0, 0);
    assert_eq!(get_scroll_offset(&inter, 0), (0, 0));
}

#[test]
fn test_set_scroll_offset_not_scrollable() {
    let mut inter = InteractionArrays::new();
    let layout = create_test_layout(&[(0, 10, 20)]);
    raw_set_offset(&mut inter, 1, 5, 10);
    set_scroll_offset(&layout, &mut inter, 1, 99, 99);
    assert_eq!(get_scroll_offset(&inter, 1), (5, 10));
}

#[test]
fn test_scroll_by_returns_bool() {
    let mut inter = InteractionArrays::new();
    let layout = create_test_layout(&[(0, 10, 20)]);
    assert!(scroll_by(&layout, &mut inter, 0, 5, 5));
    assert_eq!(get_scroll_offset(&inter, 0), (5, 5));
    assert!(scroll_by(&layout, &mut inter, 0, 3, 3));
    assert_eq!(get_scroll_offset(&inter, 0), (8, 8));
    assert!(scroll_by(&layout, &mut inter, 0, 10, 20));
    assert_eq!(get_scroll_offset(&inter, 0), (10, 20));
    assert!(!scroll_by(&layout, &mut inter, 0, 1, 1));
    assert_eq!(get_scroll_offset(&inter, 0), (10, 20));
}

#[test]
fn test_scroll_by_negative() {
    let mut inter = InteractionArrays::new();
    let layout = create_test_layout(&[(0, 10, 20)]);
    raw_set_offset(&mut inter, 0, 5, 10);
    assert!(scroll_by(&layout, &mut inter, 0, -3, -5));
    assert_eq!(get_scroll_offset(&inter, 0), (2, 5));
    assert!(scroll_by(&layout, &mut inter, 0, -10, -10));
    assert_eq!(get_scroll_offset(&inter, 0), (0, 0));
    assert!(!scroll_by(&layout, &mut inter, 0, -1, -1));
    assert_eq!(get_scroll_offset(&inter, 0), (0, 0));
}

#[test]
fn test_scroll_by_not_scrollable() {
    let mut inter = InteractionArrays::new();
    let layout = create_test_layout(&[(0, 10, 20)]);
    assert!(!scroll_by(&layout, &mut inter, 1, 5, 5));
}

#[test]
fn test_scroll_to_top_bottom() {
    let mut inter = InteractionArrays::new();
    let layout = create_test_layout(&[(0, 10, 20)]);
    raw_set_offset(&mut inter, 0, 5, 10);
    scroll_to_bottom(&layout, &mut inter, 0);
    assert_eq!(get_scroll_offset(&inter, 0), (5, 20));
    scroll_to_top(&layout, &mut inter, 0);
    assert_eq!(get_scroll_offset(&inter, 0), (5, 0));
}

#[test]
fn test_scroll_to_start_end() {
    let mut inter = InteractionArrays::new();
    let layout = create_test_layout(&[(0, 10, 20)]);
    raw_set_offset(&mut inter, 0, 5, 10);
    scroll_to_end(&layout, &mut inter, 0);
    assert_eq!(get_scroll_offset(&inter, 0), (10, 10));
    scroll_to_start(&layout, &mut inter, 0);
    assert_eq!(get_scroll_offset(&inter, 0), (0, 10));
}

#[test]
fn test_scroll_by_with_chaining() {
    let mut inter = InteractionArrays::new();
    let mut core = CoreArrays::new();
    let layout = create_test_layout(&[(0, 10, 20), (1, 5, 10)]);
    set_parent_index(&mut core, 1, Some(0));
    raw_set_offset(&mut inter, 1, 2, 5);
    assert!(scroll_by_with_chaining(&layout, &mut inter, &core, 1, 1, 1));
    assert_eq!(get_scroll_offset(&inter, 1), (3, 6));
    assert!(scroll_by_with_chaining(&layout, &mut inter, &core, 1, 10, 10));
    assert_eq!(get_scroll_offset(&inter, 1), (5, 10));
    assert!(scroll_by_with_chaining(&layout, &mut inter, &core, 1, 1, 1));
    assert_eq!(get_scroll_offset(&inter, 1), (5, 10));
    assert_eq!(get_scroll_offset(&inter, 0), (1, 1));
}

#[test]
fn test_scroll_by_with_chaining_no_parent() {
    let mut inter = InteractionArrays::new();
    let core = CoreArrays::new();
    let layout = create_test_layout(&[(0, 10, 20)]);
    raw_set_offset(&mut inter, 0, 10, 20);
    assert!(!scroll_by_with_chaining(&layout, &mut inter, &core, 0, 1, 1));
}

#[test]
fn test_constants() {
    assert_eq!(LINE_SCROLL, 1);
    assert_eq!(WHEEL_SCROLL, 3);
    assert!((PAGE_SCROLL_TENTHS as f32 / 10.0 - 0.9).abs() < 0.001);
}

#[test]
fn test_get_focused_scrollable() {
    let layout = create_test_layout(&[(0, 10, 50)]);
    let none: Focus = FocusState::new();
    assert_eq!(get_focused_scrollable(&layout, &none), -1);
    let (f, _reg, _arrays) = focused_zero();
    let empty_layout = ComputedLayout::default();
    assert_eq!(get_focused_scrollable(&empty_layout, &f), -1);
    assert_eq!(get_focused_scrollable(&layout, &f), 0);
}

#[test]
fn test_handle_arrow_scroll_down() {
    let layout = create_test_layout(&[(0, 10, 50)]);
    let (f, _reg, mut arrays) = focused_zero();
    assert!(handle_arrow_scroll(&layout, &f, &mut arrays.interaction, ScrollDirection::Down));
    assert_eq!(get_scroll_offset_y(&arrays.interaction, 0), LINE_SCROLL);
}

#[test]
fn test_handle_arrow_scroll_up() {
    let layout = create_test_layout(&[(0, 10, 50)]);
    let (f, _reg, mut arrays) = focused_zero();
    raw_set_offset(&mut arrays.interaction, 0, 0, 25);
    assert!(handle_arrow_scroll(&layout, &f, &mut arrays.interaction, ScrollDirection::Up));
    assert_eq!(get_scroll_offset_y(&arrays.interaction, 0), 25 - LINE_SCROLL);
}

#[test]
fn test_handle_arrow_scroll_at_boundary() {
    let layout = create_test_layout(&[(0, 10, 50)]);
    let (f, _reg, mut arrays) = focused_zero();
    assert!(!handle_arrow_scroll(&layout, &f, &mut arrays.interaction, ScrollDirection::Up));
    assert_eq!(get_scroll_offset_y(&arrays.interaction, 0), 0);
}

#[test]
fn test_handle_arrow_scroll_horizontal() {
    let layout = create_test_layout(&[(0, 50, 50)]);
    let (f, _reg, mut arrays) = focused_zero();
    assert!(handle_arrow_scroll(&layout, &f, &mut arrays.interaction, ScrollDirection::Right));
    assert_eq!(get_scroll_offset_x(&arrays.interaction, 0), LINE_SCROLL);
    assert!(handle_arrow_scroll(&layout, &f, &mut arrays.interaction, ScrollDirection::Left));
    assert_eq!(get_scroll_offset_x(&arrays.interaction, 0), 0);
    assert!(!handle_arrow_scroll(&layout, &f, &mut arrays.interaction, ScrollDirection::Left));
}

#[test]
fn test_handle_page_scroll() {
    let mut layout = create_test_layout(&[(0, 10, 100)]);
    layout.height[0] = 10;
    let (f, _reg, mut arrays) = focused_zero();
    assert!(handle_page_scroll(&layout, &f, &mut arrays.interaction, ScrollDirection::Down));
    assert_eq!(get_scroll_offset_y(&arrays.interaction, 0), 9);
}

#[test]
fn test_handle_page_scroll_up() {
    let mut layout = create_test_layout(&[(0, 10, 100)]);
    layout.height[0] = 10;
    let (f, _reg, mut arrays) = focused_zero();
    raw_set_offset(&mut arrays.interaction, 0, 0, 50);
    assert!(handle_page_scroll(&layout, &f, &mut arrays.interaction, ScrollDirection::Up));
    assert_eq!(get_scroll_offset_y(&arrays.interaction, 0), 41);
}

#[test]
fn test_handle_home_end() {
    let layout = create_test_layout(&[(0, 10, 50)]);
    let (f, _reg, mut arrays) = focused_zero();
    assert!(handle_home_end(&layout, &f, &mut arrays.interaction, false));
    assert_eq!(get_scroll_offset_y(&arrays.interaction, 0), 50);
    assert!(handle_home_end(&layout, &f, &mut arrays.interaction, true));
    assert_eq!(get_scroll_offset_y(&arrays.interaction, 0), 0);
}

#[test]
fn test_no_scroll_when_not_focused() {
    let layout = create_test_layout(&[(0, 10, 50)]);
    let f: Focus = FocusState::new();
    let mut inter = InteractionArrays::new();
    assert!(!handle_arrow_scroll(&layout, &f, &mut inter, ScrollDirection::Down));
    assert!(!handle_page_scroll(&layout, &f, &mut inter, ScrollDirection::Down));
    assert!(!handle_home_end(&layout, &f, &mut inter, true));
}

#[test]
fn test_no_scroll_when_focused_not_scrollable() {
    let layout = ComputedLayout::default();
    let (f, _reg, mut arrays) = focused_zero();
    assert!(!handle_arrow_scroll(&layout, &f, &mut arrays.interaction, ScrollDirection::Down));
    assert!(!handle_page_scroll(&layout, &f, &mut arrays.interaction, ScrollDirection::Down));
    assert!(!handle_home_end(&layout, &f, &mut arrays.interaction, false));
}

#[test]
fn test_scroll_into_view_above() {
    let mut inter = InteractionArrays::new();
    let layout = create_test_layout(&[(0, 0, 100)]);
    raw_set_offset(&mut inter, 0, 0, 50);
    scroll_into_view(&layout, &mut inter, 0, 10, 5, 20);
    assert_eq!(get_scroll_offset_y(&inter, 0), 10);
}

#[test]
fn test_scroll_into_view_below() {
    let mut inter = InteractionArrays::new();
    let layout = create_test_layout(&[(0, 0, 100)]);
    raw_set_offset(&mut inter, 0, 0, 0);
    scroll_into_view(&layout, &mut inter, 0, 30, 5, 20);
    assert_eq!(get_scroll_offset_y(&inter, 0), 15);
}

#[test]
fn test_scroll_into_view_already_visible() {
    let mut inter = InteractionArrays::new();
    let layout = create_test_layout(&[(0, 0, 100)]);
    raw_set_offset(&mut inter, 0, 0, 5);
    scroll_into_view(&layout, &mut inter, 0, 10, 5, 20);
    assert_eq!(get_scroll_offset_y(&inter, 0), 5);
}

#[test]
fn test_find_scrollable_ancestor_immediate_parent() {
    let mut core = CoreArrays::new();
    let layout = create_test_layout(&[(0, 10, 50)]);
    set_parent_index(&mut core, 1, Some(0));
    assert_eq!(find_scrollable_ancestor(&layout, &core, 1), Some(0));
}

#[test]
fn test_find_scrollable_ancestor_grandparent() {
    let mut core = CoreArrays::new();
    let layout = create_test_layout(&[(0, 10, 50)]);
    set_parent_index(&mut core, 2, Some(1));
    set_parent_index(&mut core, 1, Some(0));
    assert_eq!(find_scrollable_ancestor(&layout, &core, 2), Some(0));
}

#[test]
fn test_find_scrollable_ancestor_no_ancestor() {
    let core = CoreArrays::new();
    let layout = ComputedLayout::default();
    assert_eq!(find_scrollable_ancestor(&layout, &core, 0), None);
}

#[test]
fn test_find_scrollable_ancestor_skips_non_scrollable_parent() {
    let mut core = CoreArrays::new();
    let layout = create_test_layout(&[(0, 10, 50), (1, 5, 25)]);
    set_parent_index(&mut core, 2, Some(1));
    set_parent_index(&mut core, 1, Some(0));
    assert_eq!(find_scrollable_ancestor(&layout, &core, 2), Some(1));
}

#[test]
fn test_scroll_focused_into_view_scrolls_to_show_child() {
    let mut inter = InteractionArrays::new();
    let mut core = CoreArrays::new();
    let mut layout = create_test_layout(&[(0, 0, 100)]);
    layout.y = vec![0, 50];
    layout.height = vec![20, 5];
    set_parent_index(&mut core, 1, Some(0));
    raw_set_offset(&mut inter, 0, 0, 0);
    scroll_focused_into_view(&layout, &mut inter, &core, 1);
    assert_eq!(get_scroll_offset_y(&inter, 0), 35);
}

#[test]
fn test_scroll_focused_into_view_no_scrollable_ancestor() {
    let mut inter = InteractionArrays::new();
    let core = CoreArrays::new();
    let mut layout = ComputedLayout::default();
    layout.y = vec![0, 50];
    layout.height = vec![20, 5];
    scroll_focused_into_view(&layout, &mut inter, &core, 1);
    assert_eq!(get_scroll_offset(&inter, 0), (0, 0));
}

fn grid() -> HitGrid {
    HitGrid::new(80, 24)
}

#[test]
fn test_handle_wheel_scroll_uses_hovered_component() {
    let layout = create_test_layout(&[(0, 10, 50)]);
    let f: Focus = FocusState::new();
    let mut inter = InteractionArrays::new();
    let core = CoreArrays::new();
    let mut g = grid();
    clear_hit_grid(&mut g);
    fill_hit_rect(&mut g, 0, 0, 10, 10, 0);
    assert!(handle_wheel_scroll(&layout, &f, &mut inter, &core, &g, 5, 5, ScrollDirection::Down));
    assert_eq!(get_scroll_offset_y(&inter, 0), WHEEL_SCROLL);
}

#[test]
fn test_handle_wheel_scroll_falls_back_to_focused() {
    let layout = create_test_layout(&[(0, 10, 50)]);
    let (f, _reg, mut arrays) = focused_zero();
    let core = CoreArrays::new();
    let g = grid();
    assert!(handle_wheel_scroll(&layout, &f, &mut arrays.interaction, &core, &g, 50, 50, ScrollDirection::Down));
    assert_eq!(get_scroll_offset_y(&arrays.interaction, 0), WHEEL_SCROLL);
}

#[test]
fn test_handle_wheel_scroll_with_chaining() {
    let layout = create_test_layout(&[(0, 10, 50), (1, 5, 10)]);
    let f: Focus = FocusState::new();
    let mut inter = InteractionArrays::new();
    let mut core = CoreArrays::new();
    set_parent_index(&mut core, 1, Some(0));
    raw_set_offset(&mut inter, 1, 5, 10);
    let mut g = grid();
    fill_hit_rect(&mut g, 5, 5, 10, 10, 1);
    assert!(handle_wheel_scroll(&layout, &f, &mut inter, &core, &g, 7, 7, ScrollDirection::Down));
    assert_eq!(get_scroll_offset_y(&inter, 1), 10);
    assert_eq!(get_scroll_offset_y(&inter, 0), WHEEL_SCROLL);
}

#[test]
fn test_handle_wheel_scroll_no_scrollable() {
    let layout = ComputedLayout::default();
    let f: Focus = FocusState::new();
    let mut inter = InteractionArrays::new();
    let core = CoreArrays::new();
    let g = grid();
    assert!(!handle_wheel_scroll(&layout, &f, &mut inter, &core, &g, 5, 5, ScrollDirection::Down));
}

#[test]
fn test_handle_wheel_scroll_horizontal() {
    let layout = create_test_layout(&[(0, 50, 50)]);
    let f: Focus = FocusState::new();
    let mut inter = InteractionArrays::new();
    let core = CoreArrays::new();
    let mut g = grid();
    fill_hit_rect(&mut g, 0, 0, 10, 10, 0);
    assert!(handle_wheel_scroll(&layout, &f, &mut inter, &core, &g, 5, 5, ScrollDirection::Right));
    assert_eq!(get_scroll_offset_x(&inter, 0), WHEEL_SCROLL);
    assert!(handle_wheel_scroll(&layout, &f, &mut inter, &core, &g, 5, 5, ScrollDirection::Left));
    assert_eq!(get_scroll_offset_x(&inter, 0), 0);
}

#[test]
fn test_stick_to_bottom_auto_scrolls_on_content_growth() {
    let mut inter = InteractionArrays::new();
    set_stick_to_bottom(&mut inter, 0, true);
    let mut layout = create_test_layout(&[(0, 10, 50)]);
    layout.height[0] = 20;
    raw_set_offset(&mut inter, 0, 0, 50);
    set_prev_max_scroll_y(&mut inter, 0, 50);
    layout.max_scroll_y[0] = 70;
    handle_stick_to_bottom(&layout, &mut inter, 0);
    assert_eq!(get_scroll_offset_y(&inter, 0), 70);
}

#[test]
fn test_stick_to_bottom_no_scroll_when_user_scrolled_up() {
    let mut inter = InteractionArrays::new();
    set_stick_to_bottom(&mut inter, 0, true);
    let mut layout = create_test_layout(&[(0, 10, 50)]);
    layout.height[0] = 20;
    raw_set_offset(&mut inter, 0, 0, 20);
    set_prev_max_scroll_y(&mut inter, 0, 50);
    layout.max_scroll_y[0] = 70;
    handle_stick_to_bottom(&layout, &mut inter, 0);
    assert_eq!(get_scroll_offset_y(&inter, 0), 20);
}

#[test]
fn test_stick_to_bottom_updates_prev_max() {
    let mut inter = InteractionArrays::new();
    set_stick_to_bottom(&mut inter, 0, true);
    let layout = create_test_layout(&[(0, 10, 50)]);
    raw_set_offset(&mut inter, 0, 0, 50);
    set_prev_max_scroll_y(&mut inter, 0, 0);
    handle_stick_to_bottom(&layout, &mut inter, 0);
    assert_eq!(get_prev_max_scroll_y(&inter, 0), 50);
}

#[test]
fn test_is_at_bottom() {
    let mut inter = InteractionArrays::new();
    let layout = create_test_layout(&[(0, 10, 50)]);
    raw_set_offset(&mut inter, 0, 0, 50);
    assert!(is_at_bottom(&layout, &inter, 0));
    raw_set_offset(&mut inter, 0, 0, 49);
    assert!(is_at_bottom(&layout, &inter, 0));
    raw_set_offset(&mut inter, 0, 0, 40);
    assert!(!is_at_bottom(&layout, &inter, 0));
    raw_set_offset(&mut inter, 0, 0, 0);
    assert!(!is_at_bottom(&layout, &inter, 0));
}

#[test]
fn test_stick_to_bottom_disabled_does_nothing() {
    let mut inter = InteractionArrays::new();
    assert!(!get_stick_to_bottom(&inter, 0));
    let mut layout = create_test_layout(&[(0, 10, 50)]);
    layout.height[0] = 20;
    raw_set_offset(&mut inter, 0, 0, 50);
    set_prev_max_scroll_y(&mut inter, 0, 50);
    layout.max_scroll_y[0] = 70;
    handle_stick_to_bottom(&layout, &mut inter, 0);
    assert_eq!(get_scroll_offset_y(&inter, 0), 50);
}

#[test]
fn offsets_never_leave_bounds() {
    let mut inter = InteractionArrays::new();
    let layout = create_test_layout(&[(0, 7, 9)]);
    for (dx, dy) in [(100, -3), (-50, 40), (3, 3), (-1, -100), (1000, 1000)] {
        scroll_by(&layout, &mut inter, 0, dx, dy);
        let (x, y) = get_scroll_offset(&inter, 0);
        assert!(x <= 7 && y <= 9);
    }
}
