use spark_tui::engine::arrays::core_arrays::{set_component_type, set_parent_index, set_visible};
use spark_tui::engine::arrays::text::set_text_content;
use spark_tui::engine::arrays::Arrays;
use spark_tui::engine::flex_node::FlexNode;
use spark_tui::engine::flex_node_registry::{
    create_flex_node, destroy_flex_node, flex_node_count, get_all_flex_nodes, get_flex_node, reset_flex_nodes,
    set_flex_node,
};
use spark_tui::engine::registry::{allocate_index, release_index, DestroyCallbacks, Registry};
use spark_tui::layout::titan::{
    box_content_size, clamp_dimension, compute_layout, flex_lines, flexed_main, justify_offsets, reset_titan_arrays,
    resolve_dimension, TitanArrays, FLEX_ROW, FLEX_ROW_REVERSE, JUSTIFY_BETWEEN, JUSTIFY_CENTER, JUSTIFY_END,
    JUSTIFY_EVENLY, POS_ABSOLUTE,
};
use spark_tui::types::{ComponentType, Dimension};

fn add_box(reg: &mut Registry, arrays: &mut Arrays, parent: Option<usize>, w: Dimension, h: Dimension) -> usize {
    let idx = allocate_index(reg, arrays, None);
    set_component_type(&mut arrays.core, idx, ComponentType::Box);
    set_visible(&mut arrays.core, idx, true);
    set_parent_index(&mut arrays.core, idx, parent);
    let mut node = create_flex_node(&mut arrays.flex, idx);
    node.width = w;
    node.height = h;
    set_flex_node(&mut arrays.flex, idx, node);
    idx
}

#[test]
fn test_flex_node_creation() {
    let node = FlexNode::new(5);
    assert_eq!(node.index, 5);
    assert_eq!(node.flex_direction, 0);
    assert_eq!(node.flex_shrink, 1);
    assert_eq!(node.width, Dimension::Auto);
}

#[test]
fn test_flex_node_static_values() {
    let mut node = FlexNode::new(0);
    node.width = Dimension::Cells(50);
    node.padding_top = 2;
    assert_eq!(node.width, Dimension::Cells(50));
    assert_eq!(node.padding_top, 2);
}

#[test]
fn test_flex_node_disconnect() {
    let mut node = FlexNode::new(3);
    node.width = Dimension::Cells(100);
    node.flex_grow = 2;
    node.disconnect();
    assert_eq!(node.width, Dimension::Auto);
    assert_eq!(node.flex_grow, 0);
    assert_eq!(node.index, 3);
}

#[test]
fn test_create_flex_node() {
    let mut arrays = Arrays::new();
    reset_flex_nodes(&mut arrays.flex);
    let node = create_flex_node(&mut arrays.flex, 0);
    assert_eq!(node.index, 0);
    assert_eq!(flex_node_count(&arrays.flex), 1);
    let again = create_flex_node(&mut arrays.flex, 0);
    assert_eq!(node, again);
    assert_eq!(flex_node_count(&arrays.flex), 1);
}

#[test]
fn test_get_flex_node() {
    let mut arrays = Arrays::new();
    assert!(get_flex_node(&arrays.flex, 0).is_none());
    let node = create_flex_node(&mut arrays.flex, 0);
    assert_eq!(get_flex_node(&arrays.flex, 0), Some(node));
}

#[test]
fn test_destroy_flex_node() {
    let mut arrays = Arrays::new();
    let mut node = create_flex_node(&mut arrays.flex, 0);
    node.width = Dimension::Cells(100);
    set_flex_node(&mut arrays.flex, 0, node);
    assert_eq!(flex_node_count(&arrays.flex), 1);
    destroy_flex_node(&mut arrays.flex, 0);
    assert_eq!(flex_node_count(&arrays.flex), 0);
    assert!(get_flex_node(&arrays.flex, 0).is_none());
}

#[test]
fn test_get_all_flex_nodes() {
    let mut arrays = Arrays::new();
    create_flex_node(&mut arrays.flex, 0);
    create_flex_node(&mut arrays.flex, 5);
    create_flex_node(&mut arrays.flex, 10);
    let all = get_all_flex_nodes(&arrays.flex);
    assert_eq!(all.len(), 3);
    let indices: Vec<usize> = all.iter().map(|(i, _)| *i).collect();
    assert!(indices.contains(&0));
    assert!(indices.contains(&5));
    assert!(indices.contains(&10));
}

#[test]
fn releasing_an_index_destroys_its_flex_node() {
    let mut reg = Registry::new();
    let mut arrays = Arrays::new();
    let mut callbacks: DestroyCallbacks<Box<dyn FnOnce()>> = DestroyCallbacks::new();
    let a = add_box(&mut reg, &mut arrays, None, Dimension::Cells(4), Dimension::Cells(4));
    let b = add_box(&mut reg, &mut arrays, None, Dimension::Cells(4), Dimension::Cells(4));
    release_index(&mut reg, &mut arrays, &mut callbacks, b);
    assert!(get_flex_node(&arrays.flex, b).is_none());
    assert!(get_flex_node(&arrays.flex, a).is_some());
}

#[test]
fn test_compute_layout_empty() {
    let reg = Registry::new();
    let arrays = Arrays::new();
    let mut ws = TitanArrays::new();
    let layout = compute_layout(&reg, &arrays, &mut ws, 80, 24, true);
    assert_eq!(layout.content_width, 0);
    assert_eq!(layout.content_height, 0);
    reset_titan_arrays(&mut ws);
}

#[test]
fn test_compute_layout_single_root() {
    let mut reg = Registry::new();
    let mut arrays = Arrays::new();
    let idx = add_box(&mut reg, &mut arrays, None, Dimension::Cells(40), Dimension::Cells(10));
    let mut ws = TitanArrays::new();
    let layout = compute_layout(&reg, &arrays, &mut ws, 80, 24, true);
    assert_eq!(layout.x[idx], 0);
    assert_eq!(layout.y[idx], 0);
    assert_eq!(layout.width[idx], 40);
    assert_eq!(layout.height[idx], 10);
}

#[test]
fn test_compute_layout_parent_child() {
    let mut reg = Registry::new();
    let mut arrays = Arrays::new();
    let parent = add_box(&mut reg, &mut arrays, None, Dimension::Cells(40), Dimension::Cells(10));
    let child = add_box(&mut reg, &mut arrays, Some(parent), Dimension::Cells(20), Dimension::Cells(5));
    let mut ws = TitanArrays::new();
    let layout = compute_layout(&reg, &arrays, &mut ws, 80, 24, true);
    assert_eq!(layout.x[parent], 0);
    assert_eq!(layout.y[parent], 0);
    assert_eq!(layout.x[child], 0);
    assert_eq!(layout.y[child], 0);
    assert_eq!(layout.width[child], 20);
    assert_eq!(layout.height[child], 5);
}

#[test]
fn test_flex_row() {
    let mut reg = Registry::new();
    let mut arrays = Arrays::new();
    let parent = add_box(&mut reg, &mut arrays, None, Dimension::Cells(40), Dimension::Cells(10));
    let mut pn = get_flex_node(&arrays.flex, parent).unwrap();
    pn.flex_direction = FLEX_ROW;
    set_flex_node(&mut arrays.flex, parent, pn);
    let child1 = add_box(&mut reg, &mut arrays, Some(parent), Dimension::Cells(10), Dimension::Cells(5));
    let child2 = add_box(&mut reg, &mut arrays, Some(parent), Dimension::Cells(10), Dimension::Cells(5));
    let mut ws = TitanArrays::new();
    let layout = compute_layout(&reg, &arrays, &mut ws, 80, 24, true);
    assert_eq!(layout.x[child1], 0);
    assert_eq!(layout.x[child2], 10);
}

#[test]
fn test_resolve_dimension() {
    assert_eq!(resolve_dimension(Dimension::Auto, 100), 0);
    assert_eq!(resolve_dimension(Dimension::Cells(50), 100), 50);
    assert_eq!(resolve_dimension(Dimension::Percent(50), 100), 50);
    assert_eq!(resolve_dimension(Dimension::Percent(100), 80), 80);
}

#[test]
fn percent_rounds_down_and_caps() {
    assert_eq!(resolve_dimension(Dimension::Percent(33), 10), 3);
    assert_eq!(resolve_dimension(Dimension::Percent(1000), 65535), 65535);
}

#[test]
fn clamp_applies_nonzero_bounds() {
    assert_eq!(clamp_dimension(5, Dimension::Cells(10), Dimension::Auto, 100), 10);
    assert_eq!(clamp_dimension(50, Dimension::Auto, Dimension::Cells(20), 100), 20);
    assert_eq!(clamp_dimension(50, Dimension::Auto, Dimension::Percent(10), 100), 10);
    assert_eq!(clamp_dimension(7, Dimension::Auto, Dimension::Auto, 100), 7);
}

#[test]
fn justify_modes() {
    assert_eq!(justify_offsets(0, 10, 2, 1), (0, 1));
    assert_eq!(justify_offsets(JUSTIFY_CENTER, 10, 2, 1), (5, 1));
    assert_eq!(justify_offsets(JUSTIFY_END, 10, 2, 1), (10, 1));
    assert_eq!(justify_offsets(JUSTIFY_BETWEEN, 10, 3, 1), (0, 6));
    assert_eq!(justify_offsets(JUSTIFY_BETWEEN, 10, 1, 1), (0, 1));
    assert_eq!(justify_offsets(4, 10, 2, 0), (2, 5));
    assert_eq!(justify_offsets(JUSTIFY_EVENLY, 9, 2, 0), (3, 3));
}

#[test]
fn lines_break_when_wrapping() {
    let mains = vec![4u16, 4, 4];
    assert_eq!(flex_lines(&mains, false, 0, 10), vec![(0, 2, 12)]);
    assert_eq!(flex_lines(&mains, true, 0, 10), vec![(0, 1, 8), (2, 2, 4)]);
    assert_eq!(flex_lines(&mains, true, 1, 10), vec![(0, 1, 9), (2, 2, 4)]);
}

#[test]
fn grow_and_shrink_shares() {
    assert_eq!(flexed_main(10, 1, 2, 1, 2, 20, false), 20);
    assert_eq!(flexed_main(10, 1, 2, 1, 2, -6, false), 7);
    assert_eq!(flexed_main(10, 1, 2, 1, 2, -6, true), 10);
    assert_eq!(flexed_main(10, 0, 0, 1, 2, 20, false), 10);
}

#[test]
fn box_content_sums_main_and_takes_max_cross() {
    let kids = vec![(10u16, 3u16, 0u16), (5, 7, 2)];
    assert_eq!(box_content_size(&kids, true, 1), (18, 7));
    assert_eq!(box_content_size(&kids, false, 1), (13, 10));
}

#[test]
fn grow_fills_row() {
    let mut reg = Registry::new();
    let mut arrays = Arrays::new();
    let parent = add_box(&mut reg, &mut arrays, None, Dimension::Cells(30), Dimension::Cells(4));
    let mut pn = get_flex_node(&arrays.flex, parent).unwrap();
    pn.flex_direction = FLEX_ROW;
    set_flex_node(&mut arrays.flex, parent, pn);
    let a = add_box(&mut reg, &mut arrays, Some(parent), Dimension::Cells(10), Dimension::Cells(2));
    let b = add_box(&mut reg, &mut arrays, Some(parent), Dimension::Auto, Dimension::Cells(2));
    let mut bn = get_flex_node(&arrays.flex, b).unwrap();
    bn.flex_grow = 1;
    set_flex_node(&mut arrays.flex, b, bn);
    let mut ws = TitanArrays::new();
    let layout = compute_layout(&reg, &arrays, &mut ws, 80, 24, true);
    assert_eq!(layout.width[a], 10);
    assert_eq!(layout.x[b], 10);
    assert_eq!(layout.width[b], 20);
}

#[test]
fn row_reverse_places_from_the_end() {
    let mut reg = Registry::new();
    let mut arrays = Arrays::new();
    let parent = add_box(&mut reg, &mut arrays, None, Dimension::Cells(40), Dimension::Cells(4));
    let mut pn = get_flex_node(&arrays.flex, parent).unwrap();
    pn.flex_direction = FLEX_ROW_REVERSE;
    set_flex_node(&mut arrays.flex, parent, pn);
    let a = add_box(&mut reg, &mut arrays, Some(parent), Dimension::Cells(10), Dimension::Cells(2));
    let mut ws = TitanArrays::new();
    let layout = compute_layout(&reg, &arrays, &mut ws, 80, 24, true);
    assert_eq!(layout.x[a], 30);
}

#[test]
fn text_takes_its_content_size() {
    let mut reg = Registry::new();
    let mut arrays = Arrays::new();
    let parent = add_box(&mut reg, &mut arrays, None, Dimension::Cells(40), Dimension::Cells(10));
    let t = allocate_index(&mut reg, &mut arrays, None);
    set_component_type(&mut arrays.core, t, ComponentType::Text);
    set_visible(&mut arrays.core, t, true);
    set_parent_index(&mut arrays.core, t, Some(parent));
    set_text_content(&mut arrays.text, t, "Hello".to_string());
    let mut pn = get_flex_node(&arrays.flex, parent).unwrap();
    pn.align_items = 1;
    set_flex_node(&mut arrays.flex, parent, pn);
    create_flex_node(&mut arrays.flex, t);
    let mut ws = TitanArrays::new();
    let layout = compute_layout(&reg, &arrays, &mut ws, 80, 24, true);
    assert_eq!(layout.width[t], 5);
    assert_eq!(layout.height[t], 1);
}

#[test]
fn unconstrained_root_takes_intrinsic_height() {
    let mut reg = Registry::new();
    let mut arrays = Arrays::new();
    let root = add_box(&mut reg, &mut arrays, None, Dimension::Auto, Dimension::Auto);
    let _a = add_box(&mut reg, &mut arrays, Some(root), Dimension::Cells(5), Dimension::Cells(3));
    let _b = add_box(&mut reg, &mut arrays, Some(root), Dimension::Cells(5), Dimension::Cells(2));
    let mut ws = TitanArrays::new();
    let layout = compute_layout(&reg, &arrays, &mut ws, 80, 24, false);
    assert_eq!(layout.width[root], 80);
    assert_eq!(layout.height[root], 5);
    assert_eq!(layout.content_height, 5);
}

#[test]
fn absolute_child_is_out_of_the_flow() {
    let mut reg = Registry::new();
    let mut arrays = Arrays::new();
    let root = add_box(&mut reg, &mut arrays, None, Dimension::Cells(40), Dimension::Cells(10));
    let a = add_box(&mut reg, &mut arrays, Some(root), Dimension::Cells(5), Dimension::Cells(3));
    let mut an = get_flex_node(&arrays.flex, a).unwrap();
    an.position = POS_ABSOLUTE;
    set_flex_node(&mut arrays.flex, a, an);
    let b = add_box(&mut reg, &mut arrays, Some(root), Dimension::Cells(5), Dimension::Cells(2));
    let mut ws = TitanArrays::new();
    let layout = compute_layout(&reg, &arrays, &mut ws, 80, 24, true);
    assert_eq!(layout.y[b], 0);
    assert_eq!(layout.width[a], 5);
    assert_eq!(layout.height[a], 3);
}

#[test]
fn overflowing_scroll_container_reports_its_range() {
    let mut reg = Registry::new();
    let mut arrays = Arrays::new();
    let root = add_box(&mut reg, &mut arrays, None, Dimension::Cells(20), Dimension::Cells(4));
    let mut rn = get_flex_node(&arrays.flex, root).unwrap();
    rn.overflow = 2;
    set_flex_node(&mut arrays.flex, root, rn);
    let _a = add_box(&mut reg, &mut arrays, Some(root), Dimension::Cells(5), Dimension::Cells(3));
    let _b = add_box(&mut reg, &mut arrays, Some(root), Dimension::Cells(5), Dimension::Cells(3));
    let mut ws = TitanArrays::new();
    let layout = compute_layout(&reg, &arrays, &mut ws, 80, 24, true);
    assert_eq!(layout.scrollable[root], 1);
    assert_eq!(layout.max_scroll_y[root], 2);
}

#[test]
fn scroll_child_keeps_its_height_and_stretches_across() {
    let mut reg = Registry::new();
    let mut arrays = Arrays::new();
    let p = add_box(&mut reg, &mut arrays, None, Dimension::Cells(10), Dimension::Cells(5));
    let mut pn = get_flex_node(&arrays.flex, p).unwrap();
    pn.overflow = 2;
    set_flex_node(&mut arrays.flex, p, pn);
    let c = add_box(&mut reg, &mut arrays, Some(p), Dimension::Auto, Dimension::Cells(8));
    let mut ws = TitanArrays::new();
    let layout = compute_layout(&reg, &arrays, &mut ws, 80, 24, false);
    assert_eq!(layout.scrollable[p], 1);
    assert_eq!(layout.max_scroll_x[p], 0);
    assert_eq!(layout.max_scroll_y[p], 3);
    assert_eq!((layout.x[c], layout.y[c]), (0, 0));
    assert_eq!((layout.width[c], layout.height[c]), (10, 8));
}

#[test]
fn parent_cycle_leaves_zero_boxes() {
    let mut reg = Registry::new();
    let mut arrays = Arrays::new();
    let root = add_box(&mut reg, &mut arrays, None, Dimension::Cells(20), Dimension::Cells(10));
    let a = add_box(&mut reg, &mut arrays, None, Dimension::Cells(5), Dimension::Cells(3));
    let b = add_box(&mut reg, &mut arrays, Some(a), Dimension::Cells(4), Dimension::Cells(2));
    set_parent_index(&mut arrays.core, a, Some(b));
    let mut ws = TitanArrays::new();
    let layout = compute_layout(&reg, &arrays, &mut ws, 80, 24, true);
    assert_eq!(layout.width[root], 20);
    for c in [a, b] {
        assert_eq!((layout.x[c], layout.y[c], layout.width[c], layout.height[c]), (0, 0, 0, 0));
    }
}
