use spark_tui::engine::arrays::core_arrays::{set_component_type, set_parent_index, set_visible};
use spark_tui::engine::arrays::text::set_text_content;
use spark_tui::engine::arrays::visual::{set_bg_color, set_border_style};
use spark_tui::engine::arrays::Arrays;
use spark_tui::engine::flex_node_registry::{create_flex_node, set_flex_node};
use spark_tui::engine::registry::{allocate_index, Registry};
use spark_tui::layout::titan::{compute_layout, TitanArrays};
use spark_tui::pipeline::render::render_frame;
use spark_tui::types::{BorderStyle, ComponentType, Dimension, Rgba};

fn frame_with_box_and_text() -> (Registry, Arrays) {
    let mut reg = Registry::new();
    let mut arrays = Arrays::new();
    let b = allocate_index(&mut reg, &mut arrays, None);
    set_component_type(&mut arrays.core, b, ComponentType::Box);
    set_visible(&mut arrays.core, b, true);
    let mut node = create_flex_node(&mut arrays.flex, b);
    node.width = Dimension::Cells(10);
    node.height = Dimension::Cells(3);
    node.border_top = 1;
    node.border_right = 1;
    node.border_bottom = 1;
    node.border_left = 1;
    set_flex_node(&mut arrays.flex, b, node);
    set_border_style(&mut arrays.visual, b, BorderStyle::Single);
    set_bg_color(&mut arrays.visual, b, Rgba::rgb(10, 20, 30));
    let t = allocate_index(&mut reg, &mut arrays, None);
    set_component_type(&mut arrays.core, t, ComponentType::Text);
    set_visible(&mut arrays.core, t, true);
    set_parent_index(&mut arrays.core, t, Some(b));
    set_text_content(&mut arrays.text, t, "Hi".to_string());
    create_flex_node(&mut arrays.flex, t);
    (reg, arrays)
}

#[test]
fn render_frame_draws_border_background_and_text() {
    let (reg, arrays) = frame_with_box_and_text();
    let mut ws = TitanArrays::new();
    let layout = compute_layout(&reg, &arrays, &mut ws, 20, 5, false);
    let r = render_frame(&reg, &arrays, &layout, 20, 5, 5, &|c: Rgba, _o: u8| c);
    assert_eq!(r.buffer.width(), 20);
    assert_eq!(r.buffer.height(), 5);
    assert_eq!(r.terminal_size, (20, 5));
    assert_eq!(r.hit_regions.len(), 2);
    assert_eq!((r.hit_regions[0].x, r.hit_regions[0].y, r.hit_regions[0].width, r.hit_regions[0].height), (0, 0, 10, 3));
    assert_eq!(r.hit_regions[0].component_index, 0);
    assert_eq!(r.hit_regions[1].component_index, 1);
    let corner = r.buffer.get(0, 0).unwrap();
    assert_eq!(corner.char, '┌' as u32);
    assert_eq!(corner.bg, Rgba::rgb(10, 20, 30));
    assert_eq!(r.buffer.get(9, 2).unwrap().char, '┘' as u32);
    assert_eq!(r.buffer.get(1, 1).unwrap().char, 'H' as u32);
    assert_eq!(r.buffer.get(2, 1).unwrap().char, 'i' as u32);
    assert_eq!(r.buffer.get(12, 1).unwrap().char, ' ' as u32);
}

#[test]
fn render_frame_with_nothing_allocated_is_blank() {
    let reg = Registry::new();
    let arrays = Arrays::new();
    let mut ws = TitanArrays::new();
    let layout = compute_layout(&reg, &arrays, &mut ws, 4, 2, true);
    let r = render_frame(&reg, &arrays, &layout, 4, 2, 2, &|c: Rgba, _o: u8| c);
    assert!(r.hit_regions.is_empty());
    assert_eq!(r.buffer.get(3, 1).unwrap().char, ' ' as u32);
}
