use spark_tui::engine::arrays::core_arrays::{get_component_type, get_parent_index};
use spark_tui::engine::arrays::interaction::{
    get_cursor_position, get_focusable, get_selection_end, get_selection_start, get_stick_to_bottom, get_tab_index,
};
use spark_tui::engine::arrays::text::{get_text_align, get_text_attrs, get_text_content, get_text_wrap};
use spark_tui::engine::arrays::visual::{get_bg_color, get_border_style, get_z_index};
use spark_tui::engine::arrays::Arrays;
use spark_tui::engine::flex_node_registry::get_flex_node;
use spark_tui::engine::registry::{pop_parent_context, push_parent_context, release_index, DestroyCallbacks, Registry};
use spark_tui::primitives::box_primitive::{box_primitive, BoxProps};
use spark_tui::primitives::input::{input, input_apply_key, InputNotice, InputProps};
use spark_tui::state::keyboard::{KeyboardEvent, Modifiers};
use spark_tui::primitives::text::{text, TextProps};
use spark_tui::types::{Attr, BorderStyle, ComponentType, Dimension, Rgba, TextAlign, TextWrap};

fn setup() -> (Registry, Arrays, DestroyCallbacks<Box<dyn FnOnce()>>) {
    (Registry::new(), Arrays::new(), DestroyCallbacks::new())
}

#[test]
fn test_box_creation() {
    let (mut reg, mut arrays, mut callbacks) = setup();
    let idx = box_primitive(
        &mut reg,
        &mut arrays,
        &BoxProps { width: Some(Dimension::Cells(50)), height: Some(Dimension::Cells(20)), ..Default::default() },
    );
    assert_eq!(idx, 0);
    assert_eq!(get_component_type(&arrays.core, 0), ComponentType::Box);
    release_index(&mut reg, &mut arrays, &mut callbacks, idx);
    assert_eq!(get_component_type(&arrays.core, 0), ComponentType::Empty);
}

#[test]
fn test_box_with_children() {
    let (mut reg, mut arrays, _callbacks) = setup();
    let parent = box_primitive(&mut reg, &mut arrays, &BoxProps::default());
    push_parent_context(&mut reg, parent);
    let child = box_primitive(&mut reg, &mut arrays, &BoxProps::default());
    pop_parent_context(&mut reg);
    assert_eq!((parent, child), (0, 1));
    assert_eq!(get_component_type(&arrays.core, 0), ComponentType::Box);
    assert_eq!(get_component_type(&arrays.core, 1), ComponentType::Box);
    assert_eq!(get_parent_index(&arrays.core, 1), Some(0));
}

#[test]
fn test_box_border() {
    let (mut reg, mut arrays, _callbacks) = setup();
    let idx = box_primitive(&mut reg, &mut arrays, &BoxProps { border: Some(BorderStyle::Single), ..Default::default() });
    assert_eq!(get_border_style(&arrays.visual, idx), BorderStyle::Single);
    let node = get_flex_node(&arrays.flex, idx).unwrap();
    assert_eq!(node.border_top, 1);
}

#[test]
fn test_box_focusable() {
    let (mut reg, mut arrays, _callbacks) = setup();
    let idx = box_primitive(
        &mut reg,
        &mut arrays,
        &BoxProps { focusable: Some(true), tab_index: Some(5), ..Default::default() },
    );
    assert!(get_focusable(&arrays.interaction, idx));
    assert_eq!(get_tab_index(&arrays.interaction, idx), 5);
}

#[test]
fn box_shorthands_apply_unless_a_side_is_given() {
    let (mut reg, mut arrays, _callbacks) = setup();
    let idx = box_primitive(
        &mut reg,
        &mut arrays,
        &BoxProps {
            margin: Some(2),
            margin_left: Some(7),
            padding: Some(1),
            gap: Some(3),
            column_gap: Some(9),
            grow: Some(2),
            bg: Some(Rgba::BLUE()),
            z_index: Some(4),
            stick_to_bottom: true,
            ..Default::default()
        },
    );
    let n = get_flex_node(&arrays.flex, idx).unwrap();
    assert_eq!((n.margin_top, n.margin_right, n.margin_bottom, n.margin_left), (2, 2, 2, 7));
    assert_eq!((n.padding_top, n.padding_left), (1, 1));
    assert_eq!((n.gap, n.row_gap, n.column_gap), (3, 3, 9));
    assert_eq!(n.flex_grow, 2);
    assert_eq!(n.flex_shrink, 1);
    assert_eq!(n.border_top, 0);
    assert_eq!(get_bg_color(&arrays.visual, idx), Rgba::BLUE());
    assert_eq!(get_z_index(&arrays.visual, idx), 4);
    assert!(get_stick_to_bottom(&arrays.interaction, idx));
}

#[test]
fn box_reuses_a_live_id() {
    let (mut reg, mut arrays, _callbacks) = setup();
    let a = box_primitive(&mut reg, &mut arrays, &BoxProps { id: Some("panel".to_string()), ..Default::default() });
    let b = box_primitive(
        &mut reg,
        &mut arrays,
        &BoxProps { id: Some("panel".to_string()), width: Some(Dimension::Cells(9)), ..Default::default() },
    );
    assert_eq!(a, b);
    assert_eq!(get_flex_node(&arrays.flex, a).unwrap().width, Dimension::Cells(9));
}

#[test]
fn test_text_creation() {
    let (mut reg, mut arrays, mut callbacks) = setup();
    let idx = text(&mut reg, &mut arrays, &TextProps { content: "Hello, World!".to_string(), ..Default::default() });
    assert_eq!(get_component_type(&arrays.core, 0), ComponentType::Text);
    assert_eq!(get_text_content(&arrays.text, 0), "Hello, World!");
    release_index(&mut reg, &mut arrays, &mut callbacks, idx);
    assert_eq!(get_component_type(&arrays.core, 0), ComponentType::Empty);
}

#[test]
fn test_text_with_attrs() {
    let (mut reg, mut arrays, _callbacks) = setup();
    text(
        &mut reg,
        &mut arrays,
        &TextProps { content: "Bold Text".to_string(), attrs: Some(Attr::BOLD() | Attr::ITALIC()), ..Default::default() },
    );
    assert_eq!(get_text_attrs(&arrays.text, 0), Attr::BOLD() | Attr::ITALIC());
}

#[test]
fn test_text_alignment() {
    let (mut reg, mut arrays, _callbacks) = setup();
    text(
        &mut reg,
        &mut arrays,
        &TextProps {
            content: "Centered".to_string(),
            align: Some(TextAlign::Center),
            wrap: Some(TextWrap::NoWrap),
            ..Default::default()
        },
    );
    assert_eq!(get_text_align(&arrays.text, 0), TextAlign::Center);
    assert_eq!(get_text_wrap(&arrays.text, 0), TextWrap::NoWrap);
}

#[test]
fn test_text_in_box() {
    let (mut reg, mut arrays, _callbacks) = setup();
    let parent = box_primitive(&mut reg, &mut arrays, &BoxProps::default());
    push_parent_context(&mut reg, parent);
    text(&mut reg, &mut arrays, &TextProps { content: "Child Text".to_string(), ..Default::default() });
    pop_parent_context(&mut reg);
    assert_eq!(get_component_type(&arrays.core, 0), ComponentType::Box);
    assert_eq!(get_component_type(&arrays.core, 1), ComponentType::Text);
    assert_eq!(get_parent_index(&arrays.core, 1), Some(0));
    assert_eq!(get_text_content(&arrays.text, 1), "Child Text");
}

#[test]
fn test_input_creation() {
    let (mut reg, mut arrays, mut callbacks) = setup();
    let idx = input(&mut reg, &mut arrays, &InputProps::new(String::new()));
    assert_eq!(get_component_type(&arrays.core, 0), ComponentType::Input);
    assert!(get_focusable(&arrays.interaction, 0));
    release_index(&mut reg, &mut arrays, &mut callbacks, idx);
    assert_eq!(get_component_type(&arrays.core, 0), ComponentType::Empty);
}

#[test]
fn test_input_custom_mask_char() {
    let (mut reg, mut arrays, _callbacks) = setup();
    let mut props = InputProps::new("abc".to_string());
    props.password = true;
    props.mask_char = Some('*');
    input(&mut reg, &mut arrays, &props);
    assert_eq!(get_text_content(&arrays.text, 0), "***");
}

#[test]
fn input_shows_value_placeholder_or_mask() {
    let (mut reg, mut arrays, _callbacks) = setup();
    let a = input(&mut reg, &mut arrays, &InputProps::new("Hello".to_string()));
    let mut p = InputProps::new(String::new());
    p.placeholder = Some("Enter text...".to_string());
    let b = input(&mut reg, &mut arrays, &p);
    let mut q = InputProps::new("secret".to_string());
    q.password = true;
    let c = input(&mut reg, &mut arrays, &q);
    assert_eq!(get_text_content(&arrays.text, a), "Hello");
    assert_eq!(get_text_content(&arrays.text, b), "Enter text...");
    assert_eq!(get_text_content(&arrays.text, c), "••••••");
    assert_eq!(get_cursor_position(&arrays.interaction, a), 0);
}

#[test]
fn test_input_always_focusable() {
    let (mut reg, mut arrays, _callbacks) = setup();
    input(&mut reg, &mut arrays, &InputProps::new(String::new()));
    assert!(get_focusable(&arrays.interaction, 0));
}

#[test]
fn test_input_tab_index() {
    let (mut reg, mut arrays, _callbacks) = setup();
    let mut props = InputProps::new(String::new());
    props.tab_index = Some(5);
    input(&mut reg, &mut arrays, &props);
    assert_eq!(get_tab_index(&arrays.interaction, 0), 5);
}

#[test]
fn input_keys_update_value_cursor_and_display() {
    let (mut reg, mut arrays, _callbacks) = setup();
    let mut props = InputProps::new("ab".to_string());
    props.password = true;
    props.mask_char = Some('*');
    let idx = input(&mut reg, &mut arrays, &props);
    let mut value = props.value.clone();
    let r = input_apply_key(&mut arrays, idx, &mut value, &props, &KeyboardEvent::new("End"));
    assert_eq!(r, (true, InputNotice::Quiet));
    assert_eq!(get_cursor_position(&arrays.interaction, idx), 2);
    let r = input_apply_key(&mut arrays, idx, &mut value, &props, &KeyboardEvent::new("c"));
    assert_eq!(r, (true, InputNotice::Changed));
    assert_eq!(value, "abc");
    assert_eq!(get_cursor_position(&arrays.interaction, idx), 3);
    assert_eq!(get_text_content(&arrays.text, idx), "***");
    let r = input_apply_key(&mut arrays, idx, &mut value, &props, &KeyboardEvent::with_modifiers("a", Modifiers::ctrl()));
    assert_eq!(r, (true, InputNotice::SelectAll(3)));
    assert_eq!(get_selection_start(&arrays.interaction, idx), 0);
    assert_eq!(get_selection_end(&arrays.interaction, idx), 3);
    let r = input_apply_key(&mut arrays, idx, &mut value, &props, &KeyboardEvent::new("F5"));
    assert_eq!(r, (false, InputNotice::Quiet));
    assert_eq!(value, "abc");
}

#[test]
fn input_backspace_to_empty_shows_placeholder() {
    let (mut reg, mut arrays, _callbacks) = setup();
    let mut props = InputProps::new("x".to_string());
    props.placeholder = Some("type".to_string());
    let idx = input(&mut reg, &mut arrays, &props);
    let mut value = props.value.clone();
    input_apply_key(&mut arrays, idx, &mut value, &props, &KeyboardEvent::new("End"));
    let r = input_apply_key(&mut arrays, idx, &mut value, &props, &KeyboardEvent::new("Backspace"));
    assert_eq!(r, (true, InputNotice::Changed));
    assert_eq!(value, "");
    assert_eq!(get_text_content(&arrays.text, idx), "type");
}
