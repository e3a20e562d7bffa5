//! The box primitive: a container component with layout, visual and focus
//! properties given as plain values.

use vstd::prelude::*;
use crate::types::{BorderStyle, ComponentType, Dimension, Rgba};
use crate::engine::registry::{Registry, allocate_index, get_current_parent_index, index_for, requested_key};
use crate::engine::arrays::Arrays;
use crate::engine::arrays::core_arrays::{set_component_type, set_parent_index, set_visible};
use crate::engine::arrays::interaction::{set_focusable, set_tab_index, set_stick_to_bottom};
use crate::engine::arrays::visual::{set_border_style, set_border_color, set_fg_color, set_bg_color, set_opacity, set_z_index};
use crate::engine::flex_node::FlexNode;
use crate::engine::flex_node_registry::{create_flex_node, set_flex_node};
use crate::handler_list::not_id;
use crate::state::mouse::{MouseEvent, MouseHandlers, MouseState, on_component};
use crate::state::keyboard::{KeyboardEvent, KeyboardState, on_focused};

verus! {

/// The given value, or the current one when none is given.
pub open spec fn pick<T>(p: Option<T>, current: T) -> T {
    match p {
        Some(v) => v,
        None => current,
    }
}

/// A side's value: its own, else the shorthand for all sides, else the
/// current one.
pub open spec fn side(own: Option<u16>, shorthand: Option<u16>, current: u16) -> u16 {
    match own {
        Some(v) => v,
        None => pick(shorthand, current),
    }
}

/// A border takes one cell of layout unless its style is `NoBorder`.
pub open spec fn border_width(border: Option<BorderStyle>, current: u16) -> u16 {
    match border {
        Some(s) => if s == BorderStyle::NoBorder { 0u16 } else { 1u16 },
        None => current,
    }
}

pub(crate) fn pick_exec<T: Copy>(p: Option<T>, current: T) -> (r: T)
    ensures
        r == pick(p, current),
{
    match p {
        Some(v) => v,
        None => current,
    }
}

pub(crate) fn side_exec(own: Option<u16>, shorthand: Option<u16>, current: u16) -> (r: u16)
    ensures
        r == side(own, shorthand, current),
{
    match own {
        Some(v) => v,
        None => pick_exec(shorthand, current),
    }
}

pub(crate) fn border_width_exec(border: Option<BorderStyle>, current: u16) -> (r: u16)
    ensures
        r == border_width(border, current),
{
    match border {
        Some(BorderStyle::NoBorder) => 0,
        Some(_) => 1,
        None => current,
    }
}

/// Properties of a box; `None` leaves a property as it is.
#[derive(Debug, Clone, Default)]
pub struct BoxProps {
    /// A stable ID; one is generated when absent.
    pub id: Option<String>,
    pub visible: Option<bool>,
    pub flex_direction: Option<u8>,
    pub flex_wrap: Option<u8>,
    pub justify_content: Option<u8>,
    pub align_items: Option<u8>,
    pub align_content: Option<u8>,
    pub grow: Option<u16>,
    pub shrink: Option<u16>,
    pub flex_basis: Option<Dimension>,
    pub align_self: Option<u8>,
    pub order: Option<i32>,
    pub width: Option<Dimension>,
    pub height: Option<Dimension>,
    pub min_width: Option<Dimension>,
    pub max_width: Option<Dimension>,
    pub min_height: Option<Dimension>,
    pub max_height: Option<Dimension>,
    /// All four margins, unless a side is given.
    pub margin: Option<u16>,
    pub margin_top: Option<u16>,
    pub margin_right: Option<u16>,
    pub margin_bottom: Option<u16>,
    pub margin_left: Option<u16>,
    /// All four paddings, unless a side is given.
    pub padding: Option<u16>,
    pub padding_top: Option<u16>,
    pub padding_right: Option<u16>,
    pub padding_bottom: Option<u16>,
    pub padding_left: Option<u16>,
    /// Gap, and row and column gaps unless they are given.
    pub gap: Option<u16>,
    pub row_gap: Option<u16>,
    pub column_gap: Option<u16>,
    pub position: Option<u8>,
    pub border: Option<BorderStyle>,
    pub border_color: Option<Rgba>,
    pub fg: Option<Rgba>,
    pub bg: Option<Rgba>,
    pub opacity: Option<u8>,
    pub focusable: Option<bool>,
    pub tab_index: Option<i32>,
    pub z_index: Option<i32>,
    pub overflow: Option<u8>,
    pub stick_to_bottom: bool,
}

/// The FlexNode of a box after applying its properties.
pub open spec fn box_node_spec(n: FlexNode, p: BoxProps) -> FlexNode {
    FlexNode {
        flex_direction: pick(p.flex_direction, n.flex_direction),
        flex_wrap: pick(p.flex_wrap, n.flex_wrap),
        justify_content: pick(p.justify_content, n.justify_content),
        align_items: pick(p.align_items, n.align_items),
        align_content: pick(p.align_content, n.align_content),
        flex_grow: pick(p.grow, n.flex_grow),
        flex_shrink: pick(p.shrink, n.flex_shrink),
        flex_basis: pick(p.flex_basis, n.flex_basis),
        align_self: pick(p.align_self, n.align_self),
        order: pick(p.order, n.order),
        width: pick(p.width, n.width),
        height: pick(p.height, n.height),
        min_width: pick(p.min_width, n.min_width),
        max_width: pick(p.max_width, n.max_width),
        min_height: pick(p.min_height, n.min_height),
        max_height: pick(p.max_height, n.max_height),
        margin_top: side(p.margin_top, p.margin, n.margin_top),
        margin_right: side(p.margin_right, p.margin, n.margin_right),
        margin_bottom: side(p.margin_bottom, p.margin, n.margin_bottom),
        margin_left: side(p.margin_left, p.margin, n.margin_left),
        padding_top: side(p.padding_top, p.padding, n.padding_top),
        padding_right: side(p.padding_right, p.padding, n.padding_right),
        padding_bottom: side(p.padding_bottom, p.padding, n.padding_bottom),
        padding_left: side(p.padding_left, p.padding, n.padding_left),
        gap: pick(p.gap, n.gap),
        row_gap: side(p.row_gap, p.gap, n.row_gap),
        column_gap: side(p.column_gap, p.gap, n.column_gap),
        border_top: border_width(p.border, n.border_top),
        border_right: border_width(p.border, n.border_right),
        border_bottom: border_width(p.border, n.border_bottom),
        border_left: border_width(p.border, n.border_left),
        overflow: pick(p.overflow, n.overflow),
        position: pick(p.position, n.position),
        ..n
    }
}

/// A box given a border style has a one-cell border on each of its four
/// sides, or none on any side for `NoBorder`; a box given no style keeps
/// the border widths it had.
pub proof fn lemma_box_border_sides(n: FlexNode, p: BoxProps)
    ensures
        p.border matches Some(s) && s != BorderStyle::NoBorder ==> {
            let b = box_node_spec(n, p);
            b.border_top == 1 && b.border_right == 1 && b.border_bottom == 1 && b.border_left == 1
        },
        p.border == Some(BorderStyle::NoBorder) ==> {
            let b = box_node_spec(n, p);
            b.border_top == 0 && b.border_right == 0 && b.border_bottom == 0 && b.border_left == 0
        },
        p.border is None ==> {
            let b = box_node_spec(n, p);
            b.border_top == n.border_top && b.border_right == n.border_right && b.border_bottom == n.border_bottom
                && b.border_left == n.border_left
        },
{
}

/// Each layout property given to a box is what its FlexNode holds: a side
/// given on its own wins over the shorthand for all sides (`margin`,
/// `padding`, and `gap` for the row and column gaps), which wins over what
/// the node held; a property not given keeps what the node held. The
/// node's identity and any field no property names are kept.
pub proof fn lemma_box_props_taken(n: FlexNode, p: BoxProps)
    ensures
        p.margin_top matches Some(v) ==> box_node_spec(n, p).margin_top == v,
        p.margin is Some && p.margin_top is None ==> box_node_spec(n, p).margin_top == p.margin->0,
        p.margin_top is None && p.margin is None ==> box_node_spec(n, p).margin_top == n.margin_top,
        p.margin_right matches Some(v) ==> box_node_spec(n, p).margin_right == v,
        p.margin is Some && p.margin_right is None ==> box_node_spec(n, p).margin_right == p.margin->0,
        p.margin_right is None && p.margin is None ==> box_node_spec(n, p).margin_right == n.margin_right,
        p.margin_bottom matches Some(v) ==> box_node_spec(n, p).margin_bottom == v,
        p.margin is Some && p.margin_bottom is None ==> box_node_spec(n, p).margin_bottom == p.margin->0,
        p.margin_bottom is None && p.margin is None ==> box_node_spec(n, p).margin_bottom == n.margin_bottom,
        p.margin_left matches Some(v) ==> box_node_spec(n, p).margin_left == v,
        p.margin is Some && p.margin_left is None ==> box_node_spec(n, p).margin_left == p.margin->0,
        p.margin_left is None && p.margin is None ==> box_node_spec(n, p).margin_left == n.margin_left,
        p.padding_top matches Some(v) ==> box_node_spec(n, p).padding_top == v,
        p.padding is Some && p.padding_top is None ==> box_node_spec(n, p).padding_top == p.padding->0,
        p.padding_top is None && p.padding is None ==> box_node_spec(n, p).padding_top == n.padding_top,
        p.padding_right matches Some(v) ==> box_node_spec(n, p).padding_right == v,
        p.padding is Some && p.padding_right is None ==> box_node_spec(n, p).padding_right == p.padding->0,
        p.padding_right is None && p.padding is None ==> box_node_spec(n, p).padding_right == n.padding_right,
        p.padding_bottom matches Some(v) ==> box_node_spec(n, p).padding_bottom == v,
        p.padding is Some && p.padding_bottom is None ==> box_node_spec(n, p).padding_bottom == p.padding->0,
        p.padding_bottom is None && p.padding is None ==> box_node_spec(n, p).padding_bottom == n.padding_bottom,
        p.padding_left matches Some(v) ==> box_node_spec(n, p).padding_left == v,
        p.padding is Some && p.padding_left is None ==> box_node_spec(n, p).padding_left == p.padding->0,
        p.padding_left is None && p.padding is None ==> box_node_spec(n, p).padding_left == n.padding_left,
        p.row_gap matches Some(v) ==> box_node_spec(n, p).row_gap == v,
        p.gap is Some && p.row_gap is None ==> box_node_spec(n, p).row_gap == p.gap->0,
        p.row_gap is None && p.gap is None ==> box_node_spec(n, p).row_gap == n.row_gap,
        p.column_gap matches Some(v) ==> box_node_spec(n, p).column_gap == v,
        p.gap is Some && p.column_gap is None ==> box_node_spec(n, p).column_gap == p.gap->0,
        p.column_gap is None && p.gap is None ==> box_node_spec(n, p).column_gap == n.column_gap,
        p.flex_direction matches Some(v) ==> box_node_spec(n, p).flex_direction == v,
        p.flex_direction is None ==> box_node_spec(n, p).flex_direction == n.flex_direction,
        p.flex_wrap matches Some(v) ==> box_node_spec(n, p).flex_wrap == v,
        p.flex_wrap is None ==> box_node_spec(n, p).flex_wrap == n.flex_wrap,
        p.justify_content matches Some(v) ==> box_node_spec(n, p).justify_content == v,
        p.justify_content is None ==> box_node_spec(n, p).justify_content == n.justify_content,
        p.align_items matches Some(v) ==> box_node_spec(n, p).align_items == v,
        p.align_items is None ==> box_node_spec(n, p).align_items == n.align_items,
        p.align_content matches Some(v) ==> box_node_spec(n, p).align_content == v,
        p.align_content is None ==> box_node_spec(n, p).align_content == n.align_content,
        p.grow matches Some(v) ==> box_node_spec(n, p).flex_grow == v,
        p.grow is None ==> box_node_spec(n, p).flex_grow == n.flex_grow,
        p.shrink matches Some(v) ==> box_node_spec(n, p).flex_shrink == v,
        p.shrink is None ==> box_node_spec(n, p).flex_shrink == n.flex_shrink,
        p.flex_basis matches Some(v) ==> box_node_spec(n, p).flex_basis == v,
        p.flex_basis is None ==> box_node_spec(n, p).flex_basis == n.flex_basis,
        p.align_self matches Some(v) ==> box_node_spec(n, p).align_self == v,
        p.align_self is None ==> box_node_spec(n, p).align_self == n.align_self,
        p.order matches Some(v) ==> box_node_spec(n, p).order == v,
        p.order is None ==> box_node_spec(n, p).order == n.order,
        p.width matches Some(v) ==> box_node_spec(n, p).width == v,
        p.width is None ==> box_node_spec(n, p).width == n.width,
        p.height matches Some(v) ==> box_node_spec(n, p).height == v,
        p.height is None ==> box_node_spec(n, p).height == n.height,
        p.min_width matches Some(v) ==> box_node_spec(n, p).min_width == v,
        p.min_width is None ==> box_node_spec(n, p).min_width == n.min_width,
        p.max_width matches Some(v) ==> box_node_spec(n, p).max_width == v,
        p.max_width is None ==> box_node_spec(n, p).max_width == n.max_width,
        p.min_height matches Some(v) ==> box_node_spec(n, p).min_height == v,
        p.min_height is None ==> box_node_spec(n, p).min_height == n.min_height,
        p.max_height matches Some(v) ==> box_node_spec(n, p).max_height == v,
        p.max_height is None ==> box_node_spec(n, p).max_height == n.max_height,
        p.gap matches Some(v) ==> box_node_spec(n, p).gap == v,
        p.gap is None ==> box_node_spec(n, p).gap == n.gap,
        p.overflow matches Some(v) ==> box_node_spec(n, p).overflow == v,
        p.overflow is None ==> box_node_spec(n, p).overflow == n.overflow,
        p.position matches Some(v) ==> box_node_spec(n, p).position == v,
        p.position is None ==> box_node_spec(n, p).position == n.position,
        box_node_spec(n, p).index == n.index,
{
}

/// Apply a box's layout properties to a FlexNode.
pub fn box_node(n: FlexNode, p: &BoxProps) -> (r: FlexNode)
    ensures
        r == box_node_spec(n, *p),
{
    FlexNode {
        flex_direction: pick_exec(p.flex_direction, n.flex_direction),
        flex_wrap: pick_exec(p.flex_wrap, n.flex_wrap),
        justify_content: pick_exec(p.justify_content, n.justify_content),
        align_items: pick_exec(p.align_items, n.align_items),
        align_content: pick_exec(p.align_content, n.align_content),
        flex_grow: pick_exec(p.grow, n.flex_grow),
        flex_shrink: pick_exec(p.shrink, n.flex_shrink),
        flex_basis: pick_exec(p.flex_basis, n.flex_basis),
        align_self: pick_exec(p.align_self, n.align_self),
        order: pick_exec(p.order, n.order),
        width: pick_exec(p.width, n.width),
        height: pick_exec(p.height, n.height),
        min_width: pick_exec(p.min_width, n.min_width),
        max_width: pick_exec(p.max_width, n.max_width),
        min_height: pick_exec(p.min_height, n.min_height),
        max_height: pick_exec(p.max_height, n.max_height),
        margin_top: side_exec(p.margin_top, p.margin, n.margin_top),
        margin_right: side_exec(p.margin_right, p.margin, n.margin_right),
        margin_bottom: side_exec(p.margin_bottom, p.margin, n.margin_bottom),
        margin_left: side_exec(p.margin_left, p.margin, n.margin_left),
        padding_top: side_exec(p.padding_top, p.padding, n.padding_top),
        padding_right: side_exec(p.padding_right, p.padding, n.padding_right),
        padding_bottom: side_exec(p.padding_bottom, p.padding, n.padding_bottom),
        padding_left: side_exec(p.padding_left, p.padding, n.padding_left),
        gap: pick_exec(p.gap, n.gap),
        row_gap: side_exec(p.row_gap, p.gap, n.row_gap),
        column_gap: side_exec(p.column_gap, p.gap, n.column_gap),
        border_top: border_width_exec(p.border, n.border_top),
        border_right: border_width_exec(p.border, n.border_right),
        border_bottom: border_width_exec(p.border, n.border_bottom),
        border_left: border_width_exec(p.border, n.border_left),
        overflow: pick_exec(p.overflow, n.overflow),
        position: pick_exec(p.position, n.position),
        ..n
    }
}

/// The ID a component asks for, as a string slice.
pub(crate) fn id_ref(id: &Option<String>) -> (r: Option<&str>)
    ensures
        match id {
            Some(s) => r matches Some(t) && t@ == s@,
            None => r is None,
        },
{
    match id {
        Some(s) => Some(s.as_str()),
        None => None,
    }
}

/// The FlexNode a component starts from: the one it has, or the default.
pub open spec fn starting_node(a: &Arrays, index: usize) -> FlexNode {
    match a.flex.node_at(index as int) {
        Some(n) => n,
        None => FlexNode::default_spec(index),
    }
}

/// Apply a box's border, colors, opacity, stacking, scrolling and focus
/// properties at `index`, changing nothing else.
fn apply_box_styles(arrays: &mut Arrays, index: usize, props: &BoxProps)
    ensures
        old(arrays).fields_kept(&*final(arrays), index as int),
        final(arrays).core == old(arrays).core,
        final(arrays).flex == old(arrays).flex,
        props.border matches Some(s) ==> final(arrays).visual.border_style.at(index as int) == s,
        props.border_color matches Some(c) ==> final(arrays).visual.border_color.at(index as int) == c,
        props.fg matches Some(c) ==> final(arrays).visual.fg_color.at(index as int) == c,
        props.bg matches Some(c) ==> final(arrays).visual.bg_color.at(index as int) == c,
        props.opacity matches Some(o) ==> final(arrays).visual.opacity.at(index as int) == o,
        props.z_index matches Some(z) ==> final(arrays).visual.z_index.at(index as int) == z,
        props.focusable == Some(true) ==> final(arrays).interaction.focusable.at(index as int),
        props.focusable == Some(true) && props.tab_index is Some ==> final(arrays).interaction.tab_index.at(
            index as int,
        ) == props.tab_index->0,
        props.stick_to_bottom ==> final(arrays).interaction.stick_to_bottom.at(index as int),
{
    if props.stick_to_bottom {
        set_stick_to_bottom(&mut arrays.interaction, index, true);
    }
    if let Some(s) = props.border {
        set_border_style(&mut arrays.visual, index, s);
    }
    if let Some(c) = props.border_color {
        set_border_color(&mut arrays.visual, index, c);
    }
    if let Some(c) = props.fg {
        set_fg_color(&mut arrays.visual, index, c);
    }
    if let Some(c) = props.bg {
        set_bg_color(&mut arrays.visual, index, c);
    }
    if let Some(o) = props.opacity {
        set_opacity(&mut arrays.visual, index, o);
    }
    if let Some(z) = props.z_index {
        set_z_index(&mut arrays.visual, index, z);
    }
    if props.focusable == Some(true) {
        set_focusable(&mut arrays.interaction, index, true);
        if let Some(t) = props.tab_index {
            set_tab_index(&mut arrays.interaction, index, t);
        }
    }
}

/// Create a box: allocate its index (reusing a live component with the same
/// ID), make it a box under the current parent, apply its layout, visual
/// and focus properties. Returns the index; the caller releases it.
pub fn box_primitive(reg: &mut Registry, arrays: &mut Arrays, props: &BoxProps) -> (index: usize)
    requires
        old(reg).wf(),
        old(reg).next_index_spec() < usize::MAX,
        props.id is None ==> old(reg).id_counter_spec() < usize::MAX,
    ensures
        final(reg).wf(),
        final(reg).is_allocated_spec(index as int),
        index == index_for(old(reg), requested_key(old(reg), props.id)),
        old(reg).allocation_frame(&*final(reg), index as int),
        final(reg).id_counter_spec() == if props.id is None {
            old(reg).id_counter_spec() + 1
        } else {
            old(reg).id_counter_spec()
        },
        old(arrays).others_kept(&*final(arrays), index as int),
        final(reg).id_at(index as int) == Some(requested_key(old(reg), props.id)),
        final(reg).parent_stack_spec() == old(reg).parent_stack_spec(),
        final(arrays).core.component_type.at(index as int) == ComponentType::Box,
        old(reg).parent_stack_spec().len() > 0 ==> final(arrays).core.parent_index.at(index as int) == Some(
            old(reg).parent_stack_spec().last(),
        ),
        old(reg).parent_stack_spec().len() == 0 ==> final(arrays).core.parent_index.at(index as int) == old(
            arrays,
        ).core.parent_index.at(index as int),
        props.visible matches Some(v) ==> final(arrays).core.visible.at(index as int) == v,
        final(arrays).flex.node_at(index as int) == Some(box_node_spec(starting_node(&*old(arrays), index), *props)),
        props.border matches Some(s) ==> final(arrays).visual.border_style.at(index as int) == s,
        props.border_color matches Some(c) ==> final(arrays).visual.border_color.at(index as int) == c,
        props.fg matches Some(c) ==> final(arrays).visual.fg_color.at(index as int) == c,
        props.bg matches Some(c) ==> final(arrays).visual.bg_color.at(index as int) == c,
        props.opacity matches Some(o) ==> final(arrays).visual.opacity.at(index as int) == o,
        props.z_index matches Some(z) ==> final(arrays).visual.z_index.at(index as int) == z,
        props.focusable == Some(true) ==> final(arrays).interaction.focusable.at(index as int),
        props.focusable == Some(true) && props.tab_index is Some ==> final(arrays).interaction.tab_index.at(
            index as int,
        ) == props.tab_index->0,
        props.stick_to_bottom ==> final(arrays).interaction.stick_to_bottom.at(index as int),
{
    let index = allocate_index(reg, arrays, id_ref(&props.id));
    let ghost a1 = *arrays;
    let start = create_flex_node(&mut arrays.flex, index);
    set_component_type(&mut arrays.core, index, ComponentType::Box);
    if let Some(p) = get_current_parent_index(reg) {
        set_parent_index(&mut arrays.core, index, Some(p));
    }
    if let Some(v) = props.visible {
        set_visible(&mut arrays.core, index, v);
    }
    let node = box_node(start, props);
    set_flex_node(&mut arrays.flex, index, node);
    let ghost a2 = *arrays;
    proof {
        assert(a1.fields_kept(&a2, index as int));
        a1.lemma_fields_kept(&a2, index as int);
    }
    apply_box_styles(arrays, index, props);
    proof {
        a2.lemma_fields_kept(&*arrays, index as int);
        a1.lemma_others_kept_trans(&a2, &*arrays, index as int);
        assert(old(arrays).others_kept(&a1, index as int)) by {
            assert forall|j: int| j != index implies #[trigger] old(arrays).same_at(&a1, j) by {
                assert(old(arrays).same_at(&a1, j));
            }
        }
        old(arrays).lemma_others_kept_trans(&a1, &*arrays, index as int);
    }
    index
}


/// The event handlers of a box: mouse handlers, and a key handler for
/// while the box is focused.
pub struct BoxHandlers<V, H, G> {
    pub on_click: Option<V>,
    pub on_mouse_down: Option<V>,
    pub on_mouse_up: Option<V>,
    pub on_mouse_enter: Option<V>,
    pub on_mouse_leave: Option<V>,
    pub on_scroll: Option<H>,
    pub on_key: Option<G>,
}

/// Whether any mouse handler is given.
pub open spec fn has_mouse_handlers<V, H, G>(h: BoxHandlers<V, H, G>) -> bool {
    h.on_click is Some || h.on_mouse_down is Some || h.on_mouse_up is Some || h.on_mouse_enter is Some
        || h.on_mouse_leave is Some || h.on_scroll is Some
}

/// The mouse handlers a box registers: its own, focusing on click when it
/// is focusable.
pub open spec fn box_mouse_handlers<V, H, G>(h: BoxHandlers<V, H, G>, focusable: bool) -> MouseHandlers<V, H> {
    MouseHandlers {
        on_mouse_down: h.on_mouse_down,
        on_mouse_up: h.on_mouse_up,
        on_click: h.on_click,
        on_mouse_enter: h.on_mouse_enter,
        on_mouse_leave: h.on_mouse_leave,
        on_scroll: h.on_scroll,
        focus_on_click: focusable,
    }
}

/// Register the handlers of box `index` as the box does when it is
/// created: when it is focusable or has a mouse handler, its mouse
/// handlers (a click on a focusable box focuses it, see
/// `focus_clicked`); when it is focusable and has a key handler, that
/// handler for while it is focused, whose registration id is returned.
pub fn register_box_handlers<
    V: Fn(&MouseEvent),
    H: Fn(&MouseEvent) -> bool,
    G: Fn(&KeyboardEvent) -> bool,
    K: Fn() -> bool,
>(
    mouse: &mut MouseState<V, H>,
    keys: &mut KeyboardState<G, K>,
    index: usize,
    focusable: bool,
    handlers: BoxHandlers<V, H, G>,
) -> (key_id: Option<usize>)
    requires
        old(mouse).wf(),
        old(keys).wf(),
        old(keys).next_id_spec() < usize::MAX,
        box_mouse_handlers(handlers, focusable).callable(),
        handlers.on_key matches Some(g) ==> forall|e: &KeyboardEvent| call_requires(g, (e,)),
    ensures
        final(mouse).wf(),
        final(keys).wf(),
        (focusable || has_mouse_handlers(handlers)) ==> final(mouse).components_spec() == old(
            mouse,
        ).components_spec().filter(not_id::<MouseHandlers<V, H>>(index)).push(
            (index, box_mouse_handlers(handlers, focusable)),
        ),
        !(focusable || has_mouse_handlers(handlers)) ==> final(mouse).components_spec() == old(mouse).components_spec(),
        final(mouse).pointer_spec() == old(mouse).pointer_spec(),
        final(mouse).down_spec() == old(mouse).down_spec(),
        final(mouse).up_spec() == old(mouse).up_spec(),
        final(mouse).click_spec() == old(mouse).click_spec(),
        final(mouse).scroll_spec() == old(mouse).scroll_spec(),
        final(mouse).next_id_spec() == old(mouse).next_id_spec(),
        match handlers.on_key {
            Some(g) => if focusable {
                &&& key_id == Some(old(keys).next_id_spec())
                &&& final(keys).focused_spec() == old(keys).focused_spec().push((old(keys).next_id_spec(), (index, g)))
                &&& final(keys).next_id_spec() == old(keys).next_id_spec() + 1
            } else {
                key_id is None && final(keys).focused_spec() == old(keys).focused_spec()
                    && final(keys).next_id_spec() == old(keys).next_id_spec()
            },
            None => key_id is None && final(keys).focused_spec() == old(keys).focused_spec()
                && final(keys).next_id_spec() == old(keys).next_id_spec(),
        },
        final(keys).global_spec() == old(keys).global_spec(),
        final(keys).keys_spec() == old(keys).keys_spec(),
        final(keys).last_spec() == old(keys).last_spec(),
{
    let has_mouse = handlers.on_click.is_some() || handlers.on_mouse_down.is_some() || handlers.on_mouse_up.is_some()
        || handlers.on_mouse_enter.is_some() || handlers.on_mouse_leave.is_some() || handlers.on_scroll.is_some();
    let ghost hv = handlers;
    let BoxHandlers { on_click, on_mouse_down, on_mouse_up, on_mouse_enter, on_mouse_leave, on_scroll, on_key } = handlers;
    if focusable || has_mouse {
        let mh = MouseHandlers { on_mouse_down, on_mouse_up, on_click, on_mouse_enter, on_mouse_leave, on_scroll, focus_on_click: focusable };
        assert(mh == box_mouse_handlers(hv, focusable));
        on_component(mouse, index, mh);
    }
    if focusable {
        match on_key {
            Some(g) => {
                let id = on_focused(keys, index, g);
                return Some(id);
            },
            None => {},
        }
    }
    None
}

} // verus!
