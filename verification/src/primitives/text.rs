//! The text primitive: a leaf component that displays a string.

use vstd::prelude::*;
use crate::types::{Attr, ComponentType, Dimension, Rgba, TextAlign, TextWrap};
use crate::engine::registry::{Registry, allocate_index, get_current_parent_index, index_for, requested_key};
use crate::engine::arrays::Arrays;
use crate::engine::arrays::core_arrays::{set_component_type, set_parent_index, set_visible};
use crate::engine::arrays::text::{set_text_content, set_text_attrs, set_text_align, set_text_wrap};
use crate::engine::arrays::visual::{set_fg_color, set_bg_color, set_opacity};
use crate::engine::flex_node::FlexNode;
use crate::engine::flex_node_registry::{create_flex_node, set_flex_node};
use crate::primitives::box_primitive::{pick, side, pick_exec, side_exec, id_ref, starting_node};

verus! {

/// Properties of a text; `None` leaves a property as it is.
#[derive(Debug, Clone, Default)]
pub struct TextProps {
    /// A stable ID; one is generated when absent.
    pub id: Option<String>,
    /// The string shown.
    pub content: String,
    pub visible: Option<bool>,
    pub attrs: Option<Attr>,
    pub align: Option<TextAlign>,
    pub wrap: Option<TextWrap>,
    pub grow: Option<u16>,
    pub shrink: Option<u16>,
    pub flex_basis: Option<Dimension>,
    pub align_self: Option<u8>,
    pub width: Option<Dimension>,
    pub height: Option<Dimension>,
    pub min_width: Option<Dimension>,
    pub max_width: Option<Dimension>,
    pub min_height: Option<Dimension>,
    pub max_height: Option<Dimension>,
    /// All four paddings, unless a side is given.
    pub padding: Option<u16>,
    pub padding_top: Option<u16>,
    pub padding_right: Option<u16>,
    pub padding_bottom: Option<u16>,
    pub padding_left: Option<u16>,
    pub fg: Option<Rgba>,
    pub bg: Option<Rgba>,
    pub opacity: Option<u8>,
}

/// The FlexNode of a text after applying its item, size and padding
/// properties (a text is never a container).
pub open spec fn text_node_spec(n: FlexNode, p: TextProps) -> FlexNode {
    FlexNode {
        flex_grow: pick(p.grow, n.flex_grow),
        flex_shrink: pick(p.shrink, n.flex_shrink),
        flex_basis: pick(p.flex_basis, n.flex_basis),
        align_self: pick(p.align_self, n.align_self),
        width: pick(p.width, n.width),
        height: pick(p.height, n.height),
        min_width: pick(p.min_width, n.min_width),
        max_width: pick(p.max_width, n.max_width),
        min_height: pick(p.min_height, n.min_height),
        max_height: pick(p.max_height, n.max_height),
        padding_top: side(p.padding_top, p.padding, n.padding_top),
        padding_right: side(p.padding_right, p.padding, n.padding_right),
        padding_bottom: side(p.padding_bottom, p.padding, n.padding_bottom),
        padding_left: side(p.padding_left, p.padding, n.padding_left),
        ..n
    }
}

/// Each layout property given to a text is what its FlexNode holds: a
/// padding side given on its own wins over `padding`, which wins over what
/// the node held; a property not given keeps what the node held.
pub proof fn lemma_text_props_taken(n: FlexNode, p: TextProps)
    ensures
        p.padding_top matches Some(v) ==> text_node_spec(n, p).padding_top == v,
        p.padding is Some && p.padding_top is None ==> text_node_spec(n, p).padding_top == p.padding->0,
        p.padding_top is None && p.padding is None ==> text_node_spec(n, p).padding_top == n.padding_top,
        p.padding_right matches Some(v) ==> text_node_spec(n, p).padding_right == v,
        p.padding is Some && p.padding_right is None ==> text_node_spec(n, p).padding_right == p.padding->0,
        p.padding_right is None && p.padding is None ==> text_node_spec(n, p).padding_right == n.padding_right,
        p.padding_bottom matches Some(v) ==> text_node_spec(n, p).padding_bottom == v,
        p.padding is Some && p.padding_bottom is None ==> text_node_spec(n, p).padding_bottom == p.padding->0,
        p.padding_bottom is None && p.padding is None ==> text_node_spec(n, p).padding_bottom == n.padding_bottom,
        p.padding_left matches Some(v) ==> text_node_spec(n, p).padding_left == v,
        p.padding is Some && p.padding_left is None ==> text_node_spec(n, p).padding_left == p.padding->0,
        p.padding_left is None && p.padding is None ==> text_node_spec(n, p).padding_left == n.padding_left,
        p.grow matches Some(v) ==> text_node_spec(n, p).flex_grow == v,
        p.grow is None ==> text_node_spec(n, p).flex_grow == n.flex_grow,
        p.shrink matches Some(v) ==> text_node_spec(n, p).flex_shrink == v,
        p.shrink is None ==> text_node_spec(n, p).flex_shrink == n.flex_shrink,
        p.flex_basis matches Some(v) ==> text_node_spec(n, p).flex_basis == v,
        p.flex_basis is None ==> text_node_spec(n, p).flex_basis == n.flex_basis,
        p.align_self matches Some(v) ==> text_node_spec(n, p).align_self == v,
        p.align_self is None ==> text_node_spec(n, p).align_self == n.align_self,
        p.width matches Some(v) ==> text_node_spec(n, p).width == v,
        p.width is None ==> text_node_spec(n, p).width == n.width,
        p.height matches Some(v) ==> text_node_spec(n, p).height == v,
        p.height is None ==> text_node_spec(n, p).height == n.height,
        p.min_width matches Some(v) ==> text_node_spec(n, p).min_width == v,
        p.min_width is None ==> text_node_spec(n, p).min_width == n.min_width,
        p.max_width matches Some(v) ==> text_node_spec(n, p).max_width == v,
        p.max_width is None ==> text_node_spec(n, p).max_width == n.max_width,
        p.min_height matches Some(v) ==> text_node_spec(n, p).min_height == v,
        p.min_height is None ==> text_node_spec(n, p).min_height == n.min_height,
        p.max_height matches Some(v) ==> text_node_spec(n, p).max_height == v,
        p.max_height is None ==> text_node_spec(n, p).max_height == n.max_height,
        text_node_spec(n, p).index == n.index,
{
}

/// Apply a text's layout properties to a FlexNode.
pub fn text_node(n: FlexNode, p: &TextProps) -> (r: FlexNode)
    ensures
        r == text_node_spec(n, *p),
{
    FlexNode {
        flex_grow: pick_exec(p.grow, n.flex_grow),
        flex_shrink: pick_exec(p.shrink, n.flex_shrink),
        flex_basis: pick_exec(p.flex_basis, n.flex_basis),
        align_self: pick_exec(p.align_self, n.align_self),
        width: pick_exec(p.width, n.width),
        height: pick_exec(p.height, n.height),
        min_width: pick_exec(p.min_width, n.min_width),
        max_width: pick_exec(p.max_width, n.max_width),
        min_height: pick_exec(p.min_height, n.min_height),
        max_height: pick_exec(p.max_height, n.max_height),
        padding_top: side_exec(p.padding_top, p.padding, n.padding_top),
        padding_right: side_exec(p.padding_right, p.padding, n.padding_right),
        padding_bottom: side_exec(p.padding_bottom, p.padding, n.padding_bottom),
        padding_left: side_exec(p.padding_left, p.padding, n.padding_left),
        ..n
    }
}

/// Create a text: allocate its index (reusing a live component with the
/// same ID), make it a text under the current parent with its content,
/// styling, layout and colors. Returns the index; the caller releases it.
#[verifier::rlimit(100)]
pub fn text(reg: &mut Registry, arrays: &mut Arrays, props: &TextProps) -> (index: usize)
    requires
        old(reg).wf(),
        old(reg).next_index_spec() < usize::MAX,
        props.id is None ==> old(reg).id_counter_spec() < usize::MAX,
    ensures
        final(reg).wf(),
        final(reg).is_allocated_spec(index as int),
        index == index_for(old(reg), requested_key(old(reg), props.id)),
        old(reg).allocation_frame(&*final(reg), index as int),
        final(reg).id_counter_spec() == if props.id is None {
            old(reg).id_counter_spec() + 1
        } else {
            old(reg).id_counter_spec()
        },
        old(arrays).others_kept(&*final(arrays), index as int),
        final(reg).id_at(index as int) == Some(requested_key(old(reg), props.id)),
        final(reg).parent_stack_spec() == old(reg).parent_stack_spec(),
        final(arrays).core.component_type.at(index as int) == ComponentType::Text,
        old(reg).parent_stack_spec().len() > 0 ==> final(arrays).core.parent_index.at(index as int) == Some(
            old(reg).parent_stack_spec().last(),
        ),
        old(reg).parent_stack_spec().len() == 0 ==> final(arrays).core.parent_index.at(index as int) == old(
            arrays,
        ).core.parent_index.at(index as int),
        props.visible matches Some(v) ==> final(arrays).core.visible.at(index as int) == v,
        final(arrays).text.content.at(index as int) == props.content@,
        props.attrs matches Some(a) ==> final(arrays).text.attrs.at(index as int) == a,
        props.align matches Some(a) ==> final(arrays).text.align.at(index as int) == a,
        props.wrap matches Some(w) ==> final(arrays).text.wrap.at(index as int) == w,
        final(arrays).flex.node_at(index as int) == Some(text_node_spec(starting_node(&*old(arrays), index), *props)),
        props.fg matches Some(c) ==> final(arrays).visual.fg_color.at(index as int) == c,
        props.bg matches Some(c) ==> final(arrays).visual.bg_color.at(index as int) == c,
        props.opacity matches Some(o) ==> final(arrays).visual.opacity.at(index as int) == o,
{
    let index = allocate_index(reg, arrays, id_ref(&props.id));
    let ghost a1 = *arrays;
    let start = create_flex_node(&mut arrays.flex, index);
    set_component_type(&mut arrays.core, index, ComponentType::Text);
    if let Some(p) = get_current_parent_index(reg) {
        set_parent_index(&mut arrays.core, index, Some(p));
    }
    if let Some(v) = props.visible {
        set_visible(&mut arrays.core, index, v);
    }
    set_text_content(&mut arrays.text, index, props.content.clone());
    if let Some(a) = props.attrs {
        set_text_attrs(&mut arrays.text, index, a);
    }
    if let Some(a) = props.align {
        set_text_align(&mut arrays.text, index, a);
    }
    if let Some(w) = props.wrap {
        set_text_wrap(&mut arrays.text, index, w);
    }
    let node = text_node(start, props);
    set_flex_node(&mut arrays.flex, index, node);
    if let Some(c) = props.fg {
        set_fg_color(&mut arrays.visual, index, c);
    }
    if let Some(c) = props.bg {
        set_bg_color(&mut arrays.visual, index, c);
    }
    if let Some(o) = props.opacity {
        set_opacity(&mut arrays.visual, index, o);
    }
    proof {
        assert(a1.fields_kept(&*arrays, index as int));
        a1.lemma_fields_kept(&*arrays, index as int);
        assert(old(arrays).others_kept(&a1, index as int)) by {
            assert forall|j: int| j != index implies #[trigger] old(arrays).same_at(&a1, j) by {
                assert(old(arrays).same_at(&a1, j));
            }
        }
        old(arrays).lemma_others_kept_trans(&a1, &*arrays, index as int);
    }
    index
}

} // verus!
