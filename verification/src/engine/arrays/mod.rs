//! Parallel arrays: all per-component state, one slot per component index.

pub mod core_arrays;
pub mod interaction;
pub mod text;
pub mod visual;

use vstd::prelude::*;
use crate::engine::flex_node::FlexNodes;
use crate::engine::flex_node_registry::{destroy_flex_node, reset_flex_nodes};

verus! {

/// All parallel arrays of the engine.
pub struct Arrays {
    pub core: core_arrays::CoreArrays,
    pub interaction: interaction::InteractionArrays,
    pub text: text::TextArrays,
    pub visual: visual::VisualArrays,
    /// The FlexNode of each component that has one.
    pub flex: FlexNodes,
}

impl Arrays {
    /// Every array carries its documented default.
    pub open spec fn has_defaults(&self) -> bool {
        &&& self.core.has_defaults()
        &&& self.interaction.has_defaults()
        &&& self.text.has_defaults()
        &&& self.visual.has_defaults()
    }

    /// `other` reads the same as these arrays at index `i`, in every array
    /// and the FlexNodes.
    pub open spec fn same_at(&self, other: &Arrays, i: int) -> bool {
        &&& other.core.component_type.at(i) == self.core.component_type.at(i)
        &&& other.core.parent_index.at(i) == self.core.parent_index.at(i)
        &&& other.core.visible.at(i) == self.core.visible.at(i)
        &&& other.interaction.focusable.at(i) == self.interaction.focusable.at(i)
        &&& other.interaction.tab_index.at(i) == self.interaction.tab_index.at(i)
        &&& other.interaction.scroll_offset_x.at(i) == self.interaction.scroll_offset_x.at(i)
        &&& other.interaction.scroll_offset_y.at(i) == self.interaction.scroll_offset_y.at(i)
        &&& other.interaction.hovered.at(i) == self.interaction.hovered.at(i)
        &&& other.interaction.pressed.at(i) == self.interaction.pressed.at(i)
        &&& other.interaction.mouse_enabled.at(i) == self.interaction.mouse_enabled.at(i)
        &&& other.interaction.cursor_position.at(i) == self.interaction.cursor_position.at(i)
        &&& other.interaction.selection_start.at(i) == self.interaction.selection_start.at(i)
        &&& other.interaction.selection_end.at(i) == self.interaction.selection_end.at(i)
        &&& other.interaction.cursor_visible.at(i) == self.interaction.cursor_visible.at(i)
        &&& other.interaction.cursor_blink_fps.at(i) == self.interaction.cursor_blink_fps.at(i)
        &&& other.interaction.stick_to_bottom.at(i) == self.interaction.stick_to_bottom.at(i)
        &&& other.interaction.prev_max_scroll_y.at(i) == self.interaction.prev_max_scroll_y.at(i)
        &&& other.text.attrs.at(i) == self.text.attrs.at(i)
        &&& other.text.align.at(i) == self.text.align.at(i)
        &&& other.text.wrap.at(i) == self.text.wrap.at(i)
        &&& other.visual.border_style.at(i) == self.visual.border_style.at(i)
        &&& other.visual.border_color.at(i) == self.visual.border_color.at(i)
        &&& other.visual.fg_color.at(i) == self.visual.fg_color.at(i)
        &&& other.visual.bg_color.at(i) == self.visual.bg_color.at(i)
        &&& other.visual.opacity.at(i) == self.visual.opacity.at(i)
        &&& other.visual.z_index.at(i) == self.visual.z_index.at(i)
        &&& other.text.content.at(i) == self.text.content.at(i)
        &&& other.flex.node_at(i) == self.flex.node_at(i)
    }

    /// Every array reads its default at index `i`: empty text and no
    /// FlexNode.
    pub open spec fn default_at(&self, i: int) -> bool {
        &&& self.core.component_type.at(i) == self.core.component_type.default_spec()
        &&& self.core.parent_index.at(i) == self.core.parent_index.default_spec()
        &&& self.core.visible.at(i) == self.core.visible.default_spec()
        &&& self.interaction.focusable.at(i) == self.interaction.focusable.default_spec()
        &&& self.interaction.tab_index.at(i) == self.interaction.tab_index.default_spec()
        &&& self.interaction.scroll_offset_x.at(i) == self.interaction.scroll_offset_x.default_spec()
        &&& self.interaction.scroll_offset_y.at(i) == self.interaction.scroll_offset_y.default_spec()
        &&& self.interaction.hovered.at(i) == self.interaction.hovered.default_spec()
        &&& self.interaction.pressed.at(i) == self.interaction.pressed.default_spec()
        &&& self.interaction.mouse_enabled.at(i) == self.interaction.mouse_enabled.default_spec()
        &&& self.interaction.cursor_position.at(i) == self.interaction.cursor_position.default_spec()
        &&& self.interaction.selection_start.at(i) == self.interaction.selection_start.default_spec()
        &&& self.interaction.selection_end.at(i) == self.interaction.selection_end.default_spec()
        &&& self.interaction.cursor_visible.at(i) == self.interaction.cursor_visible.default_spec()
        &&& self.interaction.cursor_blink_fps.at(i) == self.interaction.cursor_blink_fps.default_spec()
        &&& self.interaction.stick_to_bottom.at(i) == self.interaction.stick_to_bottom.default_spec()
        &&& self.interaction.prev_max_scroll_y.at(i) == self.interaction.prev_max_scroll_y.default_spec()
        &&& self.text.attrs.at(i) == self.text.attrs.default_spec()
        &&& self.text.align.at(i) == self.text.align.default_spec()
        &&& self.text.wrap.at(i) == self.text.wrap.default_spec()
        &&& self.visual.border_style.at(i) == self.visual.border_style.default_spec()
        &&& self.visual.border_color.at(i) == self.visual.border_color.default_spec()
        &&& self.visual.fg_color.at(i) == self.visual.fg_color.default_spec()
        &&& self.visual.bg_color.at(i) == self.visual.bg_color.default_spec()
        &&& self.visual.opacity.at(i) == self.visual.opacity.default_spec()
        &&& self.visual.z_index.at(i) == self.visual.z_index.default_spec()
        &&& self.text.content.at(i) == Seq::<char>::empty()
        &&& self.flex.node_at(i) is None
    }

    /// Every array of `other` reads as this one's everywhere but at `i`,
    /// with the same defaults.
    pub open spec fn fields_kept(&self, other: &Arrays, i: int) -> bool {
        &&& self.core.component_type.kept_except(other.core.component_type, i)
        &&& self.core.parent_index.kept_except(other.core.parent_index, i)
        &&& self.core.visible.kept_except(other.core.visible, i)
        &&& self.interaction.focusable.kept_except(other.interaction.focusable, i)
        &&& self.interaction.tab_index.kept_except(other.interaction.tab_index, i)
        &&& self.interaction.scroll_offset_x.kept_except(other.interaction.scroll_offset_x, i)
        &&& self.interaction.scroll_offset_y.kept_except(other.interaction.scroll_offset_y, i)
        &&& self.interaction.hovered.kept_except(other.interaction.hovered, i)
        &&& self.interaction.pressed.kept_except(other.interaction.pressed, i)
        &&& self.interaction.mouse_enabled.kept_except(other.interaction.mouse_enabled, i)
        &&& self.interaction.cursor_position.kept_except(other.interaction.cursor_position, i)
        &&& self.interaction.selection_start.kept_except(other.interaction.selection_start, i)
        &&& self.interaction.selection_end.kept_except(other.interaction.selection_end, i)
        &&& self.interaction.cursor_visible.kept_except(other.interaction.cursor_visible, i)
        &&& self.interaction.cursor_blink_fps.kept_except(other.interaction.cursor_blink_fps, i)
        &&& self.interaction.stick_to_bottom.kept_except(other.interaction.stick_to_bottom, i)
        &&& self.interaction.prev_max_scroll_y.kept_except(other.interaction.prev_max_scroll_y, i)
        &&& self.text.attrs.kept_except(other.text.attrs, i)
        &&& self.text.align.kept_except(other.text.align, i)
        &&& self.text.wrap.kept_except(other.text.wrap, i)
        &&& self.visual.border_style.kept_except(other.visual.border_style, i)
        &&& self.visual.border_color.kept_except(other.visual.border_color, i)
        &&& self.visual.fg_color.kept_except(other.visual.fg_color, i)
        &&& self.visual.bg_color.kept_except(other.visual.bg_color, i)
        &&& self.visual.opacity.kept_except(other.visual.opacity, i)
        &&& self.visual.z_index.kept_except(other.visual.z_index, i)
        &&& forall|j: int| j != i ==> #[trigger] other.text.content.at(j) == self.text.content.at(j)
        &&& forall|j: int| j != i ==> #[trigger] other.flex.node_at(j) == self.flex.node_at(j)
    }

    /// Arrays changed at `i` field by field are changed at `i` alone.
    pub proof fn lemma_fields_kept(&self, other: &Arrays, i: int)
        requires
            self.fields_kept(other, i),
        ensures
            self.others_kept(other, i),
    {
        assert forall|j: int| j != i implies #[trigger] self.same_at(other, j) by {
            assert(other.core.component_type.at(j) == self.core.component_type.at(j));
            assert(other.core.parent_index.at(j) == self.core.parent_index.at(j));
            assert(other.core.visible.at(j) == self.core.visible.at(j));
            assert(other.interaction.focusable.at(j) == self.interaction.focusable.at(j));
            assert(other.interaction.tab_index.at(j) == self.interaction.tab_index.at(j));
            assert(other.interaction.scroll_offset_x.at(j) == self.interaction.scroll_offset_x.at(j));
            assert(other.interaction.scroll_offset_y.at(j) == self.interaction.scroll_offset_y.at(j));
            assert(other.interaction.hovered.at(j) == self.interaction.hovered.at(j));
            assert(other.interaction.pressed.at(j) == self.interaction.pressed.at(j));
            assert(other.interaction.mouse_enabled.at(j) == self.interaction.mouse_enabled.at(j));
            assert(other.interaction.cursor_position.at(j) == self.interaction.cursor_position.at(j));
            assert(other.interaction.selection_start.at(j) == self.interaction.selection_start.at(j));
            assert(other.interaction.selection_end.at(j) == self.interaction.selection_end.at(j));
            assert(other.interaction.cursor_visible.at(j) == self.interaction.cursor_visible.at(j));
            assert(other.interaction.cursor_blink_fps.at(j) == self.interaction.cursor_blink_fps.at(j));
            assert(other.interaction.stick_to_bottom.at(j) == self.interaction.stick_to_bottom.at(j));
            assert(other.interaction.prev_max_scroll_y.at(j) == self.interaction.prev_max_scroll_y.at(j));
            assert(other.text.attrs.at(j) == self.text.attrs.at(j));
            assert(other.text.align.at(j) == self.text.align.at(j));
            assert(other.text.wrap.at(j) == self.text.wrap.at(j));
            assert(other.visual.border_style.at(j) == self.visual.border_style.at(j));
            assert(other.visual.border_color.at(j) == self.visual.border_color.at(j));
            assert(other.visual.fg_color.at(j) == self.visual.fg_color.at(j));
            assert(other.visual.bg_color.at(j) == self.visual.bg_color.at(j));
            assert(other.visual.opacity.at(j) == self.visual.opacity.at(j));
            assert(other.visual.z_index.at(j) == self.visual.z_index.at(j));
        }
    }

    /// Changes at `i` alone compose.
    pub proof fn lemma_others_kept_trans(&self, b: &Arrays, c: &Arrays, i: int)
        requires
            self.others_kept(b, i),
            b.others_kept(c, i),
        ensures
            self.others_kept(c, i),
    {
        assert forall|j: int| j != i implies #[trigger] self.same_at(c, j) by {
            assert(self.same_at(b, j));
            assert(b.same_at(c, j));
        }
    }

    /// `other` is these arrays changed at `index` alone: every other index
    /// reads the same everywhere (its FlexNode and text content too), and
    /// the defaults are kept.
    pub open spec fn others_kept(&self, other: &Arrays, index: int) -> bool {
        &&& self.same_defaults(other)
        &&& forall|j: int| j != index ==> #[trigger] self.same_at(other, j)
        &&& forall|j: int| j != index ==> #[trigger] other.flex.node_at(j) == self.flex.node_at(j)
        &&& forall|j: int| j != index ==> #[trigger] other.text.content.at(j) == self.text.content.at(j)
    }

    /// `other` has the same default in every array.
    pub open spec fn same_defaults(&self, other: &Arrays) -> bool {
        &&& other.core.component_type.default_spec() == self.core.component_type.default_spec()
        &&& other.core.parent_index.default_spec() == self.core.parent_index.default_spec()
        &&& other.core.visible.default_spec() == self.core.visible.default_spec()
        &&& other.interaction.focusable.default_spec() == self.interaction.focusable.default_spec()
        &&& other.interaction.tab_index.default_spec() == self.interaction.tab_index.default_spec()
        &&& other.interaction.scroll_offset_x.default_spec() == self.interaction.scroll_offset_x.default_spec()
        &&& other.interaction.scroll_offset_y.default_spec() == self.interaction.scroll_offset_y.default_spec()
        &&& other.interaction.hovered.default_spec() == self.interaction.hovered.default_spec()
        &&& other.interaction.pressed.default_spec() == self.interaction.pressed.default_spec()
        &&& other.interaction.mouse_enabled.default_spec() == self.interaction.mouse_enabled.default_spec()
        &&& other.interaction.cursor_position.default_spec() == self.interaction.cursor_position.default_spec()
        &&& other.interaction.selection_start.default_spec() == self.interaction.selection_start.default_spec()
        &&& other.interaction.selection_end.default_spec() == self.interaction.selection_end.default_spec()
        &&& other.interaction.cursor_visible.default_spec() == self.interaction.cursor_visible.default_spec()
        &&& other.interaction.cursor_blink_fps.default_spec() == self.interaction.cursor_blink_fps.default_spec()
        &&& other.interaction.stick_to_bottom.default_spec() == self.interaction.stick_to_bottom.default_spec()
        &&& other.interaction.prev_max_scroll_y.default_spec() == self.interaction.prev_max_scroll_y.default_spec()
        &&& other.text.attrs.default_spec() == self.text.attrs.default_spec()
        &&& other.text.align.default_spec() == self.text.align.default_spec()
        &&& other.text.wrap.default_spec() == self.text.wrap.default_spec()
        &&& other.visual.border_style.default_spec() == self.visual.border_style.default_spec()
        &&& other.visual.border_color.default_spec() == self.visual.border_color.default_spec()
        &&& other.visual.fg_color.default_spec() == self.visual.fg_color.default_spec()
        &&& other.visual.bg_color.default_spec() == self.visual.bg_color.default_spec()
        &&& other.visual.opacity.default_spec() == self.visual.opacity.default_spec()
        &&& other.visual.z_index.default_spec() == self.visual.z_index.default_spec()
    }

    /// Fresh arrays with every slot at its default.
    pub fn new() -> (a: Arrays)
        ensures
            a.has_defaults(),
            forall|i: int| #[trigger] a.core.parent_index.at(i) == None::<usize>,
            forall|i: int| #[trigger] a.core.visible.at(i) == true,
            forall|i: int| #[trigger] a.interaction.focusable.at(i) == false,
            forall|i: int| #[trigger] a.interaction.scroll_offset_x.at(i) == 0,
            forall|i: int| #[trigger] a.interaction.scroll_offset_y.at(i) == 0,
            forall|i: int| #[trigger] a.flex.node_at(i) is None,
    {
        Arrays {
            core: core_arrays::CoreArrays::new(),
            interaction: interaction::InteractionArrays::new(),
            text: text::TextArrays::new(),
            visual: visual::VisualArrays::new(),
            flex: FlexNodes::new(),
        }
    }
}

/// Reading the same at an index is transitive.
pub proof fn lemma_same_at_trans(a: &Arrays, b: &Arrays, c: &Arrays, i: int)
    requires
        a.same_at(b, i),
        b.same_at(c, i),
    ensures
        a.same_at(c, i),
{
}

/// Having the same defaults is transitive.
pub proof fn lemma_same_defaults_trans(a: &Arrays, b: &Arrays, c: &Arrays)
    requires
        a.same_defaults(b),
        b.same_defaults(c),
    ensures
        a.same_defaults(c),
{
}

/// Defaults at an index survive arrays that read the same there and keep
/// their defaults.
pub proof fn lemma_default_kept(b: &Arrays, c: &Arrays, i: int)
    requires
        b.default_at(i),
        b.same_at(c, i),
        b.same_defaults(c),
    ensures
        c.default_at(i),
{
}

/// Ensure all arrays have capacity for the given index; nothing changes what
/// it reads.
pub fn ensure_all_capacity(a: &mut Arrays, index: usize)
    ensures
        old(a).core.parent_index.same_reads(final(a).core.parent_index),
        old(a).core.visible.same_reads(final(a).core.visible),
        old(a).core.component_type.same_reads(final(a).core.component_type),
        old(a).interaction.focusable.same_reads(final(a).interaction.focusable),
        old(a).interaction.tab_index.same_reads(final(a).interaction.tab_index),
        old(a).interaction.scroll_offset_x.same_reads(final(a).interaction.scroll_offset_x),
        old(a).interaction.scroll_offset_y.same_reads(final(a).interaction.scroll_offset_y),
        forall|i: int| #[trigger] final(a).text.content.at(i) == old(a).text.content.at(i),
        final(a).flex == old(a).flex,
        forall|i: int| #[trigger] old(a).same_at(&*final(a), i),
        old(a).same_defaults(&*final(a)),
        final(a).core.has_room(index as int),
        final(a).interaction.has_room(index as int),
        final(a).text.has_room(index as int),
        final(a).visual.has_room(index as int),
{
    core_arrays::ensure_capacity(&mut a.core, index);
    interaction::ensure_capacity(&mut a.interaction, index);
    text::ensure_capacity(&mut a.text, index);
    visual::ensure_capacity(&mut a.visual, index);
}

/// Clear all array values at an index and destroy its FlexNode.
pub fn clear_all_at_index(a: &mut Arrays, index: usize)
    ensures
        old(a).core.parent_index.written(final(a).core.parent_index, index as int, old(a).core.parent_index.default_spec()),
        old(a).core.visible.written(final(a).core.visible, index as int, old(a).core.visible.default_spec()),
        old(a).interaction.focusable.written(final(a).interaction.focusable, index as int, old(a).interaction.focusable.default_spec()),
        old(a).interaction.scroll_offset_y.written(final(a).interaction.scroll_offset_y, index as int, old(a).interaction.scroll_offset_y.default_spec()),
        final(a).text.content.at(index as int) == Seq::<char>::empty(),
        final(a).flex.node_at(index as int) is None,
        forall|i: int| i != index ==> #[trigger] final(a).flex.node_at(i) == old(a).flex.node_at(i),
        final(a).default_at(index as int),
        forall|i: int| i != index ==> #[trigger] old(a).same_at(&*final(a), i),
        old(a).same_defaults(&*final(a)),
{
    core_arrays::clear_at_index(&mut a.core, index);
    interaction::clear_at_index(&mut a.interaction, index);
    text::clear_at_index(&mut a.text, index);
    visual::clear_at_index(&mut a.visual, index);
    destroy_flex_node(&mut a.flex, index);
}

/// Reset all parallel arrays to their defaults, releasing their storage,
/// and destroy every FlexNode.
pub fn reset_all_arrays(a: &mut Arrays)
    ensures
        old(a).core.parent_index.all_default(final(a).core.parent_index),
        old(a).core.visible.all_default(final(a).core.visible),
        old(a).interaction.focusable.all_default(final(a).interaction.focusable),
        old(a).interaction.scroll_offset_x.all_default(final(a).interaction.scroll_offset_x),
        old(a).interaction.scroll_offset_y.all_default(final(a).interaction.scroll_offset_y),
        forall|i: int| #[trigger] final(a).text.content.at(i) == Seq::<char>::empty(),
        forall|i: int| #[trigger] final(a).flex.node_at(i) is None,
        forall|i: int| #[trigger] final(a).default_at(i),
        old(a).same_defaults(&*final(a)),
{
    core_arrays::reset(&mut a.core);
    interaction::reset(&mut a.interaction);
    text::reset(&mut a.text);
    visual::reset(&mut a.visual);
    reset_flex_nodes(&mut a.flex);
}

} // verus!
