//! Interaction arrays: focus, tab order, scroll offsets, mouse and cursor state.

use vstd::prelude::*;
use crate::engine::slot::SlotArray;

verus! {

/// Per-component interaction state.
pub struct InteractionArrays {
    /// Is component focusable.
    pub focusable: SlotArray<bool>,
    /// Tab index for focus navigation (higher = later in order).
    pub tab_index: SlotArray<i32>,
    /// Scroll offset X.
    pub scroll_offset_x: SlotArray<u16>,
    /// Scroll offset Y.
    pub scroll_offset_y: SlotArray<u16>,
    /// Is component hovered by mouse.
    pub hovered: SlotArray<bool>,
    /// Is component pressed (mouse down).
    pub pressed: SlotArray<bool>,
    /// Is mouse enabled for this component.
    pub mouse_enabled: SlotArray<bool>,
    /// Cursor position (for input components).
    pub cursor_position: SlotArray<u16>,
    /// Selection start (for input components).
    pub selection_start: SlotArray<u16>,
    /// Selection end (for input components).
    pub selection_end: SlotArray<u16>,
    /// Cursor visible flag.
    pub cursor_visible: SlotArray<bool>,
    /// Cursor blink FPS (0 = no blink).
    pub cursor_blink_fps: SlotArray<u8>,
    /// Keep a scrollable pinned to its bottom as content grows.
    pub stick_to_bottom: SlotArray<bool>,
    /// Maximum vertical scroll seen at the last stick-to-bottom check.
    pub prev_max_scroll_y: SlotArray<u16>,
}

impl InteractionArrays {
    /// Every array has storage for slot `index`.
    pub open spec fn has_room(&self, index: int) -> bool {
        &&& self.focusable.capacity_spec() > index
        &&& self.tab_index.capacity_spec() > index
        &&& self.scroll_offset_x.capacity_spec() > index
        &&& self.scroll_offset_y.capacity_spec() > index
        &&& self.hovered.capacity_spec() > index
        &&& self.pressed.capacity_spec() > index
        &&& self.mouse_enabled.capacity_spec() > index
        &&& self.cursor_position.capacity_spec() > index
        &&& self.selection_start.capacity_spec() > index
        &&& self.selection_end.capacity_spec() > index
        &&& self.cursor_visible.capacity_spec() > index
        &&& self.cursor_blink_fps.capacity_spec() > index
        &&& self.stick_to_bottom.capacity_spec() > index
        &&& self.prev_max_scroll_y.capacity_spec() > index
    }

    /// Every array carries its documented default.
    pub open spec fn has_defaults(&self) -> bool {
        &&& self.focusable.default_spec() == false
        &&& self.tab_index.default_spec() == 0i32
        &&& self.scroll_offset_x.default_spec() == 0u16
        &&& self.scroll_offset_y.default_spec() == 0u16
        &&& self.hovered.default_spec() == false
        &&& self.pressed.default_spec() == false
        &&& self.mouse_enabled.default_spec() == true
        &&& self.cursor_position.default_spec() == 0u16
        &&& self.selection_start.default_spec() == 0u16
        &&& self.selection_end.default_spec() == 0u16
        &&& self.cursor_visible.default_spec() == true
        &&& self.cursor_blink_fps.default_spec() == 2u8
        &&& self.stick_to_bottom.default_spec() == false
        &&& self.prev_max_scroll_y.default_spec() == 0u16
    }

    /// Fresh arrays: every slot reads as its default.
    pub fn new() -> (a: InteractionArrays)
        ensures
            a.has_defaults(),
            forall|i: int| #[trigger] a.focusable.at(i) == a.focusable.default_spec(),
            forall|i: int| #[trigger] a.tab_index.at(i) == a.tab_index.default_spec(),
            forall|i: int| #[trigger] a.scroll_offset_x.at(i) == a.scroll_offset_x.default_spec(),
            forall|i: int| #[trigger] a.scroll_offset_y.at(i) == a.scroll_offset_y.default_spec(),
            forall|i: int| #[trigger] a.hovered.at(i) == a.hovered.default_spec(),
            forall|i: int| #[trigger] a.pressed.at(i) == a.pressed.default_spec(),
            forall|i: int| #[trigger] a.mouse_enabled.at(i) == a.mouse_enabled.default_spec(),
            forall|i: int| #[trigger] a.cursor_position.at(i) == a.cursor_position.default_spec(),
            forall|i: int| #[trigger] a.selection_start.at(i) == a.selection_start.default_spec(),
            forall|i: int| #[trigger] a.selection_end.at(i) == a.selection_end.default_spec(),
            forall|i: int| #[trigger] a.cursor_visible.at(i) == a.cursor_visible.default_spec(),
            forall|i: int| #[trigger] a.cursor_blink_fps.at(i) == a.cursor_blink_fps.default_spec(),
            forall|i: int| #[trigger] a.stick_to_bottom.at(i) == a.stick_to_bottom.default_spec(),
            forall|i: int| #[trigger] a.prev_max_scroll_y.at(i) == a.prev_max_scroll_y.default_spec(),
    {
        InteractionArrays {
            focusable: SlotArray::new(false),
            tab_index: SlotArray::new(0i32),
            scroll_offset_x: SlotArray::new(0u16),
            scroll_offset_y: SlotArray::new(0u16),
            hovered: SlotArray::new(false),
            pressed: SlotArray::new(false),
            mouse_enabled: SlotArray::new(true),
            cursor_position: SlotArray::new(0u16),
            selection_start: SlotArray::new(0u16),
            selection_end: SlotArray::new(0u16),
            cursor_visible: SlotArray::new(true),
            cursor_blink_fps: SlotArray::new(2u8),
            stick_to_bottom: SlotArray::new(false),
            prev_max_scroll_y: SlotArray::new(0u16),
        }
    }
}

/// Make room in every array for `index`; no slot changes what it reads.
pub fn ensure_capacity(a: &mut InteractionArrays, index: usize)
    ensures
        old(a).focusable.same_reads(final(a).focusable),
        old(a).tab_index.same_reads(final(a).tab_index),
        old(a).scroll_offset_x.same_reads(final(a).scroll_offset_x),
        old(a).scroll_offset_y.same_reads(final(a).scroll_offset_y),
        old(a).hovered.same_reads(final(a).hovered),
        old(a).pressed.same_reads(final(a).pressed),
        old(a).mouse_enabled.same_reads(final(a).mouse_enabled),
        old(a).cursor_position.same_reads(final(a).cursor_position),
        old(a).selection_start.same_reads(final(a).selection_start),
        old(a).selection_end.same_reads(final(a).selection_end),
        old(a).cursor_visible.same_reads(final(a).cursor_visible),
        old(a).cursor_blink_fps.same_reads(final(a).cursor_blink_fps),
        old(a).stick_to_bottom.same_reads(final(a).stick_to_bottom),
        old(a).prev_max_scroll_y.same_reads(final(a).prev_max_scroll_y),
        final(a).has_room(index as int),
{
    a.focusable.ensure_capacity(index);
    a.tab_index.ensure_capacity(index);
    a.scroll_offset_x.ensure_capacity(index);
    a.scroll_offset_y.ensure_capacity(index);
    a.hovered.ensure_capacity(index);
    a.pressed.ensure_capacity(index);
    a.mouse_enabled.ensure_capacity(index);
    a.cursor_position.ensure_capacity(index);
    a.selection_start.ensure_capacity(index);
    a.selection_end.ensure_capacity(index);
    a.cursor_visible.ensure_capacity(index);
    a.cursor_blink_fps.ensure_capacity(index);
    a.stick_to_bottom.ensure_capacity(index);
    a.prev_max_scroll_y.ensure_capacity(index);
}

/// Reset every array slot at `index` to its default.
pub fn clear_at_index(a: &mut InteractionArrays, index: usize)
    ensures
        old(a).focusable.written(final(a).focusable, index as int, old(a).focusable.default_spec()),
        old(a).tab_index.written(final(a).tab_index, index as int, old(a).tab_index.default_spec()),
        old(a).scroll_offset_x.written(final(a).scroll_offset_x, index as int, old(a).scroll_offset_x.default_spec()),
        old(a).scroll_offset_y.written(final(a).scroll_offset_y, index as int, old(a).scroll_offset_y.default_spec()),
        old(a).hovered.written(final(a).hovered, index as int, old(a).hovered.default_spec()),
        old(a).pressed.written(final(a).pressed, index as int, old(a).pressed.default_spec()),
        old(a).mouse_enabled.written(final(a).mouse_enabled, index as int, old(a).mouse_enabled.default_spec()),
        old(a).cursor_position.written(final(a).cursor_position, index as int, old(a).cursor_position.default_spec()),
        old(a).selection_start.written(final(a).selection_start, index as int, old(a).selection_start.default_spec()),
        old(a).selection_end.written(final(a).selection_end, index as int, old(a).selection_end.default_spec()),
        old(a).cursor_visible.written(final(a).cursor_visible, index as int, old(a).cursor_visible.default_spec()),
        old(a).cursor_blink_fps.written(final(a).cursor_blink_fps, index as int, old(a).cursor_blink_fps.default_spec()),
        old(a).stick_to_bottom.written(final(a).stick_to_bottom, index as int, old(a).stick_to_bottom.default_spec()),
        old(a).prev_max_scroll_y.written(final(a).prev_max_scroll_y, index as int, old(a).prev_max_scroll_y.default_spec()),
{
    a.focusable.clear(index);
    a.tab_index.clear(index);
    a.scroll_offset_x.clear(index);
    a.scroll_offset_y.clear(index);
    a.hovered.clear(index);
    a.pressed.clear(index);
    a.mouse_enabled.clear(index);
    a.cursor_position.clear(index);
    a.selection_start.clear(index);
    a.selection_end.clear(index);
    a.cursor_visible.clear(index);
    a.cursor_blink_fps.clear(index);
    a.stick_to_bottom.clear(index);
    a.prev_max_scroll_y.clear(index);
}

/// Reset every slot of every array to its default.
pub fn reset(a: &mut InteractionArrays)
    ensures
        old(a).focusable.all_default(final(a).focusable),
        old(a).tab_index.all_default(final(a).tab_index),
        old(a).scroll_offset_x.all_default(final(a).scroll_offset_x),
        old(a).scroll_offset_y.all_default(final(a).scroll_offset_y),
        old(a).hovered.all_default(final(a).hovered),
        old(a).pressed.all_default(final(a).pressed),
        old(a).mouse_enabled.all_default(final(a).mouse_enabled),
        old(a).cursor_position.all_default(final(a).cursor_position),
        old(a).selection_start.all_default(final(a).selection_start),
        old(a).selection_end.all_default(final(a).selection_end),
        old(a).cursor_visible.all_default(final(a).cursor_visible),
        old(a).cursor_blink_fps.all_default(final(a).cursor_blink_fps),
        old(a).stick_to_bottom.all_default(final(a).stick_to_bottom),
        old(a).prev_max_scroll_y.all_default(final(a).prev_max_scroll_y),
{
    a.focusable.clear_all();
    a.tab_index.clear_all();
    a.scroll_offset_x.clear_all();
    a.scroll_offset_y.clear_all();
    a.hovered.clear_all();
    a.pressed.clear_all();
    a.mouse_enabled.clear_all();
    a.cursor_position.clear_all();
    a.selection_start.clear_all();
    a.selection_end.clear_all();
    a.cursor_visible.clear_all();
    a.cursor_blink_fps.clear_all();
    a.stick_to_bottom.clear_all();
    a.prev_max_scroll_y.clear_all();
}

/// Get whether the component is focusable at index.
pub fn get_focusable(a: &InteractionArrays, index: usize) -> (v: bool)
    ensures
        v == a.focusable.at(index as int),
{
    a.focusable.get(index)
}

/// Set whether the component is focusable at index.
pub fn set_focusable(a: &mut InteractionArrays, index: usize, focusable: bool)
    ensures
        old(a).focusable.written(final(a).focusable, index as int, focusable),
        *final(a) == (InteractionArrays { focusable: final(a).focusable, ..*old(a) }),
{
    a.focusable.set_value(index, focusable);
}

/// Get the tab index at index.
pub fn get_tab_index(a: &InteractionArrays, index: usize) -> (v: i32)
    ensures
        v == a.tab_index.at(index as int),
{
    a.tab_index.get(index)
}

/// Set the tab index at index.
pub fn set_tab_index(a: &mut InteractionArrays, index: usize, tab_index: i32)
    ensures
        old(a).tab_index.written(final(a).tab_index, index as int, tab_index),
        *final(a) == (InteractionArrays { tab_index: final(a).tab_index, ..*old(a) }),
{
    a.tab_index.set_value(index, tab_index);
}

/// Get the horizontal scroll offset at index.
pub fn get_scroll_offset_x(a: &InteractionArrays, index: usize) -> (v: u16)
    ensures
        v == a.scroll_offset_x.at(index as int),
{
    a.scroll_offset_x.get(index)
}

/// Get the vertical scroll offset at index.
pub fn get_scroll_offset_y(a: &InteractionArrays, index: usize) -> (v: u16)
    ensures
        v == a.scroll_offset_y.at(index as int),
{
    a.scroll_offset_y.get(index)
}

/// Set both scroll offsets at index.
pub fn set_scroll_offset(a: &mut InteractionArrays, index: usize, x: u16, y: u16)
    ensures
        old(a).scroll_offset_x.written(final(a).scroll_offset_x, index as int, x),
        old(a).scroll_offset_y.written(final(a).scroll_offset_y, index as int, y),
        *final(a) == (InteractionArrays {
            scroll_offset_x: final(a).scroll_offset_x,
            scroll_offset_y: final(a).scroll_offset_y,
            ..*old(a)
        }),
{
    a.scroll_offset_x.set_value(index, x);
    a.scroll_offset_y.set_value(index, y);
}

/// Get the hovered state at index.
pub fn get_hovered(a: &InteractionArrays, index: usize) -> (v: bool)
    ensures
        v == a.hovered.at(index as int),
{
    a.hovered.get(index)
}

/// Set the hovered state at index.
pub fn set_hovered(a: &mut InteractionArrays, index: usize, hovered: bool)
    ensures
        old(a).hovered.written(final(a).hovered, index as int, hovered),
        *final(a) == (InteractionArrays { hovered: final(a).hovered, ..*old(a) }),
{
    a.hovered.set_value(index, hovered);
}

/// Get the pressed state at index.
pub fn get_pressed(a: &InteractionArrays, index: usize) -> (v: bool)
    ensures
        v == a.pressed.at(index as int),
{
    a.pressed.get(index)
}

/// Set the pressed state at index.
pub fn set_pressed(a: &mut InteractionArrays, index: usize, pressed: bool)
    ensures
        old(a).pressed.written(final(a).pressed, index as int, pressed),
        *final(a) == (InteractionArrays { pressed: final(a).pressed, ..*old(a) }),
{
    a.pressed.set_value(index, pressed);
}

/// Get whether mouse input is enabled at index.
pub fn get_mouse_enabled(a: &InteractionArrays, index: usize) -> (v: bool)
    ensures
        v == a.mouse_enabled.at(index as int),
{
    a.mouse_enabled.get(index)
}

/// Set whether mouse input is enabled at index.
pub fn set_mouse_enabled(a: &mut InteractionArrays, index: usize, enabled: bool)
    ensures
        old(a).mouse_enabled.written(final(a).mouse_enabled, index as int, enabled),
        *final(a) == (InteractionArrays { mouse_enabled: final(a).mouse_enabled, ..*old(a) }),
{
    a.mouse_enabled.set_value(index, enabled);
}

/// Get the input cursor position at index.
pub fn get_cursor_position(a: &InteractionArrays, index: usize) -> (v: u16)
    ensures
        v == a.cursor_position.at(index as int),
{
    a.cursor_position.get(index)
}

/// Set the input cursor position at index.
pub fn set_cursor_position(a: &mut InteractionArrays, index: usize, pos: u16)
    ensures
        old(a).cursor_position.written(final(a).cursor_position, index as int, pos),
        *final(a) == (InteractionArrays { cursor_position: final(a).cursor_position, ..*old(a) }),
{
    a.cursor_position.set_value(index, pos);
}

/// Get the cursor visibility at index.
pub fn get_cursor_visible(a: &InteractionArrays, index: usize) -> (v: bool)
    ensures
        v == a.cursor_visible.at(index as int),
{
    a.cursor_visible.get(index)
}

/// Set the cursor visibility at index.
pub fn set_cursor_visible(a: &mut InteractionArrays, index: usize, visible: bool)
    ensures
        old(a).cursor_visible.written(final(a).cursor_visible, index as int, visible),
        *final(a) == (InteractionArrays { cursor_visible: final(a).cursor_visible, ..*old(a) }),
{
    a.cursor_visible.set_value(index, visible);
}

/// Get the cursor blink rate at index.
pub fn get_cursor_blink_fps(a: &InteractionArrays, index: usize) -> (v: u8)
    ensures
        v == a.cursor_blink_fps.at(index as int),
{
    a.cursor_blink_fps.get(index)
}

/// Set the cursor blink rate at index.
pub fn set_cursor_blink_fps(a: &mut InteractionArrays, index: usize, fps: u8)
    ensures
        old(a).cursor_blink_fps.written(final(a).cursor_blink_fps, index as int, fps),
        *final(a) == (InteractionArrays { cursor_blink_fps: final(a).cursor_blink_fps, ..*old(a) }),
{
    a.cursor_blink_fps.set_value(index, fps);
}

/// Get the selection start at index.
pub fn get_selection_start(a: &InteractionArrays, index: usize) -> (v: u16)
    ensures
        v == a.selection_start.at(index as int),
{
    a.selection_start.get(index)
}

/// Set the selection start at index.
pub fn set_selection_start(a: &mut InteractionArrays, index: usize, pos: u16)
    ensures
        old(a).selection_start.written(final(a).selection_start, index as int, pos),
        *final(a) == (InteractionArrays { selection_start: final(a).selection_start, ..*old(a) }),
{
    a.selection_start.set_value(index, pos);
}

/// Get the selection end at index.
pub fn get_selection_end(a: &InteractionArrays, index: usize) -> (v: u16)
    ensures
        v == a.selection_end.at(index as int),
{
    a.selection_end.get(index)
}

/// Set the selection end at index.
pub fn set_selection_end(a: &mut InteractionArrays, index: usize, pos: u16)
    ensures
        old(a).selection_end.written(final(a).selection_end, index as int, pos),
        *final(a) == (InteractionArrays { selection_end: final(a).selection_end, ..*old(a) }),
{
    a.selection_end.set_value(index, pos);
}

/// Set the selection range at index.
pub fn set_selection(a: &mut InteractionArrays, index: usize, start: u16, end: u16)
    ensures
        old(a).selection_start.written(final(a).selection_start, index as int, start),
        old(a).selection_end.written(final(a).selection_end, index as int, end),
        *final(a) == (InteractionArrays {
            selection_start: final(a).selection_start,
            selection_end: final(a).selection_end,
            ..*old(a)
        }),
{
    a.selection_start.set_value(index, start);
    a.selection_end.set_value(index, end);
}

/// Clear the selection at index (start = end = 0).
pub fn clear_selection(a: &mut InteractionArrays, index: usize)
    ensures
        old(a).selection_start.written(final(a).selection_start, index as int, 0),
        old(a).selection_end.written(final(a).selection_end, index as int, 0),
        *final(a) == (InteractionArrays {
            selection_start: final(a).selection_start,
            selection_end: final(a).selection_end,
            ..*old(a)
        }),
{
    set_selection(a, index, 0, 0);
}

/// Whether the component at index has a non-empty selection.
pub fn has_selection(a: &InteractionArrays, index: usize) -> (b: bool)
    ensures
        b == (a.selection_start.at(index as int) != a.selection_end.at(index as int)),
{
    let start = get_selection_start(a, index);
    let end = get_selection_end(a, index);
    start != end
}

/// Get the stick-to-bottom flag at index.
pub fn get_stick_to_bottom(a: &InteractionArrays, index: usize) -> (v: bool)
    ensures
        v == a.stick_to_bottom.at(index as int),
{
    a.stick_to_bottom.get(index)
}

/// Set the stick-to-bottom flag at index.
pub fn set_stick_to_bottom(a: &mut InteractionArrays, index: usize, enabled: bool)
    ensures
        old(a).stick_to_bottom.written(final(a).stick_to_bottom, index as int, enabled),
        *final(a) == (InteractionArrays { stick_to_bottom: final(a).stick_to_bottom, ..*old(a) }),
{
    a.stick_to_bottom.set_value(index, enabled);
}

/// Get the last seen maximum vertical scroll at index.
pub fn get_prev_max_scroll_y(a: &InteractionArrays, index: usize) -> (v: u16)
    ensures
        v == a.prev_max_scroll_y.at(index as int),
{
    a.prev_max_scroll_y.get(index)
}

/// Set the last seen maximum vertical scroll at index.
pub fn set_prev_max_scroll_y(a: &mut InteractionArrays, index: usize, value: u16)
    ensures
        old(a).prev_max_scroll_y.written(final(a).prev_max_scroll_y, index as int, value),
        *final(a) == (InteractionArrays { prev_max_scroll_y: final(a).prev_max_scroll_y, ..*old(a) }),
{
    a.prev_max_scroll_y.set_value(index, value);
}

} // verus!
