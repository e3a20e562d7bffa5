//! Visual arrays: border style and color, foreground and background colors,
//! and stacking order.

use vstd::prelude::*;
use crate::engine::slot::SlotArray;
use crate::types::{BorderStyle, Rgba, rgba};

verus! {

/// Per-component visual state.
pub struct VisualArrays {
    pub border_style: SlotArray<BorderStyle>,
    pub border_color: SlotArray<Rgba>,
    pub fg_color: SlotArray<Rgba>,
    pub bg_color: SlotArray<Rgba>,
    /// Opacity, 0 (transparent) to 255 (opaque).
    pub opacity: SlotArray<u8>,
    /// Stacking order among siblings (higher draws later).
    pub z_index: SlotArray<i32>,
}

impl VisualArrays {
    /// Every array has storage for slot `index`.
    pub open spec fn has_room(&self, index: int) -> bool {
        &&& self.border_style.capacity_spec() > index
        &&& self.border_color.capacity_spec() > index
        &&& self.fg_color.capacity_spec() > index
        &&& self.bg_color.capacity_spec() > index
        &&& self.opacity.capacity_spec() > index
        &&& self.z_index.capacity_spec() > index
    }

    /// Every array carries its default: no border, terminal default colors,
    /// opaque, z-index 0.
    pub open spec fn has_defaults(&self) -> bool {
        &&& self.border_style.default_spec() == BorderStyle::NoBorder
        &&& self.border_color.default_spec() == rgba(-1, -1, -1, -1)
        &&& self.fg_color.default_spec() == rgba(-1, -1, -1, -1)
        &&& self.bg_color.default_spec() == rgba(-1, -1, -1, -1)
        &&& self.opacity.default_spec() == 255u8
        &&& self.z_index.default_spec() == 0i32
    }

    /// Fresh arrays with every slot at its default.
    pub fn new() -> (a: VisualArrays)
        ensures
            a.has_defaults(),
            forall|i: int| #[trigger] a.border_style.at(i) == BorderStyle::NoBorder,
            forall|i: int| #[trigger] a.z_index.at(i) == 0i32,
    {
        VisualArrays {
            border_style: SlotArray::new(BorderStyle::NoBorder),
            border_color: SlotArray::new(Rgba::TERMINAL_DEFAULT()),
            fg_color: SlotArray::new(Rgba::TERMINAL_DEFAULT()),
            bg_color: SlotArray::new(Rgba::TERMINAL_DEFAULT()),
            opacity: SlotArray::new(255),
            z_index: SlotArray::new(0),
        }
    }
}

/// Make room for `index`; no slot changes what it reads.
pub fn ensure_capacity(a: &mut VisualArrays, index: usize)
    ensures
        old(a).border_style.same_reads(final(a).border_style),
        old(a).border_color.same_reads(final(a).border_color),
        old(a).fg_color.same_reads(final(a).fg_color),
        old(a).bg_color.same_reads(final(a).bg_color),
        old(a).opacity.same_reads(final(a).opacity),
        old(a).z_index.same_reads(final(a).z_index),
        final(a).has_room(index as int),
{
    a.border_style.ensure_capacity(index);
    a.border_color.ensure_capacity(index);
    a.fg_color.ensure_capacity(index);
    a.bg_color.ensure_capacity(index);
    a.opacity.ensure_capacity(index);
    a.z_index.ensure_capacity(index);
}

/// Reset every slot at `index` to its default.
pub fn clear_at_index(a: &mut VisualArrays, index: usize)
    ensures
        old(a).border_style.written(final(a).border_style, index as int, old(a).border_style.default_spec()),
        old(a).border_color.written(final(a).border_color, index as int, old(a).border_color.default_spec()),
        old(a).fg_color.written(final(a).fg_color, index as int, old(a).fg_color.default_spec()),
        old(a).bg_color.written(final(a).bg_color, index as int, old(a).bg_color.default_spec()),
        old(a).opacity.written(final(a).opacity, index as int, old(a).opacity.default_spec()),
        old(a).z_index.written(final(a).z_index, index as int, old(a).z_index.default_spec()),
{
    a.border_style.clear(index);
    a.border_color.clear(index);
    a.fg_color.clear(index);
    a.bg_color.clear(index);
    a.opacity.clear(index);
    a.z_index.clear(index);
}

/// Reset every slot of every array.
pub fn reset(a: &mut VisualArrays)
    ensures
        old(a).border_style.all_default(final(a).border_style),
        old(a).border_color.all_default(final(a).border_color),
        old(a).fg_color.all_default(final(a).fg_color),
        old(a).bg_color.all_default(final(a).bg_color),
        old(a).opacity.all_default(final(a).opacity),
        old(a).z_index.all_default(final(a).z_index),
{
    a.border_style.clear_all();
    a.border_color.clear_all();
    a.fg_color.clear_all();
    a.bg_color.clear_all();
    a.opacity.clear_all();
    a.z_index.clear_all();
}

/// The border style at index.
pub fn get_border_style(a: &VisualArrays, index: usize) -> (s: BorderStyle)
    ensures
        s == a.border_style.at(index as int),
{
    a.border_style.get(index)
}

/// Set the border style at index.
pub fn set_border_style(a: &mut VisualArrays, index: usize, style: BorderStyle)
    ensures
        old(a).border_style.written(final(a).border_style, index as int, style),
        *final(a) == (VisualArrays { border_style: final(a).border_style, ..*old(a) }),
{
    a.border_style.set_value(index, style);
}

/// The border color at index.
pub fn get_border_color(a: &VisualArrays, index: usize) -> (c: Rgba)
    ensures
        c == a.border_color.at(index as int),
{
    a.border_color.get(index)
}

/// Set the border color at index.
pub fn set_border_color(a: &mut VisualArrays, index: usize, color: Rgba)
    ensures
        old(a).border_color.written(final(a).border_color, index as int, color),
        *final(a) == (VisualArrays { border_color: final(a).border_color, ..*old(a) }),
{
    a.border_color.set_value(index, color);
}

/// The foreground color at index.
pub fn get_fg_color(a: &VisualArrays, index: usize) -> (c: Rgba)
    ensures
        c == a.fg_color.at(index as int),
{
    a.fg_color.get(index)
}

/// Set the foreground color at index.
pub fn set_fg_color(a: &mut VisualArrays, index: usize, color: Rgba)
    ensures
        old(a).fg_color.written(final(a).fg_color, index as int, color),
        *final(a) == (VisualArrays { fg_color: final(a).fg_color, ..*old(a) }),
{
    a.fg_color.set_value(index, color);
}

/// The background color at index.
pub fn get_bg_color(a: &VisualArrays, index: usize) -> (c: Rgba)
    ensures
        c == a.bg_color.at(index as int),
{
    a.bg_color.get(index)
}

/// Set the background color at index.
pub fn set_bg_color(a: &mut VisualArrays, index: usize, color: Rgba)
    ensures
        old(a).bg_color.written(final(a).bg_color, index as int, color),
        *final(a) == (VisualArrays { bg_color: final(a).bg_color, ..*old(a) }),
{
    a.bg_color.set_value(index, color);
}

/// The opacity at index.
pub fn get_opacity(a: &VisualArrays, index: usize) -> (o: u8)
    ensures
        o == a.opacity.at(index as int),
{
    a.opacity.get(index)
}

/// Set the opacity at index.
pub fn set_opacity(a: &mut VisualArrays, index: usize, opacity: u8)
    ensures
        old(a).opacity.written(final(a).opacity, index as int, opacity),
        *final(a) == (VisualArrays { opacity: final(a).opacity, ..*old(a) }),
{
    a.opacity.set_value(index, opacity);
}

/// The z-index at index.
pub fn get_z_index(a: &VisualArrays, index: usize) -> (z: i32)
    ensures
        z == a.z_index.at(index as int),
{
    a.z_index.get(index)
}

/// Set the z-index at index.
pub fn set_z_index(a: &mut VisualArrays, index: usize, z: i32)
    ensures
        old(a).z_index.written(final(a).z_index, index as int, z),
        *final(a) == (VisualArrays { z_index: final(a).z_index, ..*old(a) }),
{
    a.z_index.set_value(index, z);
}

} // verus!
