//! Turning a layout into a frame: each visible component, from the roots
//! down, is placed on the screen, clipped to its ancestors, filled with its
//! background, framed by its border, given its text, and recorded as a hit
//! region.

use vstd::prelude::*;
use crate::types::{Attr, BorderStyle, Cell, ClipRect, ComponentType, Rgba, TextAlign};
use crate::engine::registry::{Registry, get_allocated_indices, is_allocated};
use crate::engine::arrays::Arrays;
use crate::engine::arrays::core_arrays::{get_visible, get_parent_index, get_component_type};
use crate::engine::arrays::visual::{get_bg_color, get_fg_color, get_border_style, get_border_color, get_opacity, get_z_index};
use crate::engine::arrays::interaction::{get_scroll_offset_x, get_scroll_offset_y};
use crate::engine::arrays::text::{get_text_content, get_text_attrs, get_text_align};
use crate::engine::flex_node_registry::get_flex_node;
use crate::layout::computed::ComputedLayout;
use crate::layout::text_measure::{char_width, char_width_spec, total_width, lemma_total_width_nonneg};
use crate::renderer::buffer::FrameBuffer;
use crate::chars::str_chars;
use crate::pipeline::frame_buffer_derived::{HitRegion, FrameBufferResult};

verus! {

/// Whether (x, y) lies in the optional clip; no clip holds every point.
pub open spec fn in_clip(clip: Option<ClipRect>, x: int, y: int) -> bool {
    match clip {
        Some(r) => r.contains_spec(x, y),
        None => true,
    }
}

/// Whether a clip rectangle ends within the 16-bit screen.
pub open spec fn clip_fits(clip: Option<ClipRect>) -> bool {
    match clip {
        Some(r) => r.x + r.width <= u16::MAX && r.y + r.height <= u16::MAX,
        None => true,
    }
}

/// A screen offset held within `i32`.
pub open spec fn bounded(v: int) -> bool {
    -0x4000_0000 <= v <= 0x4000_0000
}

/// `v` held within the bounds of `bounded`.
pub open spec fn clamp_offset_spec(v: int) -> int {
    if v < -0x4000_0000 {
        -0x4000_0000
    } else if v > 0x4000_0000 {
        0x4000_0000
    } else {
        v
    }
}

fn clamp_offset(v: i64) -> (r: i64)
    ensures
        r == clamp_offset_spec(v as int),
{
    if v < -0x4000_0000 {
        -0x4000_0000
    } else if v > 0x4000_0000 {
        0x4000_0000
    } else {
        v
    }
}

/// A screen coordinate: negative positions at 0, at most 65535.
pub open spec fn screen_coord(v: int) -> u16 {
    if v < 0 {
        0
    } else if v > 65535 {
        65535
    } else {
        v as u16
    }
}

fn screen_coord_exec(v: i64) -> (r: u16)
    ensures
        r == screen_coord(v as int),
{
    if v < 0 {
        0
    } else if v > 65535 {
        65535
    } else {
        v as u16
    }
}

/// An entry of a layout array, 0 past its end.
pub open spec fn entry_or_zero(s: Seq<u16>, i: int) -> u16 {
    if 0 <= i < s.len() {
        s[i]
    } else {
        0
    }
}

fn entry_or_zero_exec(v: &Vec<u16>, i: usize) -> (r: u16)
    ensures
        r == entry_or_zero(v@, i as int),
{
    if i < v.len() {
        v[i]
    } else {
        0
    }
}

/// The screen box (x, y, width, height) of component `index`, placed at
/// `origin` plus its layout position less the `scroll` its ancestors apply;
/// the width and height are cut where they would pass the edge of the
/// 16-bit screen. None for an invisible component or one without area.
pub open spec fn screen_box(
    arrays: &Arrays,
    layout: &ComputedLayout,
    index: usize,
    scroll: (i64, i64),
    origin: (i64, i64),
) -> Option<(u16, u16, u16, u16)> {
    let w = entry_or_zero(layout.width@, index as int);
    let h = entry_or_zero(layout.height@, index as int);
    if !arrays.core.visible.at(index as int) || w == 0 || h == 0 {
        None
    } else {
        let ax = clamp_offset_spec(origin.0 + entry_or_zero(layout.x@, index as int) - scroll.0);
        let ay = clamp_offset_spec(origin.1 + entry_or_zero(layout.y@, index as int) - scroll.1);
        let x = screen_coord(ax);
        let y = screen_coord(ay);
        let cw = if x + w > 65535 { (65535 - x) as u16 } else { w };
        let ch = if y + h > 65535 { (65535 - y) as u16 } else { h };
        Some((x, y, cw, ch))
    }
}

/// The absolute position (before clamping to the screen) of a component.
pub open spec fn absolute_origin(layout: &ComputedLayout, index: usize, scroll: (i64, i64), origin: (i64, i64)) -> (i64, i64) {
    (
        clamp_offset_spec(origin.0 + entry_or_zero(layout.x@, index as int) - scroll.0) as i64,
        clamp_offset_spec(origin.1 + entry_or_zero(layout.y@, index as int) - scroll.1) as i64,
    )
}

/// Where component `index` shows on the screen, if it shows: its screen
/// box within the clip of its ancestors. None when it is invisible, has no
/// area, or is clipped away entirely.
pub open spec fn visible_rect(
    arrays: &Arrays,
    layout: &ComputedLayout,
    index: usize,
    clip: Option<ClipRect>,
    scroll: (i64, i64),
    origin: (i64, i64),
) -> Option<ClipRect> {
    match screen_box(arrays, layout, index, scroll, origin) {
        None => None,
        Some((x, y, w, h)) => {
            let b = ClipRect { x, y, width: w, height: h };
            match clip {
                None => Some(b),
                Some(c) => if exists|px: int, py: int| b.contains_spec(px, py) && c.contains_spec(px, py) {
                    Some(b)
                } else {
                    None
                },
            }
        },
    }
}

/// The first character of a string, a space for an empty one.
fn first_char(s: &str) -> (c: char) {
    let v = str_chars(s);
    if v.len() > 0 {
        v[0]
    } else {
        ' '
    }
}

/// Draw the border of style `style` around the rectangle (x, y, w, h) in
/// `color`, within `clip`.
fn draw_border(buffer: &mut FrameBuffer, x: u16, y: u16, w: u16, h: u16, style: BorderStyle, color: Rgba, clip: ClipRect)
    requires
        old(buffer).wf(),
        x + w <= u16::MAX,
        y + h <= u16::MAX,
        w > 0,
        h > 0,
    ensures
        final(buffer).wf(),
        final(buffer).width_spec() == old(buffer).width_spec(),
        final(buffer).height_spec() == old(buffer).height_spec(),
        forall|px: int, py: int|
            0 <= px < old(buffer).width_spec() && 0 <= py < old(buffer).height_spec() && !clip.contains_spec(px, py)
                ==> #[trigger] final(buffer).cell(px, py) == old(buffer).cell(px, py),
{
    let chars = style.chars();
    let hz = first_char(chars.0) as u32;
    let vt = first_char(chars.1) as u32;
    let tl = first_char(chars.2) as u32;
    let tr = first_char(chars.3) as u32;
    let br = first_char(chars.4) as u32;
    let bl = first_char(chars.5) as u32;
    let attrs = Attr { bits: 0 };
    let right = x + w - 1;
    let bottom = y + h - 1;
    let ghost start = *buffer;
    let mut dx: u16 = 0;
    while dx < w
        invariant
            buffer.wf(),
            x + w <= u16::MAX,
            y + h <= u16::MAX,
            dx <= w,
            right == x + w - 1,
            bottom == y + h - 1,
            buffer.width_spec() == start.width_spec(),
            buffer.height_spec() == start.height_spec(),
            forall|px: int, py: int|
                0 <= px < start.width_spec() && 0 <= py < start.height_spec() && !clip.contains_spec(px, py)
                    ==> #[trigger] buffer.cell(px, py) == start.cell(px, py),
        decreases w - dx,
    {
        let px = x + dx;
        let (top_ch, bottom_ch) = if dx == 0 {
            (tl, bl)
        } else if px == right {
            (tr, br)
        } else {
            (hz, hz)
        };
        buffer.put_char(px, y, top_ch, color, attrs, clip);
        buffer.put_char(px, bottom, bottom_ch, color, attrs, clip);
        dx = dx + 1;
    }
    let mut dy: u16 = 1;
    while dy < h - 1
        invariant
            buffer.wf(),
            x + w <= u16::MAX,
            y + h <= u16::MAX,
            h > 0,
            1 <= dy <= h,
            right == x + w - 1,
            buffer.width_spec() == start.width_spec(),
            buffer.height_spec() == start.height_spec(),
            forall|px: int, py: int|
                0 <= px < start.width_spec() && 0 <= py < start.height_spec() && !clip.contains_spec(px, py)
                    ==> #[trigger] buffer.cell(px, py) == start.cell(px, py),
        decreases h - dy,
    {
        buffer.put_char(x, y + dy, vt, color, attrs, clip);
        buffer.put_char(right, y + dy, vt, color, attrs, clip);
        dy = dy + 1;
    }
}

/// Number of characters before the first newline (or the whole text).
pub open spec fn first_line_len(t: Seq<char>) -> nat
    decreases t.len(),
{
    if t.len() == 0 {
        0
    } else if t[0] == '\n' {
        0
    } else {
        1 + first_line_len(t.drop_first())
    }
}

/// A line is `e` characters long when none of them is a newline and it ends
/// at the text's end or at a newline.
proof fn lemma_first_line_len(t: Seq<char>, e: int)
    requires
        0 <= e <= t.len(),
        forall|i: int| 0 <= i < e ==> t[i] != '\n',
        e == t.len() || t[e] == '\n',
    ensures
        first_line_len(t) == e,
    decreases e,
{
    if e > 0 {
        let u = t.drop_first();
        assert forall|i: int| 0 <= i < e - 1 implies u[i] != '\n' by {
            assert(u[i] == t[i + 1]);
        }
        if e < t.len() {
            assert(u[e - 1] == t[e]);
        }
        lemma_first_line_len(u, e - 1);
    }
}

/// Column, within a content area `w` cells wide, where a line `lw` cells
/// wide (at most `w`) starts.
pub open spec fn line_start(align: TextAlign, w: int, lw: int) -> int {
    match align {
        TextAlign::Left => 0,
        TextAlign::Center => (w - lw) / 2,
        TextAlign::Right => w - lw,
    }
}

/// Where an aligned line starts: left-aligned at the left edge, right-aligned
/// so that it ends at the right edge, centred so that the free cells on its
/// two sides differ by at most one (the odd one going right); it always
/// stays within the area.
pub proof fn lemma_line_start_meaning(align: TextAlign, w: int, lw: int)
    requires
        0 <= lw <= w,
    ensures
        0 <= line_start(align, w, lw),
        line_start(align, w, lw) + lw <= w,
        align == TextAlign::Left ==> line_start(align, w, lw) == 0,
        align == TextAlign::Right ==> line_start(align, w, lw) + lw == w,
        align == TextAlign::Center ==> {
            let o = line_start(align, w, lw);
            &&& o <= w - (o + lw)
            &&& w - (o + lw) <= o + 1
        },
{
}

/// Cells taken by the first line of `t`, capped at the area width `w`.
pub open spec fn first_line_width(t: Seq<char>, w: int) -> int {
    let tw = total_width(t.take(first_line_len(t) as int));
    if tw > w { w } else { tw }
}

/// Width of the first `i` characters of `t`, less zero-width ones: the
/// column, from the start of its line, of the `i`-th character of the
/// first line.
pub open spec fn glyph_col(t: Seq<char>, i: int) -> int {
    total_width(t.take(i))
}

/// The widths of longer prefixes are no smaller.
proof fn lemma_glyph_col_mono(t: Seq<char>, a: int, b: int)
    requires
        0 <= a <= b <= t.len(),
    ensures
        glyph_col(t, a) <= glyph_col(t, b),
    decreases b - a,
{
    if a < b {
        lemma_glyph_col_mono(t, a, b - 1);
        assert(t.take(b).drop_last() =~= t.take(b - 1));
        assert(t.take(b).last() == t[b - 1]);
    }
}

/// One more character adds its width.
proof fn lemma_glyph_col_step(t: Seq<char>, i: int)
    requires
        0 <= i < t.len(),
    ensures
        glyph_col(t, i + 1) == glyph_col(t, i) + char_width_spec(t[i]),
{
    assert(t.take(i + 1).drop_last() =~= t.take(i));
    assert(t.take(i + 1).last() == t[i]);
}

/// Whether the `i`-th character of the first line of `t` is shown: the
/// area has a row, the character takes cells and ends within the width
/// after the aligned start of its line, and its cell is in the clip and
/// the grid.
pub open spec fn glyph_shown(
    buf: &FrameBuffer,
    t: Seq<char>,
    x: u16,
    y: u16,
    w: u16,
    h: u16,
    align: TextAlign,
    clip: ClipRect,
    i: int,
) -> bool {
    let o = line_start(align, w as int, first_line_width(t, w as int));
    let c = x + o + glyph_col(t, i);
    &&& h > 0
    &&& 0 <= i < first_line_len(t)
    &&& char_width_spec(t[i]) > 0
    &&& o + glyph_col(t, i + 1) <= w
    &&& clip.contains_spec(c, y as int)
    &&& c < buf.width_spec()
    &&& y < buf.height_spec()
}

/// Draw a text's lines (split at newlines) from the top-left of the content
/// area (x, y, w, h), aligned within its width, in `fg` with `attrs`, within
/// `clip`; characters past the area are not drawn. On the first row, the
/// first line starts at `line_start` of its width and each of its
/// characters that is shown lands at that start plus the widths of the
/// characters before it.
fn draw_text(buffer: &mut FrameBuffer, text: &Vec<char>, x: u16, y: u16, w: u16, h: u16, fg: Rgba, attrs: Attr, align: TextAlign, clip: ClipRect)
    requires
        old(buffer).wf(),
        x + w <= u16::MAX,
        y + h <= u16::MAX,
    ensures
        final(buffer).wf(),
        final(buffer).width_spec() == old(buffer).width_spec(),
        final(buffer).height_spec() == old(buffer).height_spec(),
        forall|px: int, py: int|
            0 <= px < old(buffer).width_spec() && 0 <= py < old(buffer).height_spec() && !clip.contains_spec(px, py)
                ==> #[trigger] final(buffer).cell(px, py) == old(buffer).cell(px, py),
        forall|i: int| #[trigger] glyph_shown(&*old(buffer), text@, x, y, w, h, align, clip, i) ==> {
            let c = x + line_start(align, w as int, first_line_width(text@, w as int)) + glyph_col(text@, i);
            &&& final(buffer).cell(c, y as int).char == text@[i] as u32
            &&& final(buffer).cell(c, y as int).fg == fg
        },
{
    let ghost start = *buffer;
    let ghost o0 = line_start(align, w as int, first_line_width(text@, w as int));
    proof {
        lemma_total_width_nonneg(text@.take(first_line_len(text@) as int));
        lemma_line_start_meaning(align, w as int, first_line_width(text@, w as int));
    }
    let mut k: usize = 0;
    let mut line: u16 = 0;
    while k < text.len() && line < h
        invariant
            buffer.wf(),
            x + w <= u16::MAX,
            y + h <= u16::MAX,
            k <= text@.len(),
            line <= h,
            line == 0 ==> k == 0,
            buffer.width_spec() == start.width_spec(),
            buffer.height_spec() == start.height_spec(),
            forall|px: int, py: int|
                0 <= px < start.width_spec() && 0 <= py < start.height_spec() && !clip.contains_spec(px, py)
                    ==> #[trigger] buffer.cell(px, py) == start.cell(px, py),
            o0 == line_start(align, w as int, first_line_width(text@, w as int)),
            0 <= o0 <= w,
            line > 0 ==> forall|i: int| #[trigger] glyph_shown(&start, text@, x, y, w, h, align, clip, i) ==> {
                &&& buffer.cell(x + o0 + glyph_col(text@, i), y as int).char == text@[i] as u32
                &&& buffer.cell(x + o0 + glyph_col(text@, i), y as int).fg == fg
            },
        decreases text@.len() - k,
    {
        // The line runs from k to the next newline.
        let mut end = k;
        let mut line_w: u32 = 0;
        while end < text.len() && text[end] != '\n'
            invariant
                k <= end <= text@.len(),
                line_w <= 2 * (end - k),
                forall|i: int| k <= i < end ==> text@[i] != '\n',
                line_w <= total_width(text@.subrange(k as int, end as int)),
                line_w < 0xFFFF_0000 ==> line_w == total_width(text@.subrange(k as int, end as int)),
            decreases text@.len() - end,
        {
            proof {
                assert(text@.subrange(k as int, end + 1).drop_last() =~= text@.subrange(k as int, end as int));
                assert(char_width_spec(text@[end as int]) >= 0);
            }
            if line_w < 0xFFFF_0000 {
                line_w = line_w + char_width(text[end]) as u32;
            }
            end = end + 1;
        }
        let lw: u16 = if line_w > w as u32 { w } else { line_w as u16 };
        proof {
            if line == 0 {
                lemma_first_line_len(text@, end as int);
                assert(text@.subrange(0, end as int) =~= text@.take(end as int));
            }
        }
        let offset: u16 = match align {
            TextAlign::Left => 0,
            TextAlign::Center => (w - lw) / 2,
            TextAlign::Right => w - lw,
        };
        assert(line == 0 ==> offset == o0);
        let ghost bi = *buffer;
        let mut col: u32 = offset as u32;
        let mut j = k;
        while j < end
            invariant
                buffer.wf(),
                x + w <= u16::MAX,
                y + h <= u16::MAX,
                line < h,
                k <= j <= end,
                end <= text@.len(),
                col <= w,
                buffer.width_spec() == start.width_spec(),
                buffer.height_spec() == start.height_spec(),
                forall|px: int, py: int|
                    0 <= px < start.width_spec() && 0 <= py < start.height_spec() && !clip.contains_spec(px, py)
                        ==> #[trigger] buffer.cell(px, py) == start.cell(px, py),
                line == 0 ==> k == 0 && offset == o0 && end == first_line_len(text@) && col == o0 + glyph_col(text@, j as int),
                o0 == line_start(align, w as int, first_line_width(text@, w as int)),
                0 <= o0 <= w,
                line == 0 ==> forall|i: int| #[trigger] glyph_shown(&start, text@, x, y, w, h, align, clip, i) && i < j ==> {
                    &&& buffer.cell(x + o0 + glyph_col(text@, i), y as int).char == text@[i] as u32
                    &&& buffer.cell(x + o0 + glyph_col(text@, i), y as int).fg == fg
                },
                line > 0 && y < start.height_spec() ==> forall|px: int| 0 <= px < start.width_spec() ==> #[trigger] buffer.cell(px, y as int) == bi.cell(px, y as int),
            ensures
                line == 0 ==> forall|i: int| #[trigger] glyph_shown(&start, text@, x, y, w, h, align, clip, i) ==> {
                    &&& buffer.cell(x + o0 + glyph_col(text@, i), y as int).char == text@[i] as u32
                    &&& buffer.cell(x + o0 + glyph_col(text@, i), y as int).fg == fg
                },
            decreases end - j,
        {
            let cw = char_width(text[j]) as u32;
            if col + cw > w as u32 {
                proof {
                    if line == 0 {
                        lemma_glyph_col_step(text@, j as int);
                        assert forall|i: int| #[trigger] glyph_shown(&start, text@, x, y, w, h, align, clip, i) implies i < j by {
                            if i >= j {
                                lemma_glyph_col_step(text@, i);
                                lemma_glyph_col_mono(text@, j + 1, i + 1);
                            }
                        }
                    }
                }
                break;
            }
            let ghost bj = *buffer;
            if cw > 0 {
                buffer.put_char(x + col as u16, y + line, text[j] as u32, fg, attrs, clip);
            }
            proof {
                if line == 0 {
                    lemma_glyph_col_step(text@, j as int);
                    assert forall|i: int| #[trigger] glyph_shown(&start, text@, x, y, w, h, align, clip, i) && i < j + 1 implies {
                        &&& buffer.cell(x + o0 + glyph_col(text@, i), y as int).char == text@[i] as u32
                        &&& buffer.cell(x + o0 + glyph_col(text@, i), y as int).fg == fg
                    } by {
                        if i < j {
                            lemma_glyph_col_step(text@, i);
                            lemma_glyph_col_mono(text@, i + 1, j as int);
                            assert(bj.cell(x + o0 + glyph_col(text@, i), y as int).char == text@[i] as u32);
                        }
                    }
                } else if y < start.height_spec() {
                    assert(y + line != y);
                    assert forall|px: int| 0 <= px < start.width_spec() implies #[trigger] buffer.cell(px, y as int) == bi.cell(
                        px,
                        y as int,
                    ) by {
                        assert(bj.cell(px, y as int) == bi.cell(px, y as int));
                    }
                }
            }
            col = col + cw;
            j = j + 1;
        }
        proof {
            if line > 0 {
                assert forall|i: int| #[trigger] glyph_shown(&start, text@, x, y, w, h, align, clip, i) implies {
                    &&& buffer.cell(x + o0 + glyph_col(text@, i), y as int).char == text@[i] as u32
                    &&& buffer.cell(x + o0 + glyph_col(text@, i), y as int).fg == fg
                } by {
                    assert(buffer.cell(x + o0 + glyph_col(text@, i), y as int) == bi.cell(x + o0 + glyph_col(text@, i), y as int));
                }
            }
        }
        line = line + 1;
        k = if end < text.len() { end + 1 } else { end };
    }
}

/// Render component `index` and, below it, its children (`children` lists
/// the visible children of each component, in drawing order), within the
/// clip its ancestors leave. The component is placed as `screen_box` says;
/// when it shows (`visible_rect`), its hit region is recorded first, then
/// its background, border and text are drawn within the clip, and its
/// children follow inside its content area, scrolled by its offsets when it
/// scrolls. Nothing outside the clip changes, and the hit regions recorded
/// before are kept. `fuel` bounds the depth of the descent.
pub fn render_component<O: Fn(Rgba, u8) -> Rgba>(
    buffer: &mut FrameBuffer,
    arrays: &Arrays,
    layout: &ComputedLayout,
    children: &Vec<Vec<usize>>,
    hit_regions: &mut Vec<HitRegion>,
    index: usize,
    clip: Option<ClipRect>,
    scroll: (i64, i64),
    origin: (i64, i64),
    apply_opacity: &O,
    fuel: usize,
)
    requires
        old(buffer).wf(),
        clip_fits(clip),
        bounded(scroll.0 as int) && bounded(scroll.1 as int),
        bounded(origin.0 as int) && bounded(origin.1 as int),
        forall|c: Rgba, o: u8| call_requires(*apply_opacity, (c, o)),
    ensures
        final(buffer).wf(),
        final(buffer).width_spec() == old(buffer).width_spec(),
        final(buffer).height_spec() == old(buffer).height_spec(),
        forall|px: int, py: int|
            0 <= px < old(buffer).width_spec() && 0 <= py < old(buffer).height_spec() && !in_clip(clip, px, py)
                ==> #[trigger] final(buffer).cell(px, py) == old(buffer).cell(px, py),
        final(hit_regions)@.len() >= old(hit_regions)@.len(),
        final(hit_regions)@.subrange(0, old(hit_regions)@.len() as int) == old(hit_regions)@,
        match visible_rect(arrays, layout, index, clip, scroll, origin) {
            Some(b) => final(hit_regions)@.len() > old(hit_regions)@.len() && final(hit_regions)@[old(hit_regions)@.len() as int]
                == (HitRegion { x: b.x, y: b.y, width: b.width, height: b.height, component_index: index }),
            None => final(hit_regions)@ == old(hit_regions)@ && *final(buffer) == *old(buffer),
        },
    decreases fuel,
{
    let ghost start = *buffer;
    let ghost regions0 = hit_regions@;
    assert(regions0.subrange(0, regions0.len() as int) =~= regions0);
    if !get_visible(&arrays.core, index) {
        return;
    }
    let w = entry_or_zero_exec(&layout.width, index);
    let h = entry_or_zero_exec(&layout.height, index);
    if w == 0 || h == 0 {
        return;
    }
    let ax = clamp_offset(origin.0 + entry_or_zero_exec(&layout.x, index) as i64 - scroll.0);
    let ay = clamp_offset(origin.1 + entry_or_zero_exec(&layout.y, index) as i64 - scroll.1);
    let x = screen_coord_exec(ax);
    let y = screen_coord_exec(ay);
    let cw: u16 = if x as u32 + w as u32 > 65535 { 65535 - x } else { w };
    let ch: u16 = if y as u32 + h as u32 > 65535 { 65535 - y } else { h };
    let bounds = ClipRect::new(x, y, cw, ch);
    let eff = match clip {
        Some(c) => match bounds.intersect(&c) {
            Some(e) => e,
            None => {
                proof {
                    let b = ClipRect { x, y, width: cw, height: ch };
                    assert(!(exists|px: int, py: int| b.contains_spec(px, py) && c.contains_spec(px, py)));
                }
                return;
            },
        },
        None => bounds,
    };
    proof {
        let b = ClipRect { x, y, width: cw, height: ch };
        if let Some(c) = clip {
            assert(eff.contains_spec(eff.x as int, eff.y as int));
            assert(b.contains_spec(eff.x as int, eff.y as int) && c.contains_spec(eff.x as int, eff.y as int));
        }
        assert(visible_rect(arrays, layout, index, clip, scroll, origin) == Some(b));
    }
    hit_regions.push(HitRegion { x, y, width: cw, height: ch, component_index: index });
    let ghost regions1 = hit_regions@;
    assert(regions1.subrange(0, regions0.len() as int) =~= regions0);
    // Every point of the effective clip lies in the ancestors' clip.
    assert(forall|px: int, py: int| eff.contains_spec(px, py) ==> in_clip(clip, px, py));
    let opacity = get_opacity(&arrays.visual, index);
    let bg = apply_opacity(get_bg_color(&arrays.visual, index), opacity);
    let fg = apply_opacity(get_fg_color(&arrays.visual, index), opacity);
    if bg.a > 0 && !bg.is_terminal_default() {
        buffer.fill_bg(eff, bg);
    }
    let style = get_border_style(&arrays.visual, index);
    if style != BorderStyle::NoBorder && cw > 0 && ch > 0 {
        let bc = apply_opacity(get_border_color(&arrays.visual, index), opacity);
        draw_border(buffer, x, y, cw, ch, style, bc, eff);
    }
    let (pt, pr, pb, pl, bt, br, bb, bl) = match get_flex_node(&arrays.flex, index) {
        Some(node) => (
            node.padding_top,
            node.padding_right,
            node.padding_bottom,
            node.padding_left,
            if node.border_top > 0 { 1u16 } else { 0u16 },
            if node.border_right > 0 { 1u16 } else { 0u16 },
            if node.border_bottom > 0 { 1u16 } else { 0u16 },
            if node.border_left > 0 { 1u16 } else { 0u16 },
        ),
        None => (0u16, 0u16, 0u16, 0u16, 0u16, 0u16, 0u16, 0u16),
    };
    let top = pt.saturating_add(bt);
    let right = pr.saturating_add(br);
    let bottom = pb.saturating_add(bb);
    let left = pl.saturating_add(bl);
    let content_x = x.saturating_add(left);
    let content_y = y.saturating_add(top);
    let content_w = cw.saturating_sub(left).saturating_sub(right);
    let content_h = ch.saturating_sub(top).saturating_sub(bottom);
    let mut child_clip = eff;
    if content_w > 0 && content_h > 0 && content_x as u32 + content_w as u32 <= 65535 && content_y as u32 + content_h as u32 <= 65535 {
        let content = ClipRect::new(content_x, content_y, content_w, content_h);
        if let Some(cc) = content.intersect(&eff) {
            child_clip = cc;
            if get_component_type(&arrays.core, index) == ComponentType::Text {
                let text = str_chars(get_text_content(&arrays.text, index).as_str());
                let attrs = get_text_attrs(&arrays.text, index);
                let align = get_text_align(&arrays.text, index);
                draw_text(buffer, &text, content_x, content_y, content_w, content_h, fg, attrs, align, cc);
            }
        }
    }
    if fuel > 0 && index < children.len() {
        let scrolls = index < layout.scrollable.len() && layout.scrollable[index] == 1;
        let sx: i64 = if scrolls { get_scroll_offset_x(&arrays.interaction, index) as i64 } else { 0 };
        let sy: i64 = if scrolls { get_scroll_offset_y(&arrays.interaction, index) as i64 } else { 0 };
        let child_scroll = (clamp_offset(scroll.0 + sx), clamp_offset(scroll.1 + sy));
        let kids = &children[index];
        let mut k: usize = 0;
        while k < kids.len()
            invariant
                buffer.wf(),
                buffer.width_spec() == start.width_spec(),
                buffer.height_spec() == start.height_spec(),
                clip_fits(Some(child_clip)),
                forall|px: int, py: int| child_clip.contains_spec(px, py) ==> in_clip(clip, px, py),
                forall|px: int, py: int|
                    0 <= px < start.width_spec() && 0 <= py < start.height_spec() && !in_clip(clip, px, py)
                        ==> #[trigger] buffer.cell(px, py) == start.cell(px, py),
                hit_regions@.len() >= regions1.len(),
                hit_regions@.subrange(0, regions1.len() as int) == regions1,
                bounded(child_scroll.0 as int) && bounded(child_scroll.1 as int),
                bounded(ax as int) && bounded(ay as int),
                forall|c: Rgba, o: u8| call_requires(*apply_opacity, (c, o)),
                fuel > 0,
            decreases kids.len() - k,
        {
            let ghost before = *buffer;
            let ghost rb = hit_regions@;
            render_component(
                buffer,
                arrays,
                layout,
                children,
                hit_regions,
                kids[k],
                Some(child_clip),
                child_scroll,
                (ax, ay),
                apply_opacity,
                fuel - 1,
            );
            proof {
                assert(hit_regions@.subrange(0, rb.len() as int) == rb);
                assert(hit_regions@.subrange(0, regions1.len() as int) =~= rb.subrange(0, regions1.len() as int));
            }
            k = k + 1;
        }
    }
    proof {
        assert(hit_regions@[regions0.len() as int] == regions1[regions0.len() as int]);
        assert(hit_regions@.subrange(0, regions0.len() as int) =~= regions1.subrange(0, regions0.len() as int));
    }
}


/// Sort indices by z-index, keeping the order of equal ones (lower z-index
/// draws first).
fn sort_by_z(arrays: &Arrays, v: &mut Vec<usize>)
    ensures
        final(v)@.len() == old(v)@.len(),
{
    let mut i: usize = 1;
    while i < v.len()
        invariant
            v@.len() == old(v)@.len(),
        decreases v@.len() - i,
    {
        let mut j = i;
        while j > 0 && get_z_index(&arrays.visual, v[j - 1]) > get_z_index(&arrays.visual, v[j])
            invariant
                v@.len() == old(v)@.len(),
                j <= i < v@.len(),
            decreases j,
        {
            let a = v[j - 1];
            let b = v[j];
            v.set(j - 1, b);
            v.set(j, a);
            j = j - 1;
        }
        i = i + 1;
    }
}

/// Render a frame `tw` cells wide and `bh` high for a terminal of `tw` by
/// `th`: the visible allocated components without a parent are the roots,
/// and every visible allocated component is a child of its parent; roots
/// and the children of each component are drawn in index order, stably
/// sorted by z-index, each root with no clip, scroll or offset (see
/// `render_component`). The buffer has the asked size; with nothing
/// allocated no hit region is recorded.
pub fn render_frame<O: Fn(Rgba, u8) -> Rgba>(
    reg: &Registry,
    arrays: &Arrays,
    layout: &ComputedLayout,
    tw: u16,
    th: u16,
    bh: u16,
    apply_opacity: &O,
) -> (r: FrameBufferResult)
    requires
        reg.wf(),
        forall|c: Rgba, o: u8| call_requires(*apply_opacity, (c, o)),
    ensures
        r.buffer.wf(),
        r.buffer.width_spec() == tw,
        r.buffer.height_spec() == bh,
        r.terminal_size == (tw, th),
        reg.allocated_spec().len() == 0 ==> r.hit_regions@.len() == 0,
{
    let mut buffer = FrameBuffer::new(tw, bh);
    let mut hit_regions: Vec<HitRegion> = Vec::new();
    let alloc = get_allocated_indices(reg);
    let mut n: usize = 0;
    let mut a: usize = 0;
    while a < alloc.len()
        invariant
            a <= alloc@.len(),
            forall|k: int| 0 <= k < alloc@.len() ==> (#[trigger] alloc@[k]) < reg.next_index_spec(),
            reg.next_index_spec() <= usize::MAX,
            n <= reg.next_index_spec(),
            alloc@.len() == 0 ==> n == 0,
        decreases alloc@.len() - a,
    {
        if alloc[a] + 1 > n {
            n = alloc[a] + 1;
        }
        a = a + 1;
    }
    let mut children: Vec<Vec<usize>> = Vec::new();
    while children.len() < n
        invariant
            children@.len() <= n,
        decreases n - children@.len(),
    {
        children.push(Vec::new());
    }
    let mut roots: Vec<usize> = Vec::new();
    let mut i: usize = 0;
    while i < n
        invariant
            i <= n,
            children@.len() == n,
            n == 0 ==> roots@.len() == 0,
        decreases n - i,
    {
        if is_allocated(reg, i) && get_visible(&arrays.core, i) {
            match get_parent_index(&arrays.core, i) {
                Some(p) => {
                    if p < n {
                        let mut list = children[p].clone();
                        list.push(i);
                        children.set(p, list);
                    }
                },
                None => {
                    roots.push(i);
                },
            }
        }
        i = i + 1;
    }
    sort_by_z(arrays, &mut roots);
    let mut p: usize = 0;
    while p < n
        invariant
            p <= n,
            children@.len() == n,
            n == 0 ==> roots@.len() == 0,
        decreases n - p,
    {
        let mut list = children[p].clone();
        sort_by_z(arrays, &mut list);
        children.set(p, list);
        p = p + 1;
    }
    let mut r: usize = 0;
    while r < roots.len()
        invariant
            buffer.wf(),
            buffer.width_spec() == tw,
            buffer.height_spec() == bh,
            forall|c: Rgba, o: u8| call_requires(*apply_opacity, (c, o)),
            alloc@.len() == 0 ==> hit_regions@.len() == 0 && roots@.len() == 0,
        decreases roots.len() - r,
    {
        render_component(&mut buffer, arrays, layout, &children, &mut hit_regions, roots[r], None, (0, 0), (0, 0), apply_opacity, n);
        r = r + 1;
    }
    FrameBufferResult { buffer, hit_regions, terminal_size: (tw, th) }
}

} // verus!
