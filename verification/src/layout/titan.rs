//! TITAN: flexbox layout over the parallel arrays.
//!
//! 1. Build the tree from parent relationships (children in index order).
//! 2. Breadth-first order: parents before children.
//! 3. Intrinsic sizes, bottom-up.
//! 4. Layout, top-down, with flex lines, grow/shrink, justify and align.
//! 5. Absolutely positioned components.
//!
//! Sums of cell counts that would pass the largest 16-bit value are capped
//! there.

use vstd::prelude::*;
use crate::types::{ComponentType, Dimension, Overflow};
use crate::engine::registry::{Registry, get_allocated_indices};
use crate::engine::arrays::Arrays;
use crate::engine::arrays::core_arrays::{CoreArrays, get_visible, get_parent_index, get_component_type};
use crate::engine::arrays::text::get_text_content;
use crate::engine::flex_node::FlexNode;
use crate::engine::flex_node_registry::get_flex_node;
use crate::layout::computed::ComputedLayout;
use crate::layout::text_measure::{string_width, measure_text_height, string_width_spec, text_height_spec};

verus! {

pub const FLEX_ROW: u8 = 1;
pub const FLEX_COLUMN_REVERSE: u8 = 2;
pub const FLEX_ROW_REVERSE: u8 = 3;
pub const WRAP_NOWRAP: u8 = 0;
pub const JUSTIFY_CENTER: u8 = 1;
pub const JUSTIFY_END: u8 = 2;
pub const JUSTIFY_BETWEEN: u8 = 3;
pub const JUSTIFY_AROUND: u8 = 4;
pub const JUSTIFY_EVENLY: u8 = 5;
pub const ALIGN_STRETCH: u8 = 0;
pub const ALIGN_CENTER: u8 = 2;
pub const ALIGN_END: u8 = 3;
pub const POS_RELATIVE: u8 = 0;
pub const POS_ABSOLUTE: u8 = 1;
pub const ALIGN_SELF_AUTO: u8 = 0;

// =============================================================================
// Arithmetic on cell counts
// =============================================================================

/// A cell count capped at the largest 16-bit value.
pub open spec fn cap(v: int) -> u16 {
    if v > 65535 { 65535u16 } else if v < 0 { 0u16 } else { v as u16 }
}

/// `a - b`, or 0 when `b` is larger.
pub open spec fn minus(a: int, b: int) -> u16 {
    cap(a - b)
}

/// Capped sum.
fn cadd(a: u16, b: u16) -> (r: u16)
    ensures
        r == cap(a + b),
{
    let s: u32 = a as u32 + b as u32;
    if s > 65535 { 65535 } else { s as u16 }
}

/// Capped sum of three.
fn cadd3(a: u16, b: u16, c: u16) -> (r: u16)
    ensures
        r == cap(a + b + c),
{
    let s: u32 = a as u32 + b as u32 + c as u32;
    if s > 65535 { 65535 } else { s as u16 }
}

/// Capped sum of four.
fn cadd4(a: u16, b: u16, c: u16, d: u16) -> (r: u16)
    ensures
        r == cap(a + b + c + d),
{
    let s: u32 = a as u32 + b as u32 + c as u32 + d as u32;
    if s > 65535 { 65535 } else { s as u16 }
}

/// `a - b`, or 0.
fn csub(a: u16, b: u16) -> (r: u16)
    ensures
        r == minus(a as int, b as int),
{
    if a >= b { a - b } else { 0 }
}

// =============================================================================
// Dimensions
// =============================================================================

/// A dimension in cells: `Auto` is 0, a percentage is taken of the parent's
/// size and rounded down (capped at the largest 16-bit value).
pub open spec fn resolve_dimension_spec(dim: Dimension, parent_size: u16) -> u16 {
    match dim {
        Dimension::Auto => 0u16,
        Dimension::Cells(n) => n,
        Dimension::Percent(p) => cap(parent_size * p / 100),
    }
}

/// Resolve a dimension to cells.
pub fn resolve_dimension(dim: Dimension, parent_size: u16) -> (r: u16)
    ensures
        r == resolve_dimension_spec(dim, parent_size),
{
    match dim {
        Dimension::Auto => 0,
        Dimension::Cells(n) => n,
        Dimension::Percent(p) => {
            assert(parent_size as int * p as int <= 65535 * 65535) by (nonlinear_arith)
                requires
                    parent_size <= 65535,
                    p <= 65535,
            ;
            let prod: u64 = parent_size as u64 * p as u64;
            let v: u64 = prod / 100;
            if v > 65535 { 65535 } else { v as u16 }
        },
    }
}

/// A size kept within a minimum and a maximum; a bound that resolves to 0
/// does not apply.
pub open spec fn clamp_dimension_spec(value: u16, min_dim: Dimension, max_dim: Dimension, parent_size: u16) -> u16 {
    let min = resolve_dimension_spec(min_dim, parent_size);
    let max = resolve_dimension_spec(max_dim, parent_size);
    let lo = if min > 0 && value < min { min } else { value };
    if max > 0 && lo > max { max } else { lo }
}

/// Apply min/max constraints to a size.
pub fn clamp_dimension(value: u16, min_dim: Dimension, max_dim: Dimension, parent_size: u16) -> (r: u16)
    ensures
        r == clamp_dimension_spec(value, min_dim, max_dim, parent_size),
{
    let min = resolve_dimension(min_dim, parent_size);
    let max = resolve_dimension(max_dim, parent_size);
    let mut result = value;
    if min > 0 && result < min {
        result = min;
    }
    if max > 0 && result > max {
        result = max;
    }
    result
}

/// A border takes one cell when it has any width.
pub open spec fn border_cells(b: u16) -> u16 {
    if b > 0 { 1u16 } else { 0u16 }
}

fn border_cells_exec(b: u16) -> (r: u16)
    ensures
        r == border_cells(b),
{
    if b > 0 { 1 } else { 0 }
}

/// Padding plus border, left and right.
pub open spec fn extra_w(n: FlexNode) -> u16 {
    cap(n.padding_left + n.padding_right + border_cells(n.border_left) + border_cells(n.border_right))
}

/// Padding plus border, top and bottom.
pub open spec fn extra_h(n: FlexNode) -> u16 {
    cap(n.padding_top + n.padding_bottom + border_cells(n.border_top) + border_cells(n.border_bottom))
}

fn extra_w_exec(n: &FlexNode) -> (r: u16)
    ensures
        r == extra_w(*n),
{
    cadd4(n.padding_left, n.padding_right, border_cells_exec(n.border_left), border_cells_exec(n.border_right))
}

fn extra_h_exec(n: &FlexNode) -> (r: u16)
    ensures
        r == extra_h(*n),
{
    cadd4(n.padding_top, n.padding_bottom, border_cells_exec(n.border_top), border_cells_exec(n.border_bottom))
}

/// Whether an overflow code scrolls (scroll or auto).
pub open spec fn scrolls(overflow: u8) -> bool {
    overflow == 2 || overflow == 3
}

fn scrolls_exec(overflow: u8) -> (b: bool)
    ensures
        b == scrolls(overflow),
{
    let o = Overflow::from(overflow);
    match o {
        Overflow::Scroll => true,
        Overflow::Auto => true,
        _ => false,
    }
}

// =============================================================================
// Justify and align
// =============================================================================

/// Start offset and spacing of the items of a line: `remaining` is the free
/// space on the line, `count` its number of items.
pub open spec fn justify_spec(justify: u8, remaining: u16, count: u16, gap: u16) -> (u16, u16) {
    if justify == JUSTIFY_CENTER {
        ((remaining / 2) as u16, gap)
    } else if justify == JUSTIFY_END {
        (remaining, gap)
    } else if justify == JUSTIFY_BETWEEN {
        if count > 1 {
            (0u16, cap((remaining as int) / (count - 1) + gap))
        } else {
            (0u16, gap)
        }
    } else if justify == JUSTIFY_AROUND {
        let around = (remaining as int) / (count as int);
        ((around / 2) as u16, cap(around + gap))
    } else if justify == JUSTIFY_EVENLY {
        let even = (remaining as int) / (count + 1);
        (even as u16, cap(even + gap))
    } else {
        (0u16, gap)
    }
}

/// Start offset and spacing of a line's items.
pub fn justify_offsets(justify: u8, remaining: u16, count: u16, gap: u16) -> (r: (u16, u16))
    requires
        count > 0,
    ensures
        r == justify_spec(justify, remaining, count, gap),
{
    if justify == JUSTIFY_CENTER {
        (remaining / 2, gap)
    } else if justify == JUSTIFY_END {
        (remaining, gap)
    } else if justify == JUSTIFY_BETWEEN {
        if count > 1 {
            (0, cadd(remaining / (count - 1), gap))
        } else {
            (0, gap)
        }
    } else if justify == JUSTIFY_AROUND {
        let around: u16 = remaining / count;
        (around / 2, cadd(around, gap))
    } else if justify == JUSTIFY_EVENLY {
        let even: u16 = (remaining as u32 / (count as u32 + 1)) as u16;
        (even, cadd(even, gap))
    } else {
        (0, gap)
    }
}

/// Offset of an item across its line: centered or at the end of the line
/// height, else at the start.
pub open spec fn cross_offset_spec(align: u8, line_height: u16, size_cross: u16) -> u16 {
    if align == ALIGN_CENTER {
        (minus(line_height as int, size_cross as int) / 2) as u16
    } else if align == ALIGN_END {
        minus(line_height as int, size_cross as int)
    } else {
        0u16
    }
}

fn cross_offset(align: u8, line_height: u16, size_cross: u16) -> (r: u16)
    ensures
        r == cross_offset_spec(align, line_height, size_cross),
{
    if align == ALIGN_CENTER {
        csub(line_height, size_cross) / 2
    } else if align == ALIGN_END {
        csub(line_height, size_cross)
    } else {
        0
    }
}

/// Where an item sits across its line: with END its far edge meets the
/// line's far edge, with CENTER the free space is split evenly (the near
/// side taking the smaller half), with any other alignment (START,
/// STRETCH) it sits at the line start; an item that does not fit sits at
/// the start, and one that fits stays inside the line.
pub proof fn lemma_cross_offset_meaning(align: u8, line_height: u16, size_cross: u16)
    ensures
        size_cross <= line_height ==> cross_offset_spec(align, line_height, size_cross) + size_cross <= line_height,
        align == ALIGN_END && size_cross <= line_height ==> cross_offset_spec(align, line_height, size_cross)
            + size_cross == line_height,
        align == ALIGN_CENTER && size_cross <= line_height ==> {
            let r = cross_offset_spec(align, line_height, size_cross) as int;
            &&& r <= line_height - size_cross - r
            &&& line_height - size_cross - r <= r + 1
        },
        align != ALIGN_END && align != ALIGN_CENTER ==> cross_offset_spec(align, line_height, size_cross) == 0,
        size_cross > line_height ==> cross_offset_spec(align, line_height, size_cross) == 0,
{
}

// =============================================================================
// Flex lines
// =============================================================================

/// Line breaking over the items' main sizes: (finished lines as
/// (first, last, used main size), start of the current line, main size used
/// by the current line including a trailing gap).
pub open spec fn lines_scan(mains: Seq<u16>, wrap: bool, gap: u16, main_size: u16) -> (Seq<(int, int, u16)>, int, u16)
    decreases mains.len(),
{
    if mains.len() == 0 {
        (Seq::empty(), 0, 0u16)
    } else {
        let fi = mains.len() - 1;
        let (done, start, cur) = lines_scan(mains.drop_last(), wrap, gap, main_size);
        let m = mains.last();
        if wrap && fi > start && cur + m + gap > main_size {
            (done.push((start, fi - 1, minus(cur as int, gap as int))), fi, cap(m + gap))
        } else {
            (done, start, cap(cur + cap(m + gap)))
        }
    }
}

/// The flex lines of the items: each (first item, last item, main size used).
pub open spec fn flex_lines_spec(mains: Seq<u16>, wrap: bool, gap: u16, main_size: u16) -> Seq<(int, int, u16)> {
    if mains.len() == 0 {
        Seq::empty()
    } else {
        let (done, start, cur) = lines_scan(mains, wrap, gap, main_size);
        done.push((start, mains.len() - 1, minus(cur as int, gap as int)))
    }
}

/// Break items into flex lines.
pub fn flex_lines(mains: &Vec<u16>, wrap: bool, gap: u16, main_size: u16) -> (lines: Vec<(usize, usize, u16)>)
    ensures
        lines@.len() == flex_lines_spec(mains@, wrap, gap, main_size).len(),
        forall|k: int| 0 <= k < lines@.len() ==> {
            let l = #[trigger] lines@[k];
            let s = flex_lines_spec(mains@, wrap, gap, main_size)[k];
            l.0 as int == s.0 && l.1 as int == s.1 && l.2 == s.2
        },
        mains@.len() > 0 ==> lines@.len() > 0,
        forall|k: int| 0 <= k < lines@.len() ==> (#[trigger] lines@[k]).0 <= lines@[k].1 < mains@.len(),
{
    let mut lines: Vec<(usize, usize, u16)> = Vec::new();
    if mains.len() == 0 {
        return lines;
    }
    let mut start: usize = 0;
    let mut cur: u16 = 0;
    let mut fi: usize = 0;
    assert(mains@.take(0) =~= Seq::<u16>::empty());
    while fi < mains.len()
        invariant
            fi <= mains@.len(),
            mains@.len() > 0,
            lines@.len() == lines_scan(mains@.take(fi as int), wrap, gap, main_size).0.len(),
            forall|k: int| 0 <= k < lines@.len() ==> {
                let l = #[trigger] lines@[k];
                let d = lines_scan(mains@.take(fi as int), wrap, gap, main_size).0[k];
                l.0 as int == d.0 && l.1 as int == d.1 && l.2 == d.2
            },
            start as int == lines_scan(mains@.take(fi as int), wrap, gap, main_size).1,
            cur == lines_scan(mains@.take(fi as int), wrap, gap, main_size).2,
            start <= fi,
            fi > 0 ==> start < fi,
            forall|k: int| 0 <= k < lines@.len() ==> (#[trigger] lines@[k]).0 <= lines@[k].1 < fi,
        decreases mains.len() - fi,
    {
        let m = mains[fi];
        let ghost prefix = mains@.take(fi + 1);
        let ghost prev = lines_scan(mains@.take(fi as int), wrap, gap, main_size);
        proof {
            assert(prefix.drop_last() =~= mains@.take(fi as int));
            assert(prefix.last() == m);
            assert(prefix.len() - 1 == fi);
        }
        if wrap && fi > start && (cur as u32 + m as u32 + gap as u32) > main_size as u32 {
            lines.push((start, fi - 1, csub(cur, gap)));
            start = fi;
            cur = cadd(m, gap);
            proof {
                let now = lines_scan(prefix, wrap, gap, main_size);
                assert(now.0 == prev.0.push((prev.1, fi - 1, minus(prev.2 as int, gap as int))));
                assert forall|k: int| 0 <= k < lines@.len() implies {
                    let l = #[trigger] lines@[k];
                    let d = now.0[k];
                    l.0 as int == d.0 && l.1 as int == d.1 && l.2 == d.2
                } by {
                    if k < lines@.len() - 1 {
                        assert(now.0[k] == prev.0[k]);
                    }
                }
            }
        } else {
            cur = cadd(cur, cadd(m, gap));
            proof {
                let now = lines_scan(prefix, wrap, gap, main_size);
                assert(now.0 == prev.0);
            }
        }
        fi = fi + 1;
    }
    assert(mains@.take(mains@.len() as int) =~= mains@);
    lines.push((start, mains.len() - 1, csub(cur, gap)));
    lines
}

// =============================================================================
// Grow and shrink
// =============================================================================

/// An item's main size after growing or shrinking: with free space and some
/// grow factor, it gains its share of the space (rounded down); with a
/// shortfall, some shrink factor, and a container that does not scroll, it
/// loses its share.
pub open spec fn flexed_main_spec(
    base: u16,
    grow: u16,
    total_grow: int,
    shrink: u16,
    total_shrink: int,
    free_space: int,
    scrollable: bool,
) -> u16 {
    if free_space > 0 && total_grow > 0 {
        cap(base + cap(grow * free_space / total_grow))
    } else if free_space < 0 && total_shrink > 0 && !scrollable {
        minus(base as int, cap(shrink * (-free_space) / total_shrink) as int)
    } else {
        base
    }
}

/// Apply grow or shrink to an item's main size.
pub fn flexed_main(
    base: u16,
    grow: u16,
    total_grow: u128,
    shrink: u16,
    total_shrink: u128,
    free_space: i32,
    scrollable: bool,
) -> (r: u16)
    requires
        -65535 <= free_space <= 65535,
    ensures
        r == flexed_main_spec(base, grow, total_grow as int, shrink, total_shrink as int, free_space as int, scrollable),
{
    if free_space > 0 && total_grow > 0 {
        let f: u64 = free_space as u64;
        assert(grow as int * f as int <= 65535 * 65535) by (nonlinear_arith)
            requires
                grow <= 65535,
                f <= 65535,
        ;
        let share: u128 = (grow as u128 * f as u128) / total_grow;
        let s16: u16 = if share > 65535 { 65535 } else { share as u16 };
        cadd(base, s16)
    } else if free_space < 0 && total_shrink > 0 && !scrollable {
        let f: u64 = (0 - free_space) as u64;
        assert(shrink as int * f as int <= 65535 * 65535) by (nonlinear_arith)
            requires
                shrink <= 65535,
                f <= 65535,
        ;
        let share: u128 = (shrink as u128 * f as u128) / total_shrink;
        let s16: u16 = if share > 65535 { 65535 } else { share as u16 };
        csub(base, s16)
    } else {
        base
    }
}

// =============================================================================
// Working arrays
// =============================================================================

/// Working arrays of the layout, kept between runs to reuse their storage.
pub struct TitanArrays {
    /// First child of each component, in index order.
    pub first_child: Vec<Option<usize>>,
    /// Next sibling of each component.
    pub next_sibling: Vec<Option<usize>>,
    /// Last child so far of each component.
    pub last_child: Vec<Option<usize>>,
    /// Intrinsic sizes.
    pub intrinsic_w: Vec<u16>,
    pub intrinsic_h: Vec<u16>,
    /// Main and cross sizes of flex items after grow/shrink.
    pub item_main: Vec<u16>,
    pub item_cross: Vec<u16>,
}

impl TitanArrays {
    /// Whether every working array is empty.
    pub closed spec fn is_empty(&self) -> bool {
        &&& self.first_child@.len() == 0
        &&& self.next_sibling@.len() == 0
        &&& self.last_child@.len() == 0
        &&& self.intrinsic_w@.len() == 0
        &&& self.intrinsic_h@.len() == 0
        &&& self.item_main@.len() == 0
        &&& self.item_cross@.len() == 0
    }

    /// The intrinsic height held for component `i`.
    pub closed spec fn intrinsic_height(&self, i: int) -> u16 {
        self.intrinsic_h@[i]
    }

    /// Empty working arrays.
    pub fn new() -> (t: TitanArrays)
        ensures
            t.is_empty(),
    {
        TitanArrays {
            first_child: Vec::new(),
            next_sibling: Vec::new(),
            last_child: Vec::new(),
            intrinsic_w: Vec::new(),
            intrinsic_h: Vec::new(),
            item_main: Vec::new(),
            item_cross: Vec::new(),
        }
    }

    /// Working arrays well formed for `n` components: every array has `n`
    /// entries and sibling chains run forward within them.
    closed spec fn sized(&self, n: nat) -> bool {
        &&& self.first_child@.len() == n
        &&& self.next_sibling@.len() == n
        &&& self.last_child@.len() == n
        &&& self.intrinsic_w@.len() == n
        &&& self.intrinsic_h@.len() == n
        &&& self.item_main@.len() == n
        &&& self.item_cross@.len() == n
        &&& forall|i: int| 0 <= i < n ==> match #[trigger] self.first_child@[i] {
            Some(c) => c < n,
            None => true,
        }
        &&& forall|i: int| 0 <= i < n ==> match #[trigger] self.last_child@[i] {
            Some(c) => c < n,
            None => true,
        }
        &&& forall|i: int| 0 <= i < n ==> match #[trigger] self.next_sibling@[i] {
            Some(c) => i < c < n,
            None => true,
        }
    }
}

/// Free the layout's working arrays.
pub fn reset_titan_arrays(ws: &mut TitanArrays)
    ensures
        final(ws).is_empty(),
{
    *ws = TitanArrays::new();
}


// =============================================================================
// Index set
// =============================================================================

/// Distinct values below `n` number at most `n`.
proof fn lemma_distinct_below(s: Seq<usize>, n: nat)
    requires
        s.no_duplicates(),
        forall|k: int| 0 <= k < s.len() ==> s[k] < n,
    ensures
        s.len() <= n,
    decreases n,
{
    if n == 0 {
        if s.len() > 0 {
            assert(s[0] < 0);
        }
    } else if exists|k: int| 0 <= k < s.len() && s[k] == n - 1 {
        let k = choose|k: int| 0 <= k < s.len() && s[k] == n - 1;
        let t = s.remove(k);
        assert forall|a: int, b: int| 0 <= a < t.len() && 0 <= b < t.len() && a != b implies t[a] != t[b] by {
            let a2 = if a < k { a } else { a + 1 };
            let b2 = if b < k { b } else { b + 1 };
            assert(t[a] == s[a2]);
            assert(t[b] == s[b2]);
        }
        assert forall|a: int| 0 <= a < t.len() implies t[a] < n - 1 by {
            let a2 = if a < k { a } else { a + 1 };
            assert(t[a] == s[a2]);
            assert(a2 != k);
        }
        lemma_distinct_below(t, (n - 1) as nat);
    } else {
        lemma_distinct_below(s, (n - 1) as nat);
    }
}

/// The allocated indices in increasing order, which allocated index is
/// which, and one past the largest (0 when none is allocated).
fn present_indices(reg: &Registry) -> (r: (Vec<usize>, Vec<bool>, usize))
    requires
        reg.wf(),
    ensures
        r.1@.len() == r.2,
        forall|i: int| 0 <= i < r.2 ==> (r.1@[i] <==> reg.is_allocated_spec(i)),
        forall|i: int| reg.is_allocated_spec(i) ==> i < r.2,
        forall|k: int| 0 <= k < r.0@.len() ==> (#[trigger] r.0@[k]) < r.2 && reg.is_allocated_spec(r.0@[k] as int),
        forall|a: int, b: int| 0 <= a < b < r.0@.len() ==> (#[trigger] r.0@[a]) < (#[trigger] r.0@[b]),
        forall|i: int| reg.is_allocated_spec(i) ==> r.0@.contains(i as usize),
        r.2 == 0 <==> reg.allocated_spec().len() == 0,
        r.2 > 0 ==> reg.is_allocated_spec(r.2 - 1),
{
    let alloc = get_allocated_indices(reg);
    let mut n: usize = 0;
    let mut k: usize = 0;
    while k < alloc.len()
        invariant
            k <= alloc@.len(),
            alloc@ == reg.allocated_spec(),
            forall|j: int| 0 <= j < alloc@.len() ==> (#[trigger] alloc@[j]) < reg.next_index_spec(),
            reg.next_index_spec() <= usize::MAX,
            forall|j: int| 0 <= j < k ==> (#[trigger] alloc@[j]) < n,
            n > 0 ==> exists|j: int| 0 <= j < k && alloc@[j] == n - 1,
            k == 0 ==> n == 0,
            k > 0 ==> n > 0,
        decreases alloc.len() - k,
    {
        if alloc[k] >= n {
            n = alloc[k] + 1;
        }
        k = k + 1;
    }
    let mut present: Vec<bool> = Vec::new();
    while present.len() < n
        invariant
            present@.len() <= n,
            forall|i: int| 0 <= i < present@.len() ==> !present@[i],
        decreases n - present.len(),
    {
        present.push(false);
    }
    let mut k: usize = 0;
    while k < alloc.len()
        invariant
            k <= alloc@.len(),
            alloc@ == reg.allocated_spec(),
            present@.len() == n,
            forall|j: int| 0 <= j < alloc@.len() ==> (#[trigger] alloc@[j]) < n,
            forall|i: int| 0 <= i < n ==> (present@[i] <==> exists|j: int| 0 <= j < k && alloc@[j] == i),
        decreases alloc.len() - k,
    {
        let a = alloc[k];
        present.set(a, true);
        proof {
            assert forall|i: int| 0 <= i < n implies (present@[i] <==> exists|j: int| 0 <= j < k + 1 && alloc@[j] == i) by {
                if i == a {
                    assert(alloc@[k as int] == i);
                }
            }
        }
        k = k + 1;
    }
    assert forall|i: int| 0 <= i < n implies (present@[i] <==> reg.is_allocated_spec(i)) by {
        if present@[i] {
            let j = choose|j: int| 0 <= j < alloc@.len() && alloc@[j] == i;
            assert(reg.allocated_spec().contains(i as usize));
        }
        if reg.is_allocated_spec(i) {
            let j = choose|j: int| 0 <= j < alloc@.len() && alloc@[j] == i as usize;
            assert(alloc@[j] == i);
        }
    }
    assert forall|i: int| reg.is_allocated_spec(i) implies i < n by {
        let j = choose|j: int| 0 <= j < alloc@.len() && alloc@[j] == i as usize;
        assert(alloc@[j] < n);
    }
    let mut indices: Vec<usize> = Vec::new();
    let mut i: usize = 0;
    while i < n
        invariant
            i <= n,
            present@.len() == n,
            forall|m: int| 0 <= m < n ==> (present@[m] <==> reg.is_allocated_spec(m)),
            forall|k: int| 0 <= k < indices@.len() ==> (#[trigger] indices@[k]) < i && reg.is_allocated_spec(indices@[k] as int),
            forall|a: int, b: int| 0 <= a < b < indices@.len() ==> (#[trigger] indices@[a]) < (#[trigger] indices@[b]),
            forall|m: int| 0 <= m < i && reg.is_allocated_spec(m) ==> indices@.contains(m as usize),
        decreases n - i,
    {
        let ghost before = indices@;
        if present[i] {
            indices.push(i);
            assert(indices@[indices@.len() - 1] == i);
        }
        proof {
            assert forall|m: int| 0 <= m < i + 1 && reg.is_allocated_spec(m) implies indices@.contains(m as usize) by {
                if m == i {
                    assert(present@[m]);
                    assert(indices@[indices@.len() - 1] == i);
                } else {
                    assert(before.contains(m as usize));
                    let w = choose|w: int| 0 <= w < before.len() && before[w] == m as usize;
                    assert(indices@[w] == before[w]);
                }
            }
        }
        i = i + 1;
    }
    proof {
        if n > 0 {
            let j = choose|j: int| 0 <= j < alloc@.len() && alloc@[j] == n - 1;
            assert(reg.allocated_spec().contains((n - 1) as usize));
        }
        if reg.allocated_spec().len() > 0 {
            assert(alloc@[0] < n);
        }
    }
    (indices, present, n)
}

// =============================================================================
// Tree
// =============================================================================

/// Whether `i` is a root of the layout: allocated, visible, and without an
/// allocated parent.
pub open spec fn is_layout_root(reg: &Registry, core: &CoreArrays, i: int) -> bool {
    &&& reg.is_allocated_spec(i)
    &&& core.visible.at(i)
    &&& match core.parent_index.at(i) {
        Some(p) => !reg.is_allocated_spec(p as int),
        None => true,
    }
}

impl TitanArrays {
    /// Child links agree with the parent array: a first child, last child or
    /// next sibling has the expected parent.
    pub closed spec fn links_agree(&self, core: &CoreArrays, n: nat) -> bool {
        &&& forall|i: int| 0 <= i < n ==> match #[trigger] self.first_child@[i] {
            Some(c) => core.parent_index.at(c as int) == Some(i as usize),
            None => true,
        }
        &&& forall|i: int| 0 <= i < n ==> match #[trigger] self.last_child@[i] {
            Some(c) => core.parent_index.at(c as int) == Some(i as usize),
            None => true,
        }
        &&& forall|i: int| 0 <= i < n ==> match #[trigger] self.next_sibling@[i] {
            Some(c) => core.parent_index.at(c as int) == core.parent_index.at(i),
            None => true,
        }
    }
}

impl TitanArrays {
    /// Every linked child or sibling is an allocated component.
    closed spec fn links_allocated(&self, reg: &Registry, n: nat) -> bool {
        &&& forall|i: int| 0 <= i < n ==> match #[trigger] self.first_child@[i] {
            Some(c) => reg.is_allocated_spec(c as int),
            None => true,
        }
        &&& forall|i: int| 0 <= i < n ==> match #[trigger] self.next_sibling@[i] {
            Some(c) => reg.is_allocated_spec(c as int),
            None => true,
        }
    }
}

/// Fresh working arrays for `n` components.
fn prepare(ws: &mut TitanArrays, n: usize)
    ensures
        final(ws).sized(n as nat),
        forall|i: int| 0 <= i < n ==> (#[trigger] final(ws).first_child@[i]) is None,
        forall|i: int| 0 <= i < n ==> (#[trigger] final(ws).last_child@[i]) is None,
        forall|i: int| 0 <= i < n ==> (#[trigger] final(ws).next_sibling@[i]) is None,
        forall|i: int| 0 <= i < n ==> #[trigger] final(ws).intrinsic_w@[i] == 0 && final(ws).intrinsic_h@[i] == 0
            && final(ws).item_main@[i] == 0 && final(ws).item_cross@[i] == 0,
{
    *ws = TitanArrays::new();
    let mut i: usize = 0;
    while i < n
        invariant
            i <= n,
            ws.first_child@.len() == i,
            ws.next_sibling@.len() == i,
            ws.last_child@.len() == i,
            ws.intrinsic_w@.len() == i,
            ws.intrinsic_h@.len() == i,
            ws.item_main@.len() == i,
            ws.item_cross@.len() == i,
            forall|j: int| 0 <= j < i ==> (#[trigger] ws.first_child@[j]) is None,
            forall|j: int| 0 <= j < i ==> (#[trigger] ws.last_child@[j]) is None,
            forall|j: int| 0 <= j < i ==> (#[trigger] ws.next_sibling@[j]) is None,
            forall|j: int| 0 <= j < i ==> #[trigger] ws.intrinsic_w@[j] == 0 && ws.intrinsic_h@[j] == 0
                && ws.item_main@[j] == 0 && ws.item_cross@[j] == 0,
        decreases n - i,
    {
        ws.first_child.push(None);
        ws.next_sibling.push(None);
        ws.last_child.push(None);
        ws.intrinsic_w.push(0);
        ws.intrinsic_h.push(0);
        ws.item_main.push(0);
        ws.item_cross.push(0);
        i = i + 1;
    }
}

/// Pass 1: link each visible component into its allocated parent's child
/// list, in index order; return the roots in index order.
fn build_tree(ws: &mut TitanArrays, reg: &Registry, core: &CoreArrays, indices: &Vec<usize>, present: &Vec<bool>, n: usize) -> (roots: Vec<usize>)
    requires
        old(ws).sized(n as nat),
        forall|i: int| 0 <= i < n ==> (#[trigger] old(ws).first_child@[i]) is None,
        forall|i: int| 0 <= i < n ==> (#[trigger] old(ws).last_child@[i]) is None,
        forall|i: int| 0 <= i < n ==> (#[trigger] old(ws).next_sibling@[i]) is None,
        present@.len() == n,
        forall|i: int| 0 <= i < n ==> (present@[i] <==> reg.is_allocated_spec(i)),
        forall|i: int| reg.is_allocated_spec(i) ==> i < n,
        forall|k: int| 0 <= k < indices@.len() ==> (#[trigger] indices@[k]) < n && reg.is_allocated_spec(indices@[k] as int),
        forall|a: int, b: int| 0 <= a < b < indices@.len() ==> (#[trigger] indices@[a]) < (#[trigger] indices@[b]),
        forall|i: int| reg.is_allocated_spec(i) ==> indices@.contains(i as usize),
    ensures
        final(ws).sized(n as nat),
        final(ws).links_agree(core, n as nat),
        final(ws).intrinsic_w@ == old(ws).intrinsic_w@,
        final(ws).intrinsic_h@ == old(ws).intrinsic_h@,
        final(ws).item_main@ == old(ws).item_main@,
        final(ws).item_cross@ == old(ws).item_cross@,
        forall|q: int| 0 <= q < n && present@[q] ==> #[trigger] children_spec(&*final(ws), q as usize, n as nat) == kids_upto(
            core,
            indices@,
            indices@.len() as int,
            q as usize,
        ),
        forall|i: int| 0 <= i < n && (#[trigger] final(ws).first_child@[i]) is Some ==> reg.is_allocated_spec(i),
        final(ws).links_allocated(reg, n as nat),
        roots@.no_duplicates(),
        forall|k: int| 0 <= k < roots@.len() ==> (#[trigger] roots@[k]) < n && is_layout_root(reg, core, roots@[k] as int),
        forall|i: int| is_layout_root(reg, core, i) ==> roots@.contains(i as usize),
        forall|a: int, b: int| 0 <= a < b < roots@.len() ==> (#[trigger] roots@[a]) < (#[trigger] roots@[b]),
{
    let mut roots: Vec<usize> = Vec::new();
    let mut t: usize = 0;
    while t < indices.len()
        invariant
            t <= indices@.len(),
            ws.sized(n as nat),
            ws.links_agree(core, n as nat),
            ws.intrinsic_w@ == old(ws).intrinsic_w@,
            ws.intrinsic_h@ == old(ws).intrinsic_h@,
            ws.item_main@ == old(ws).item_main@,
            ws.item_cross@ == old(ws).item_cross@,
            present@.len() == n,
            forall|i: int| 0 <= i < n ==> (present@[i] <==> reg.is_allocated_spec(i)),
            forall|i: int| reg.is_allocated_spec(i) ==> i < n,
            forall|k: int| 0 <= k < indices@.len() ==> (#[trigger] indices@[k]) < n && reg.is_allocated_spec(indices@[k] as int),
            forall|a: int, b: int| 0 <= a < b < indices@.len() ==> (#[trigger] indices@[a]) < (#[trigger] indices@[b]),
            forall|i: int| 0 <= i < n ==> match #[trigger] ws.last_child@[i] {
                Some(c) => t > 0 && c <= indices@[t - 1],
                None => ws.first_child@[i] is None,
            },
            forall|i: int| 0 <= i < n ==> match #[trigger] ws.first_child@[i] {
                Some(c) => ws.last_child@[i] is Some && reg.is_allocated_spec(i),
                None => true,
            },
            forall|i: int| 0 <= i < n ==> match #[trigger] ws.next_sibling@[i] {
                Some(c) => t > 0 && c <= indices@[t - 1],
                None => true,
            },
            ws.links_allocated(reg, n as nat),
            forall|k: int| 0 <= k < roots@.len() ==> (#[trigger] roots@[k]) < n && is_layout_root(reg, core, roots@[k] as int),
            forall|k: int| 0 <= k < roots@.len() ==> t > 0 && (#[trigger] roots@[k]) <= indices@[t - 1],
            forall|a: int, b: int| 0 <= a < b < roots@.len() ==> (#[trigger] roots@[a]) < (#[trigger] roots@[b]),
            forall|k: int| 0 <= k < t && is_layout_root(reg, core, (#[trigger] indices@[k]) as int) ==> roots@.contains(indices@[k]),
            forall|j: int| 0 <= j < n && ws.next_sibling@[j] is Some ==> #[trigger] linked_before(indices@, t as int, j),
            forall|q: int| 0 <= q < n && present@[q] ==> #[trigger] children_spec(ws, q as usize, n as nat) == kids_upto(
                core,
                indices@,
                t as int,
                q as usize,
            ),
            forall|q: int| 0 <= q < n && present@[q] && #[trigger] kids_upto(core, indices@, t as int, q as usize).len() > 0
                ==> ws.last_child@[q] == Some(kids_upto(core, indices@, t as int, q as usize).last())
                && ws.next_sibling@[kids_upto(core, indices@, t as int, q as usize).last() as int] is None,
        decreases indices.len() - t,
    {
        let i = indices[t];
        let ghost roots_before = roots@;
        let ghost w0 = *ws;
        proof {
            if t > 0 {
                assert(indices@[t - 1] < i);
            }
        }
        if get_visible(core, i) {
            let parent = get_parent_index(core, i);
            let mut linked = false;
            if let Some(p) = parent {
                if p < n && present[p] {
                    linked = true;
                    match ws.first_child[p] {
                        None => {
                            ws.first_child.set(p, Some(i));
                        },
                        Some(_) => {
                            match ws.last_child[p] {
                                Some(l) => {
                                    ws.next_sibling.set(l, Some(i));
                                },
                                None => {},
                            }
                        },
                    }
                    ws.last_child.set(p, Some(i));
                }
            }
            if !linked {
                roots.push(i);
                assert(roots@[roots@.len() - 1] == i);
            }
        }
        proof {
            lemma_build_step(&w0, &*ws, core, indices@, present@, t as int, n as nat);
            assert forall|k: int| 0 <= k < t + 1 && is_layout_root(reg, core, (#[trigger] indices@[k]) as int) implies roots@.contains(indices@[k]) by {
                if k == t {
                    assert(roots@[roots@.len() - 1] == i);
                } else {
                    assert(roots_before.contains(indices@[k]));
                    let w = choose|w: int| 0 <= w < roots_before.len() && roots_before[w] == indices@[k];
                    assert(roots@[w] == roots_before[w]);
                }
            }
        }
        t = t + 1;
    }
    assert forall|i: int| is_layout_root(reg, core, i) implies roots@.contains(i as usize) by {
        assert(indices@.contains(i as usize));
        let k = choose|k: int| 0 <= k < indices@.len() && indices@[k] == i as usize;
        assert(is_layout_root(reg, core, indices@[k] as int));
    }
    assert(roots@.no_duplicates()) by {
        assert forall|a: int, b: int| 0 <= a < roots@.len() && 0 <= b < roots@.len() && a != b implies roots@[a] != roots@[b] by {
            if a < b {
                assert(roots@[a] < roots@[b]);
            } else {
                assert(roots@[b] < roots@[a]);
            }
        }
    }
    roots
}



/// The sibling chain from `c`: `c`, then along the next-sibling links
/// while they lead forward within the first `n` indices (in well-formed
/// working arrays they always do).
pub open spec fn chain_from(next: Seq<Option<usize>>, c: usize, n: nat) -> Seq<usize>
    decreases n - c,
{
    if c >= n {
        Seq::empty()
    } else {
        seq![c] + match next[c as int] {
            Some(d) => if c < d && d < n {
                chain_from(next, d, n)
            } else {
                Seq::empty()
            },
            None => Seq::empty(),
        }
    }
}

/// The visible members of `indices[0..t]` whose parent is `p`, in order:
/// the children pass 1 links under an allocated `p`.
spec fn kids_upto(core: &CoreArrays, indices: Seq<usize>, t: int, p: usize) -> Seq<usize>
    decreases t,
{
    if t <= 0 {
        Seq::empty()
    } else {
        let r = kids_upto(core, indices, t - 1, p);
        let i = indices[t - 1];
        if core.visible.at(i as int) && core.parent_index.at(i as int) == Some(p) {
            r.push(i)
        } else {
            r
        }
    }
}

/// `kids_upto` is increasing, lies within the first `t` indices, and holds
/// exactly the visible ones among them whose parent is `p`.
proof fn lemma_kids_upto(core: &CoreArrays, indices: Seq<usize>, t: int, p: usize)
    requires
        0 <= t <= indices.len(),
        forall|a: int, b: int| 0 <= a < b < indices.len() ==> (#[trigger] indices[a]) < (#[trigger] indices[b]),
    ensures
        forall|a: int, b: int| 0 <= a < b < kids_upto(core, indices, t, p).len() ==> (#[trigger] kids_upto(core, indices, t, p)[a])
            < (#[trigger] kids_upto(core, indices, t, p)[b]),
        forall|k: int| 0 <= k < kids_upto(core, indices, t, p).len() ==> t > 0 && (#[trigger] kids_upto(core, indices, t, p)[k])
            <= indices[t - 1],
        forall|c: usize| #[trigger] kids_upto(core, indices, t, p).contains(c) <==> (exists|m: int| 0 <= m < t && indices[m] == c)
            && core.visible.at(c as int) && core.parent_index.at(c as int) == Some(p),
    decreases t,
{
    if t > 0 {
        lemma_kids_upto(core, indices, t - 1, p);
        let r = kids_upto(core, indices, t - 1, p);
        let i = indices[t - 1];
        let kk = kids_upto(core, indices, t, p);
        assert forall|k: int| 0 <= k < kk.len() implies t > 0 && (#[trigger] kk[k]) <= indices[t - 1] by {
            if k < r.len() {
                assert(kk[k] == r[k]);
                assert(indices[t - 2] < indices[t - 1]);
            }
        }
        assert forall|a: int, b: int| 0 <= a < b < kk.len() implies (#[trigger] kk[a]) < (#[trigger] kk[b]) by {
            if b < r.len() {
                assert(kk[a] == r[a] && kk[b] == r[b]);
            } else {
                assert(kk[a] == r[a]);
                assert(r[a] <= indices[t - 2]);
                assert(indices[t - 2] < indices[t - 1]);
            }
        }
        assert forall|c: usize| #[trigger] kk.contains(c) <==> (exists|m: int| 0 <= m < t && indices[m] == c) && core.visible.at(
            c as int,
        ) && core.parent_index.at(c as int) == Some(p) by {
            if kk.contains(c) {
                let w = choose|w: int| 0 <= w < kk.len() && kk[w] == c;
                if w < r.len() {
                    assert(r[w] == c);
                    assert(r.contains(c));
                    let m = choose|m: int| 0 <= m < t - 1 && indices[m] == c;
                    assert(0 <= m < t && indices[m] == c);
                } else {
                    assert(c == i);
                    assert(indices[t - 1] == c);
                }
            }
            if (exists|m: int| 0 <= m < t && indices[m] == c) && core.visible.at(c as int) && core.parent_index.at(c as int) == Some(p) {
                let m = choose|m: int| 0 <= m < t && indices[m] == c;
                if m < t - 1 {
                    assert(r.contains(c));
                    let w = choose|w: int| 0 <= w < r.len() && r[w] == c;
                    assert(kk[w] == c);
                } else {
                    assert(kk[kk.len() - 1] == c);
                }
            }
        }
    }
}

/// Whether index `j` is among the first `t` of `indices` (at most the
/// `t`-th, as they increase).
spec fn linked_before(indices: Seq<usize>, t: int, j: int) -> bool {
    t > 0 && j <= indices[t - 1]
}

/// One step of pass 1: linking `indices[t]` under its parent when it is
/// visible and its parent allocated keeps every allocated parent's chain
/// equal to `kids_upto`.
proof fn lemma_build_step(w0: &TitanArrays, w1: &TitanArrays, core: &CoreArrays, indices: Seq<usize>, present: Seq<bool>, t: int, n: nat)
    requires
        0 <= t < indices.len(),
        n <= usize::MAX,
        present.len() == n,
        forall|k: int| 0 <= k < indices.len() ==> (#[trigger] indices[k]) < n,
        forall|a: int, b: int| 0 <= a < b < indices.len() ==> (#[trigger] indices[a]) < (#[trigger] indices[b]),
        w0.sized(n),
        w0.links_agree(core, n),
        forall|j: int| 0 <= j < n && w0.next_sibling@[j] is Some ==> #[trigger] linked_before(indices, t, j),
        forall|q: int| 0 <= q < n && present[q] ==> #[trigger] children_spec(w0, q as usize, n) == kids_upto(core, indices, t, q as usize),
        forall|q: int| 0 <= q < n && present[q] && #[trigger] kids_upto(core, indices, t, q as usize).len() > 0
            ==> w0.last_child@[q] == Some(kids_upto(core, indices, t, q as usize).last())
            && w0.next_sibling@[kids_upto(core, indices, t, q as usize).last() as int] is None,
        ({
            let i = indices[t];
            if core.visible.at(i as int) && (core.parent_index.at(i as int) matches Some(p) && p < n && present[p as int]) {
                let p = core.parent_index.at(i as int)->0;
                &&& w1.first_child@ == (if w0.first_child@[p as int] is None {
                    w0.first_child@.update(p as int, Some(i))
                } else {
                    w0.first_child@
                })
                &&& w1.next_sibling@ == (if w0.first_child@[p as int] is None {
                    w0.next_sibling@
                } else {
                    match w0.last_child@[p as int] {
                        Some(l) => w0.next_sibling@.update(l as int, Some(i)),
                        None => w0.next_sibling@,
                    }
                })
                &&& w1.last_child@ == w0.last_child@.update(p as int, Some(i))
            } else {
                &&& w1.first_child@ == w0.first_child@
                &&& w1.next_sibling@ == w0.next_sibling@
                &&& w1.last_child@ == w0.last_child@
            }
        }),
    ensures
        forall|j: int| 0 <= j < n && w1.next_sibling@[j] is Some ==> #[trigger] linked_before(indices, t + 1, j),
        forall|q: int| 0 <= q < n && present[q] ==> #[trigger] children_spec(w1, q as usize, n) == kids_upto(core, indices, t + 1, q as usize),
        forall|q: int| 0 <= q < n && present[q] && #[trigger] kids_upto(core, indices, t + 1, q as usize).len() > 0
            ==> w1.last_child@[q] == Some(kids_upto(core, indices, t + 1, q as usize).last())
            && w1.next_sibling@[kids_upto(core, indices, t + 1, q as usize).last() as int] is None,
{
    let i = indices[t];
    assert(t > 0 ==> indices[t - 1] < i);
    assert(w0.next_sibling@[i as int] is None) by {
        if w0.next_sibling@[i as int] is Some {
            assert(linked_before(indices, t, i as int));
        }
    }
    let linked = core.visible.at(i as int) && (core.parent_index.at(i as int) matches Some(p) && p < n && present[p as int]);
    assert forall|j: int| 0 <= j < n && w1.next_sibling@[j] is Some implies #[trigger] linked_before(indices, t + 1, j) by {
        if w0.next_sibling@[j] is Some {
            assert(linked_before(indices, t, j));
        } else {
            assert(linked);
            let p = core.parent_index.at(i as int)->0;
            assert(w0.first_child@[p as int] is Some);
            let f = w0.first_child@[p as int]->0;
            lemma_kids_upto(core, indices, t, p);
            let k0 = kids_upto(core, indices, t, p);
            assert(children_spec(w0, p, n) == k0);
            assert(chain_from(w0.next_sibling@, f, n).len() > 0);
            assert(k0.len() > 0);
            assert(w0.last_child@[p as int] == Some(k0.last()));
            assert(j == k0.last() as int);
            assert(k0[k0.len() - 1] <= indices[t - 1]);
        }
    }
    assert forall|q: int| 0 <= q < n && present[q] implies #[trigger] children_spec(w1, q as usize, n) == kids_upto(
        core,
        indices,
        t + 1,
        q as usize,
    ) by {
        let qq = q as usize;
        lemma_kids_upto(core, indices, t, qq);
        let k0 = kids_upto(core, indices, t, qq);
        assert(children_spec(w0, qq, n) == k0);
        if linked && core.parent_index.at(i as int) == Some(qq) {
            if w0.first_child@[q] is None {
                assert(chain_from(w1.next_sibling@, i, n) =~= seq![i]);
                assert(k0.len() == 0);
                assert(kids_upto(core, indices, t + 1, qq) =~= seq![i]);
            } else {
                let f = w0.first_child@[q]->0;
                assert(k0.len() > 0);
                let l = k0.last();
                assert(k0[k0.len() - 1] == l);
                assert(l <= indices[t - 1]);
                assert forall|k: int| 0 <= k < chain_from(w0.next_sibling@, f, n).len() implies #[trigger] chain_from(
                    w0.next_sibling@,
                    f,
                    n,
                )[k] <= l by {
                    if k < k0.len() - 1 {
                        assert(k0[k] < k0[k0.len() - 1]);
                    }
                }
                lemma_chain_append(w0.next_sibling@, f, n, l, i);
            }
        } else if linked {
            let p = core.parent_index.at(i as int)->0;
            if w0.first_child@[p as int] is Some {
                lemma_kids_upto(core, indices, t, p);
                let kp = kids_upto(core, indices, t, p);
                assert(children_spec(w0, p, n) == kp);
                assert(kp.len() > 0);
                let l = kp.last();
                assert(kp.contains(l)) by {
                    assert(kp[kp.len() - 1] == l);
                }
                assert(core.parent_index.at(l as int) == Some(p));
                match w0.first_child@[q] {
                    Some(f) => {
                        assert(!chain_from(w0.next_sibling@, f, n).contains(l)) by {
                            if k0.contains(l) {
                                assert(core.parent_index.at(l as int) == Some(qq));
                            }
                        }
                        lemma_chain_unchanged(w0.next_sibling@, f, n, l, Some(i));
                    },
                    None => {},
                }
            }
        }
    }
    assert forall|q: int| 0 <= q < n && present[q] && #[trigger] kids_upto(core, indices, t + 1, q as usize).len() > 0
        implies w1.last_child@[q] == Some(kids_upto(core, indices, t + 1, q as usize).last())
        && w1.next_sibling@[kids_upto(core, indices, t + 1, q as usize).last() as int] is None by {
        let qq = q as usize;
        let k0 = kids_upto(core, indices, t, qq);
        if linked && core.parent_index.at(i as int) == Some(qq) {
            assert(kids_upto(core, indices, t + 1, qq).last() == i);
            if w0.first_child@[q] is Some {
                let f = w0.first_child@[q]->0;
                lemma_kids_upto(core, indices, t, qq);
                assert(children_spec(w0, qq, n) == k0);
                assert(chain_from(w0.next_sibling@, f, n).len() > 0);
                assert(k0.len() > 0);
                assert(w0.last_child@[q] == Some(k0.last()));
                assert(k0[k0.len() - 1] <= indices[t - 1]);
            }
            assert(w1.next_sibling@[i as int] is None);
        } else {
            assert(kids_upto(core, indices, t + 1, qq) == k0);
            let l = k0.last();
            if linked {
                let p = core.parent_index.at(i as int)->0;
                if w0.first_child@[p as int] is Some {
                    lemma_kids_upto(core, indices, t, p);
                    lemma_kids_upto(core, indices, t, qq);
                    let kp = kids_upto(core, indices, t, p);
                    assert(kp.len() > 0) by {
                        assert(children_spec(w0, p, n) == kp);
                    }
                    assert(kp.contains(kp.last())) by {
                        assert(kp[kp.len() - 1] == kp.last());
                    }
                    assert(k0.contains(l)) by {
                        assert(k0[k0.len() - 1] == l);
                    }
                    assert(kp.last() != l);
                }
            }
        }
    }
}

/// Linking `i` after the last member `l` of a chain extends the chain by
/// `i`.
proof fn lemma_chain_append(next: Seq<Option<usize>>, c: usize, n: nat, l: usize, i: usize)
    requires
        c < n,
        chain_from(next, c, n).last() == l,
        next[l as int] is None,
        l < i < n,
        next[i as int] is None,
        l < next.len(),
        i < next.len(),
        forall|k: int| 0 <= k < chain_from(next, c, n).len() ==> #[trigger] chain_from(next, c, n)[k] <= l,
    ensures
        chain_from(next.update(l as int, Some(i)), c, n) == chain_from(next, c, n).push(i),
    decreases n - c,
{
    let nx = next.update(l as int, Some(i));
    let ch = chain_from(next, c, n);
    if c == l {
        assert(chain_from(nx, i, n) == seq![i] + Seq::<usize>::empty());
        assert(ch =~= seq![c]);
        assert(chain_from(nx, c, n) =~= seq![c] + seq![i]);
    } else {
        assert(ch[0] == c);
        assert(c <= l);
        match next[c as int] {
            Some(d) => {
                if c < d && d < n {
                    let rest = chain_from(next, d, n);
                    assert(ch == seq![c] + rest);
                    assert(rest.last() == l);
                    assert forall|k: int| 0 <= k < rest.len() implies #[trigger] rest[k] <= l by {
                        assert(ch[k + 1] == rest[k]);
                    }
                    lemma_chain_append(next, d, n, l, i);
                    assert(nx[c as int] == Some(d));
                    assert(chain_from(nx, c, n) =~= seq![c] + rest.push(i));
                } else {
                    assert(ch =~= seq![c]);
                }
            },
            None => {
                assert(ch =~= seq![c]);
            },
        }
    }
}

/// Changing the link of an index outside a chain leaves the chain as it is.
proof fn lemma_chain_unchanged(next: Seq<Option<usize>>, c: usize, n: nat, l: usize, x: Option<usize>)
    requires
        !chain_from(next, c, n).contains(l),
        l < next.len(),
        n <= next.len(),
    ensures
        chain_from(next.update(l as int, x), c, n) == chain_from(next, c, n),
    decreases n - c,
{
    let nx = next.update(l as int, x);
    if c < n {
        let ch = chain_from(next, c, n);
        assert(ch[0] == c);
        assert(c != l);
        assert(nx[c as int] == next[c as int]);
        match next[c as int] {
            Some(d) => {
                if c < d && d < n {
                    let rest = chain_from(next, d, n);
                    assert(ch == seq![c] + rest);
                    assert(!rest.contains(l)) by {
                        if rest.contains(l) {
                            let w = choose|w: int| 0 <= w < rest.len() && rest[w] == l;
                            assert(ch[w + 1] == l);
                        }
                    }
                    lemma_chain_unchanged(next, d, n, l, x);
                }
            },
            None => {},
        }
    }
}

/// The children of `parent` as the working arrays link them: the sibling
/// chain from its first child.
pub open spec fn children_spec(ws: &TitanArrays, parent: usize, n: nat) -> Seq<usize> {
    match ws.first_child@[parent as int] {
        Some(f) => chain_from(ws.next_sibling@, f, n),
        None => Seq::empty(),
    }
}

/// The chain from `cur`, if any.
spec fn chain_rest(ws: &TitanArrays, cur: Option<usize>, n: nat) -> Seq<usize> {
    match cur {
        Some(c) => chain_from(ws.next_sibling@, c, n),
        None => Seq::empty(),
    }
}

/// The children of `parent`, in index order: its sibling chain, from its
/// first child along the next-sibling links to the end.
fn kids_of(ws: &TitanArrays, core: &CoreArrays, n: usize, parent: usize) -> (kids: Vec<usize>)
    requires
        ws.sized(n as nat),
        ws.links_agree(core, n as nat),
        parent < n,
    ensures
        kids@ == children_spec(ws, parent, n as nat),
        kids@.len() == 0 <==> ws.first_child@[parent as int] is None,
        kids@.len() > 0 ==> ws.first_child@[parent as int] == Some(kids@[0]),
        forall|k: int| 0 <= k < kids@.len() - 1 ==> ws.next_sibling@[(#[trigger] kids@[k]) as int] == Some(kids@[k + 1]),
        kids@.len() > 0 ==> ws.next_sibling@[kids@[kids@.len() - 1] as int] is None,
        forall|k: int| 0 <= k < kids@.len() ==> (#[trigger] kids@[k]) < n && core.parent_index.at(kids@[k] as int) == Some(parent),
        forall|a: int, b: int| 0 <= a < b < kids@.len() ==> (#[trigger] kids@[a]) < (#[trigger] kids@[b]),
        kids@.len() > 0 ==> ws.first_child@[parent as int] is Some,
        forall|r: Registry| #[trigger] ws.links_allocated(&r, n as nat) ==> forall|k: int| 0 <= k < kids@.len()
            ==> r.is_allocated_spec((#[trigger] kids@[k]) as int),
{
    let mut kids: Vec<usize> = Vec::new();
    let mut cur: Option<usize> = ws.first_child[parent];
    while cur.is_some()
        invariant
            ws.sized(n as nat),
            ws.links_agree(core, n as nat),
            parent < n,
            match cur {
                Some(c) => c < n && core.parent_index.at(c as int) == Some(parent)
                    && forall|k: int| 0 <= k < kids@.len() ==> (#[trigger] kids@[k]) < c,
                None => true,
            },
            forall|k: int| 0 <= k < kids@.len() ==> (#[trigger] kids@[k]) < n && core.parent_index.at(kids@[k] as int) == Some(parent),
            forall|a: int, b: int| 0 <= a < b < kids@.len() ==> (#[trigger] kids@[a]) < (#[trigger] kids@[b]),
            kids@.len() > 0 ==> ws.first_child@[parent as int] is Some,
            kids@.len() > 0 ==> ws.first_child@[parent as int] == Some(kids@[0]),
            forall|k: int| 0 <= k < kids@.len() - 1 ==> ws.next_sibling@[(#[trigger] kids@[k]) as int] == Some(kids@[k + 1]),
            kids@.len() == 0 ==> cur == ws.first_child@[parent as int],
            kids@ + chain_rest(ws, cur, n as nat) == children_spec(ws, parent, n as nat),
            kids@.len() > 0 ==> cur == ws.next_sibling@[kids@[kids@.len() - 1] as int],
            forall|r: Registry| #[trigger] ws.links_allocated(&r, n as nat) ==> forall|k: int| 0 <= k < kids@.len()
                ==> r.is_allocated_spec((#[trigger] kids@[k]) as int),
        decreases (match cur {
            Some(c) => n - c,
            None => 0,
        }),
    {
        let k = cur.unwrap();
        let ghost before = kids@;
        kids.push(k);
        cur = ws.next_sibling[k];
        proof {
            assert(kids@[kids@.len() - 1] == k);
            assert(chain_from(ws.next_sibling@, k, n as nat) == seq![k] + chain_rest(ws, cur, n as nat));
            assert(before + (seq![k] + chain_rest(ws, cur, n as nat)) =~= kids@ + chain_rest(ws, cur, n as nat));
        }
    }
    kids
}

/// The parent of the `k`-th queued component was queued before it.
pub open spec fn parent_earlier(core: &CoreArrays, q: Seq<usize>, k: int) -> bool {
    exists|j: int| 0 <= j < k && core.parent_index.at(q[k] as int) == Some(#[trigger] q[j])
}

/// The `k`-th queued component is a linked child of one queued before it.
pub open spec fn child_earlier(ws: &TitanArrays, q: Seq<usize>, k: int, n: nat) -> bool {
    exists|j: int| 0 <= j < k && children_spec(ws, #[trigger] q[j], n).contains(q[k])
}

/// Pass 2: breadth-first order from the roots, parents before children.
fn bfs_order(ws: &TitanArrays, reg: &Registry, core: &CoreArrays, n: usize, roots: &Vec<usize>) -> (queue: Vec<usize>)
    requires
        ws.sized(n as nat),
        ws.links_agree(core, n as nat),
        ws.links_allocated(reg, n as nat),
        roots@.no_duplicates(),
        forall|k: int| 0 <= k < roots@.len() ==> (#[trigger] roots@[k]) < n && reg.is_allocated_spec(roots@[k] as int),
    ensures
        queue@.no_duplicates(),
        forall|k: int| 0 <= k < queue@.len() ==> (#[trigger] queue@[k]) < n && reg.is_allocated_spec(queue@[k] as int),
        queue@.len() >= roots@.len(),
        queue@.take(roots@.len() as int) == roots@,
        roots@.len() == 0 ==> queue@.len() == 0,
        forall|k: int| roots@.len() <= k < queue@.len() ==> #[trigger] parent_earlier(core, queue@, k),
        forall|k: int| roots@.len() <= k < queue@.len() ==> #[trigger] child_earlier(ws, queue@, k, n as nat),
        forall|k: int, m: int| 0 <= k < queue@.len() && 0 <= m < children_spec(ws, queue@[k], n as nat).len()
            ==> queue@.contains(#[trigger] children_spec(ws, queue@[k], n as nat)[m]),
{
    let mut in_q: Vec<bool> = Vec::new();
    while in_q.len() < n
        invariant
            in_q@.len() <= n,
            forall|i: int| 0 <= i < in_q@.len() ==> !in_q@[i],
        decreases n - in_q.len(),
    {
        in_q.push(false);
    }
    let mut queue: Vec<usize> = Vec::new();
    let mut r: usize = 0;
    while r < roots.len()
        invariant
            r <= roots@.len(),
            in_q@.len() == n,
            roots@.no_duplicates(),
            forall|k: int| 0 <= k < roots@.len() ==> (#[trigger] roots@[k]) < n && reg.is_allocated_spec(roots@[k] as int),
            queue@ == roots@.take(r as int),
            forall|i: int| 0 <= i < n ==> (in_q@[i] <==> queue@.contains(i as usize)),
        decreases roots.len() - r,
    {
        let x = roots[r];
        let ghost before = queue@;
        queue.push(x);
        in_q.set(x, true);
        proof {
            assert(roots@.take(r + 1) =~= roots@.take(r as int).push(x));
            assert forall|i: int| 0 <= i < n implies (in_q@[i] <==> queue@.contains(i as usize)) by {
                if i == x {
                    assert(queue@[queue@.len() - 1] == x);
                } else if queue@.contains(i as usize) {
                    let w = choose|w: int| 0 <= w < queue@.len() && queue@[w] == i as usize;
                    assert(w < before.len());
                    assert(before[w] == i as usize);
                } else if before.contains(i as usize) {
                    let w = choose|w: int| 0 <= w < before.len() && before[w] == i as usize;
                    assert(queue@[w] == i as usize);
                }
            }
        }
        r = r + 1;
    }
    assert(roots@.take(roots@.len() as int) =~= roots@);
    assert(queue@.no_duplicates());
    proof {
        lemma_distinct_below(queue@, n as nat);
    }
    let mut head: usize = 0;
    while head < queue.len()
        invariant
            head <= queue@.len() <= n,
            in_q@.len() == n,
            ws.sized(n as nat),
            ws.links_agree(core, n as nat),
            ws.links_allocated(reg, n as nat),
            queue@.no_duplicates(),
            forall|k: int| 0 <= k < queue@.len() ==> (#[trigger] queue@[k]) < n && reg.is_allocated_spec(queue@[k] as int),
            forall|k: int| roots@.len() <= k < queue@.len() ==> #[trigger] parent_earlier(core, queue@, k),
            forall|k: int| roots@.len() <= k < queue@.len() ==> #[trigger] child_earlier(ws, queue@, k, n as nat),
            forall|i: int| 0 <= i < n ==> (in_q@[i] <==> queue@.contains(i as usize)),
            queue@.len() >= roots@.len(),
            queue@.take(roots@.len() as int) == roots@,
            roots@.len() == 0 ==> queue@.len() == 0,
            forall|k: int, m: int| 0 <= k < head && 0 <= m < children_spec(ws, queue@[k], n as nat).len()
                ==> queue@.contains(#[trigger] children_spec(ws, queue@[k], n as nat)[m]),
        decreases n - head,
    {
        let parent = queue[head];
        let kids = kids_of(ws, core, n, parent);
        let ghost q0 = queue@;
        assert(ws.links_allocated(reg, n as nat));
        let mut j: usize = 0;
        while j < kids.len()
            invariant
                j <= kids@.len(),
                head < queue@.len(),
                parent == queue@[head as int],
                in_q@.len() == n,
                queue@.no_duplicates(),
                forall|k: int| 0 <= k < kids@.len() ==> (#[trigger] kids@[k]) < n && reg.is_allocated_spec(kids@[k] as int)
                    && core.parent_index.at(kids@[k] as int) == Some(parent),
                forall|k: int| 0 <= k < queue@.len() ==> (#[trigger] queue@[k]) < n && reg.is_allocated_spec(queue@[k] as int),
                forall|k: int| roots@.len() <= k < queue@.len() ==> #[trigger] parent_earlier(core, queue@, k),
                forall|k: int| roots@.len() <= k < queue@.len() ==> #[trigger] child_earlier(ws, queue@, k, n as nat),
                forall|i: int| 0 <= i < n ==> (in_q@[i] <==> queue@.contains(i as usize)),
                queue@.len() >= roots@.len(),
                queue@.take(roots@.len() as int) == roots@,
                queue@.len() >= q0.len(),
                forall|k: int| 0 <= k < q0.len() ==> queue@[k] == q0[k],
                forall|k: int, m: int| 0 <= k < head && 0 <= m < children_spec(ws, q0[k], n as nat).len()
                    ==> queue@.contains(#[trigger] children_spec(ws, q0[k], n as nat)[m]),
                forall|m: int| 0 <= m < j ==> queue@.contains(#[trigger] kids@[m]),
                kids@ == children_spec(ws, parent, n as nat),
                head < q0.len(),
            decreases kids.len() - j,
        {
            let c = kids[j];
            if !in_q[c] {
                let ghost before = queue@;
                queue.push(c);
                in_q.set(c, true);
                proof {
                    assert forall|x: usize| before.contains(x) implies queue@.contains(x) by {
                        let w = choose|w: int| 0 <= w < before.len() && before[w] == x;
                        assert(queue@[w] == x);
                    }
                    assert(queue@[queue@.len() - 1] == c);
                    assert(queue@.take(roots@.len() as int) =~= before.take(roots@.len() as int));
                    assert(!before.contains(c));
                    assert forall|k: int| roots@.len() <= k < queue@.len() implies #[trigger] parent_earlier(core, queue@, k) by {
                        if k < before.len() {
                            assert(parent_earlier(core, before, k));
                            let w = choose|w: int| 0 <= w < k && core.parent_index.at(before[k] as int) == Some(before[w]);
                            assert(queue@[k] == before[k]);
                            assert(queue@[w] == before[w]);
                        } else {
                            assert(queue@[k] == c);
                            assert(queue@[head as int] == parent);
                            assert(head < k);
                            assert(core.parent_index.at(queue@[k] as int) == Some(queue@[head as int]));
                        }
                    }
                    assert forall|k: int| roots@.len() <= k < queue@.len() implies #[trigger] child_earlier(ws, queue@, k, n as nat) by {
                        if k < before.len() {
                            assert(child_earlier(ws, before, k, n as nat));
                            let w = choose|w: int| 0 <= w < k && children_spec(ws, #[trigger] before[w], n as nat).contains(before[k]);
                            assert(queue@[k] == before[k]);
                            assert(queue@[w] == before[w]);
                        } else {
                            assert(queue@[k] == c);
                            assert(queue@[head as int] == parent);
                            assert(kids@[j as int] == c);
                            assert(children_spec(ws, queue@[head as int], n as nat).contains(queue@[k]));
                        }
                    }
                    assert forall|a: int, b: int| 0 <= a < queue@.len() && 0 <= b < queue@.len() && a != b implies queue@[a] != queue@[b] by {
                        if a < before.len() && b < before.len() {
                        } else if a < before.len() {
                            assert(before[a] != c);
                        } else if b < before.len() {
                            assert(before[b] != c);
                        }
                    }
                    assert forall|i: int| 0 <= i < n implies (in_q@[i] <==> queue@.contains(i as usize)) by {
                        if i == c {
                            assert(queue@[queue@.len() - 1] == c);
                        } else if queue@.contains(i as usize) {
                            let w = choose|w: int| 0 <= w < queue@.len() && queue@[w] == i as usize;
                            assert(w < before.len());
                            assert(before[w] == i as usize);
                        } else if before.contains(i as usize) {
                            let w = choose|w: int| 0 <= w < before.len() && before[w] == i as usize;
                            assert(queue@[w] == i as usize);
                        }
                    }
                }
            }
            proof {
                assert(queue@.contains(c)) by {
                    assert(in_q@[c as int]);
                }
            }
            j = j + 1;
        }
        proof {
            lemma_distinct_below(queue@, n as nat);
            assert forall|k: int, m: int| 0 <= k < head + 1 && 0 <= m < children_spec(ws, queue@[k], n as nat).len()
                implies queue@.contains(#[trigger] children_spec(ws, queue@[k], n as nat)[m]) by {
                assert(queue@[k] == q0[k]);
                if k == head {
                    assert(kids@[m] == children_spec(ws, queue@[k], n as nat)[m]);
                }
            }
        }
        head = head + 1;
    }
    queue
}

// =============================================================================
// Intrinsic sizes
// =============================================================================

/// Running (main sum, cross maximum) over a box's children, each given as
/// (width, height, main-axis margins), with a gap after each.
pub open spec fn box_content_scan(kids: Seq<(u16, u16, u16)>, is_row: bool, gap: u16) -> (u16, u16)
    decreases kids.len(),
{
    if kids.len() == 0 {
        (0u16, 0u16)
    } else {
        let (sum_main, max_cross) = box_content_scan(kids.drop_last(), is_row, gap);
        let (w, h, margin) = kids.last();
        if is_row {
            (cap(sum_main + cap(w + margin + gap)), if h > max_cross { h } else { max_cross })
        } else {
            (cap(sum_main + cap(h + margin + gap)), if w > max_cross { w } else { max_cross })
        }
    }
}

/// The content size of a box from its children: the sum along the main axis
/// without the last gap, and the largest size across it.
pub open spec fn box_content_size_spec(kids: Seq<(u16, u16, u16)>, is_row: bool, gap: u16) -> (u16, u16) {
    let (sum_main, max_cross) = box_content_scan(kids, is_row, gap);
    (minus(sum_main as int, gap as int), max_cross)
}

/// Content size of a box from its children's sizes.
pub fn box_content_size(kids: &Vec<(u16, u16, u16)>, is_row: bool, gap: u16) -> (r: (u16, u16))
    requires
        kids@.len() > 0,
    ensures
        r == box_content_size_spec(kids@, is_row, gap),
{
    let mut sum_main: u16 = 0;
    let mut max_cross: u16 = 0;
    let mut k: usize = 0;
    assert(kids@.take(0) =~= Seq::<(u16, u16, u16)>::empty());
    while k < kids.len()
        invariant
            k <= kids@.len(),
            (sum_main, max_cross) == box_content_scan(kids@.take(k as int), is_row, gap),
        decreases kids.len() - k,
    {
        let (w, h, margin) = kids[k];
        assert(kids@.take(k + 1).drop_last() =~= kids@.take(k as int));
        if is_row {
            sum_main = cadd(sum_main, cadd3(w, margin, gap));
            if h > max_cross {
                max_cross = h;
            }
        } else {
            sum_main = cadd(sum_main, cadd3(h, margin, gap));
            if w > max_cross {
                max_cross = w;
            }
        }
        k = k + 1;
    }
    assert(kids@.take(kids@.len() as int) =~= kids@);
    (csub(sum_main, gap), max_cross)
}

/// The width a text component wraps in: its parent's explicit width less
/// the parent's padding and borders, else the terminal width.
pub open spec fn text_avail(arrays: &Arrays, i: int, tw: u16) -> u16 {
    match arrays.core.parent_index.at(i) {
        Some(p) => match arrays.flex.node_at(p as int) {
            Some(pn) => {
                let pw = resolve_dimension_spec(pn.width, tw);
                if pw > 0 { minus(pw as int, extra_w(pn) as int) } else { tw }
            },
            None => tw,
        },
        None => tw,
    }
}

/// A child's (width, height, main-axis margins) as its parent's content
/// size counts it: explicit sizes against the terminal, else intrinsic.
pub open spec fn kid_size(arrays: &Arrays, ws: &TitanArrays, k: usize, is_row: bool, tw: u16, th: u16) -> (u16, u16, u16) {
    match arrays.flex.node_at(k as int) {
        Some(kn) => {
            let ew = resolve_dimension_spec(kn.width, tw);
            let eh = resolve_dimension_spec(kn.height, th);
            (
                if ew > 0 { ew } else { ws.intrinsic_w@[k as int] },
                if eh > 0 { eh } else { ws.intrinsic_h@[k as int] },
                if is_row { cap(kn.margin_left + kn.margin_right) } else { cap(kn.margin_top + kn.margin_bottom) },
            )
        },
        None => (ws.intrinsic_w@[k as int], ws.intrinsic_h@[k as int], 0u16),
    }
}

/// The sizes of a list of children.
pub open spec fn kid_sizes(arrays: &Arrays, ws: &TitanArrays, kids: Seq<usize>, is_row: bool, tw: u16, th: u16) -> Seq<(u16, u16, u16)> {
    kids.map_values(|k: usize| kid_size(arrays, ws, k, is_row, tw, th))
}

/// The intrinsic (width, height) of component `i`: a non-empty text
/// measures its content in the width it wraps in; an input its content plus
/// padding and borders, one line high; a box that does not scroll the
/// content size of its children plus padding and borders, and a box that
/// scrolls its padding and borders. None where it keeps the size it has.
pub open spec fn intrinsic_of(arrays: &Arrays, ws: &TitanArrays, i: usize, n: nat, tw: u16, th: u16) -> Option<(u16, u16)> {
    let content = arrays.text.content.at(i as int);
    match arrays.core.component_type.at(i as int) {
        ComponentType::Text => if content.len() == 0 {
            None
        } else {
            let a = text_avail(arrays, i as int, tw);
            Some(
                (
                    string_width_spec(content) as u16,
                    text_height_spec(content, if a > 1 { a as int } else { 1 }) as u16,
                ),
            )
        },
        ComponentType::Input => match arrays.flex.node_at(i as int) {
            Some(node) => Some((cap(string_width_spec(content) + extra_w(node)), cap(1 + extra_h(node)))),
            None => None,
        },
        ComponentType::Box => match arrays.flex.node_at(i as int) {
            Some(node) => {
                let kids = children_spec(ws, i, n);
                let is_row = node.flex_direction == FLEX_ROW || node.flex_direction == FLEX_ROW_REVERSE;
                if kids.len() > 0 && !scrolls(node.overflow) {
                    let (sum_main, max_cross) = box_content_size_spec(
                        kid_sizes(arrays, ws, kids, is_row, tw, th),
                        is_row,
                        node.gap,
                    );
                    if is_row {
                        Some((cap(sum_main + extra_w(node)), cap(max_cross + extra_h(node))))
                    } else {
                        Some((cap(max_cross + extra_w(node)), cap(sum_main + extra_h(node))))
                    }
                } else if scrolls(node.overflow) {
                    Some((extra_w(node), extra_h(node)))
                } else {
                    None
                }
            },
            None => None,
        },
        _ => None,
    }
}

/// Component `i` holds the intrinsic size `intrinsic_of` gives it, or the
/// one it had (`old_w`, `old_h`) where that gives none.
pub open spec fn intrinsic_done(
    arrays: &Arrays,
    ws: &TitanArrays,
    old_w: Seq<u16>,
    old_h: Seq<u16>,
    i: usize,
    n: nat,
    tw: u16,
    th: u16,
) -> bool {
    match intrinsic_of(arrays, ws, i, n, tw, th) {
        Some((w, h)) => ws.intrinsic_w@[i as int] == w && ws.intrinsic_h@[i as int] == h,
        None => ws.intrinsic_w@[i as int] == old_w[i as int] && ws.intrinsic_h@[i as int] == old_h[i as int],
    }
}

/// Every component in the sibling chain from `c` has `c`'s parent.
proof fn lemma_chain_parent(ws: &TitanArrays, core: &CoreArrays, c: usize, n: nat)
    requires
        ws.sized(n),
        ws.links_agree(core, n),
    ensures
        forall|k: int| 0 <= k < chain_from(ws.next_sibling@, c, n).len() ==> core.parent_index.at(
            #[trigger] chain_from(ws.next_sibling@, c, n)[k] as int,
        ) == core.parent_index.at(c as int) && chain_from(ws.next_sibling@, c, n)[k] < n,
    decreases n - c,
{
    if c < n {
        match ws.next_sibling@[c as int] {
            Some(d) => {
                if c < d && d < n {
                    lemma_chain_parent(ws, core, d, n);
                    let rest = chain_from(ws.next_sibling@, d, n);
                    assert(chain_from(ws.next_sibling@, c, n) == seq![c] + rest);
                    assert forall|k: int| 0 <= k < chain_from(ws.next_sibling@, c, n).len() implies core.parent_index.at(
                        #[trigger] chain_from(ws.next_sibling@, c, n)[k] as int,
                    ) == core.parent_index.at(c as int) && chain_from(ws.next_sibling@, c, n)[k] < n by {
                        if k > 0 {
                            assert(chain_from(ws.next_sibling@, c, n)[k] == rest[k - 1]);
                        }
                    }
                }
            },
            None => {},
        }
    }
}

/// Every child in the working arrays' chain of `i` has parent `i`.
proof fn lemma_children_parent(ws: &TitanArrays, core: &CoreArrays, i: usize, n: nat)
    requires
        ws.sized(n),
        ws.links_agree(core, n),
        i < n,
    ensures
        forall|k: int| 0 <= k < children_spec(ws, i, n).len() ==> core.parent_index.at(
            #[trigger] children_spec(ws, i, n)[k] as int,
        ) == Some(i) && children_spec(ws, i, n)[k] < n,
{
    match ws.first_child@[i as int] {
        Some(f) => {
            lemma_chain_parent(ws, core, f, n);
        },
        None => {},
    }
}

/// `intrinsic_of` reads the working arrays only at the component's children
/// and in the links.
proof fn lemma_intrinsic_frame(arrays: &Arrays, a: &TitanArrays, b: &TitanArrays, i: usize, n: nat, tw: u16, th: u16)
    requires
        a.first_child@ == b.first_child@,
        a.next_sibling@ == b.next_sibling@,
        forall|k: int| 0 <= k < children_spec(a, i, n).len() ==> {
            let c = #[trigger] children_spec(a, i, n)[k] as int;
            a.intrinsic_w@[c] == b.intrinsic_w@[c] && a.intrinsic_h@[c] == b.intrinsic_h@[c]
        },
    ensures
        intrinsic_of(arrays, a, i, n, tw, th) == intrinsic_of(arrays, b, i, n, tw, th),
{
    let kids = children_spec(a, i, n);
    assert(children_spec(b, i, n) == kids);
    assert(kid_sizes(arrays, a, kids, true, tw, th) =~= kid_sizes(arrays, b, kids, true, tw, th));
    assert(kid_sizes(arrays, a, kids, false, tw, th) =~= kid_sizes(arrays, b, kids, false, tw, th));
}

/// Pass 3: intrinsic sizes (see `intrinsic_of`), children before parents:
/// every queued component gets its size, every other keeps its own.
#[verifier::rlimit(40)]
fn measure_intrinsic(ws: &mut TitanArrays, arrays: &Arrays, queue: &Vec<usize>, n: usize, tw: u16, th: u16)
    requires
        old(ws).sized(n as nat),
        old(ws).links_agree(&arrays.core, n as nat),
        forall|k: int| 0 <= k < queue@.len() ==> (#[trigger] queue@[k]) < n,
        queue@.no_duplicates(),
        forall|a: int, b: int|
            0 <= a < queue@.len() && 0 <= b < queue@.len() && arrays.core.parent_index.at(#[trigger] queue@[b] as int)
                == Some(#[trigger] queue@[a]) ==> a < b,
    ensures
        final(ws).sized(n as nat),
        final(ws).links_agree(&arrays.core, n as nat),
        final(ws).first_child@ == old(ws).first_child@,
        final(ws).next_sibling@ == old(ws).next_sibling@,
        final(ws).item_main@ == old(ws).item_main@,
        final(ws).item_cross@ == old(ws).item_cross@,
        forall|i: int| 0 <= i < n && !queue@.contains(i as usize) ==> #[trigger] final(ws).intrinsic_w@[i]
            == old(ws).intrinsic_w@[i] && final(ws).intrinsic_h@[i] == old(ws).intrinsic_h@[i],
        forall|k: int| 0 <= k < queue@.len() ==> #[trigger] intrinsic_done(
            arrays,
            &*final(ws),
            old(ws).intrinsic_w@,
            old(ws).intrinsic_h@,
            queue@[k],
            n as nat,
            tw,
            th,
        ),
{
    let mut t: usize = queue.len();
    while t > 0
        invariant
            t <= queue@.len(),
            ws.sized(n as nat),
            ws.links_agree(&arrays.core, n as nat),
            ws.first_child@ == old(ws).first_child@,
            ws.next_sibling@ == old(ws).next_sibling@,
            ws.item_main@ == old(ws).item_main@,
            ws.item_cross@ == old(ws).item_cross@,
            forall|k: int| 0 <= k < queue@.len() ==> (#[trigger] queue@[k]) < n,
            queue@.no_duplicates(),
            forall|a: int, b: int|
                0 <= a < queue@.len() && 0 <= b < queue@.len() && arrays.core.parent_index.at(
                    #[trigger] queue@[b] as int,
                ) == Some(#[trigger] queue@[a]) ==> a < b,
            forall|i: int| 0 <= i < n && !queue@.subrange(t as int, queue@.len() as int).contains(i as usize)
                ==> #[trigger] ws.intrinsic_w@[i] == old(ws).intrinsic_w@[i] && ws.intrinsic_h@[i]
                == old(ws).intrinsic_h@[i],
            forall|k: int| t <= k < queue@.len() ==> #[trigger] intrinsic_done(
                arrays,
                &*ws,
                old(ws).intrinsic_w@,
                old(ws).intrinsic_h@,
                queue@[k],
                n as nat,
                tw,
                th,
            ),
        decreases t,
    {
        t = t - 1;
        let i = queue[t];
        let ghost before = *ws;
        proof {
            lemma_children_parent(&before, &arrays.core, i, n as nat);
        }
        let comp = get_component_type(&arrays.core, i);
        match comp {
            ComponentType::Text => {
                let content = get_text_content(&arrays.text, i);
                if !content.as_str().is_empty() {
                    let mut avail_w = tw;
                    if let Some(p) = get_parent_index(&arrays.core, i) {
                        if let Some(pn) = get_flex_node(&arrays.flex, p) {
                            let pw = resolve_dimension(pn.width, tw);
                            if pw > 0 {
                                avail_w = csub(pw, extra_w_exec(&pn));
                            }
                        }
                    }
                    let w = string_width(content.as_str());
                    let h = measure_text_height(content.as_str(), if avail_w > 1 { avail_w } else { 1 });
                    ws.intrinsic_w.set(i, w);
                    ws.intrinsic_h.set(i, h);
                }
            },
            ComponentType::Input => {
                let content = get_text_content(&arrays.text, i);
                if let Some(node) = get_flex_node(&arrays.flex, i) {
                    let w = cadd(string_width(content.as_str()), extra_w_exec(&node));
                    let h = cadd(1, extra_h_exec(&node));
                    ws.intrinsic_w.set(i, w);
                    ws.intrinsic_h.set(i, h);
                }
            },
            ComponentType::Box => {
                if let Some(node) = get_flex_node(&arrays.flex, i) {
                    let scrollable = scrolls_exec(node.overflow);
                    let kids = kids_of(ws, &arrays.core, n, i);
                    if kids.len() > 0 && !scrollable {
                        let is_row = node.flex_direction == FLEX_ROW || node.flex_direction == FLEX_ROW_REVERSE;
                        let mut sizes: Vec<(u16, u16, u16)> = Vec::new();
                        let mut j: usize = 0;
                        while j < kids.len()
                            invariant
                                j <= kids@.len(),
                                ws.sized(n as nat),
                                *ws == before,
                                forall|k: int| 0 <= k < kids@.len() ==> (#[trigger] kids@[k]) < n,
                                sizes@.len() == j,
                                sizes@ =~= kid_sizes(arrays, &before, kids@.take(j as int), is_row, tw, th),
                            decreases kids.len() - j,
                        {
                            let k = kids[j];
                            let (kw, kh, margin) = match get_flex_node(&arrays.flex, k) {
                                Some(kn) => {
                                    let ew = resolve_dimension(kn.width, tw);
                                    let eh = resolve_dimension(kn.height, th);
                                    let m = if is_row {
                                        cadd(kn.margin_left, kn.margin_right)
                                    } else {
                                        cadd(kn.margin_top, kn.margin_bottom)
                                    };
                                    (
                                        if ew > 0 { ew } else { ws.intrinsic_w[k] },
                                        if eh > 0 { eh } else { ws.intrinsic_h[k] },
                                        m,
                                    )
                                },
                                None => (ws.intrinsic_w[k], ws.intrinsic_h[k], 0),
                            };
                            sizes.push((kw, kh, margin));
                            proof {
                                assert(kids@.take(j + 1) =~= kids@.take(j as int).push(k));
                            }
                            j = j + 1;
                        }
                        assert(kids@.take(kids@.len() as int) =~= kids@);
                        let (sum_main, max_cross) = box_content_size(&sizes, is_row, node.gap);
                        let ew = extra_w_exec(&node);
                        let eh = extra_h_exec(&node);
                        if is_row {
                            ws.intrinsic_w.set(i, cadd(sum_main, ew));
                            ws.intrinsic_h.set(i, cadd(max_cross, eh));
                        } else {
                            ws.intrinsic_w.set(i, cadd(max_cross, ew));
                            ws.intrinsic_h.set(i, cadd(sum_main, eh));
                        }
                    } else if scrollable {
                        ws.intrinsic_w.set(i, extra_w_exec(&node));
                        ws.intrinsic_h.set(i, extra_h_exec(&node));
                    }
                }
            },
            _ => {},
        }
        proof {
            let target = intrinsic_of(arrays, &before, i, n as nat, tw, th);
            assert(match target {
                Some((w, h)) => ws.intrinsic_w@[i as int] == w && ws.intrinsic_h@[i as int] == h,
                None => ws.intrinsic_w@[i as int] == before.intrinsic_w@[i as int] && ws.intrinsic_h@[i as int]
                    == before.intrinsic_h@[i as int],
            });
            assert forall|j: int| 0 <= j < n && j != i implies ws.intrinsic_w@[j] == before.intrinsic_w@[j]
                && ws.intrinsic_h@[j] == before.intrinsic_h@[j] by {}
            assert(!queue@.subrange(t + 1, queue@.len() as int).contains(i)) by {
                if queue@.subrange(t + 1, queue@.len() as int).contains(i) {
                    let w = choose|w: int| 0 <= w < queue@.len() - (t + 1) && #[trigger] queue@.subrange(t + 1, queue@.len() as int)[w] == i;
                    assert(queue@[t + 1 + w] == queue@[t as int]);
                }
            }
            assert forall|k: int| 0 <= k < children_spec(&before, i, n as nat).len() implies {
                let c = #[trigger] children_spec(&before, i, n as nat)[k] as int;
                before.intrinsic_w@[c] == ws.intrinsic_w@[c] && before.intrinsic_h@[c] == ws.intrinsic_h@[c]
            } by {
                let c = children_spec(&before, i, n as nat)[k];
                if c == i {
                    assert(arrays.core.parent_index.at(queue@[t as int] as int) == Some(queue@[t as int]));
                }
            }
            lemma_intrinsic_frame(arrays, &before, &*ws, i, n as nat, tw, th);
            assert(intrinsic_done(arrays, &*ws, old(ws).intrinsic_w@, old(ws).intrinsic_h@, i, n as nat, tw, th));
            assert forall|k: int| t <= k < queue@.len() implies #[trigger] intrinsic_done(
                arrays,
                &*ws,
                old(ws).intrinsic_w@,
                old(ws).intrinsic_h@,
                queue@[k],
                n as nat,
                tw,
                th,
            ) by {
                if k > t {
                    let q = queue@[k];
                    assert(q != i);
                    assert(intrinsic_done(arrays, &before, old(ws).intrinsic_w@, old(ws).intrinsic_h@, q, n as nat, tw, th));
                    lemma_children_parent(&before, &arrays.core, q, n as nat);
                    assert forall|m: int| 0 <= m < children_spec(&before, q, n as nat).len() implies {
                        let c = #[trigger] children_spec(&before, q, n as nat)[m] as int;
                        before.intrinsic_w@[c] == ws.intrinsic_w@[c] && before.intrinsic_h@[c] == ws.intrinsic_h@[c]
                    } by {
                        let c = children_spec(&before, q, n as nat)[m];
                        if c == i {
                            assert(arrays.core.parent_index.at(queue@[t as int] as int) == Some(queue@[k]));
                        }
                    }
                    lemma_intrinsic_frame(arrays, &before, &*ws, q, n as nat, tw, th);
                }
            }
            assert forall|j: int| 0 <= j < n && !queue@.subrange(t as int, queue@.len() as int).contains(j as usize)
                implies #[trigger] ws.intrinsic_w@[j] == old(ws).intrinsic_w@[j] && ws.intrinsic_h@[j]
                == old(ws).intrinsic_h@[j] by {
                assert(queue@.subrange(t as int, queue@.len() as int)[0] == i);
                if queue@.subrange(t + 1, queue@.len() as int).contains(j as usize) {
                    let w = choose|w: int| 0 <= w < queue@.len() - (t + 1) && #[trigger] queue@.subrange(t + 1, queue@.len() as int)[w] == j as usize;
                    assert(queue@.subrange(t as int, queue@.len() as int)[w + 1] == j as usize);
                }
            }
        }
    }
    assert(queue@.subrange(0, queue@.len() as int) =~= queue@);
}



// =============================================================================
// Layout of children
// =============================================================================

/// Every output array has `n` entries.
pub open spec fn out_sized(l: &ComputedLayout, n: nat) -> bool {
    &&& l.x@.len() == n
    &&& l.y@.len() == n
    &&& l.width@.len() == n
    &&& l.height@.len() == n
    &&& l.scrollable@.len() == n
    &&& l.max_scroll_x@.len() == n
    &&& l.max_scroll_y@.len() == n
}

/// Positions and sizes of component `j` are the same in both layouts.
pub open spec fn same_box(a: &ComputedLayout, b: &ComputedLayout, j: int) -> bool {
    &&& a.x@[j] == b.x@[j]
    &&& a.y@[j] == b.y@[j]
    &&& a.width@[j] == b.width@[j]
    &&& a.height@[j] == b.height@[j]
}

/// Left edge of the content area of `p` (inside padding and border).
pub open spec fn content_left(l: &ComputedLayout, pn: FlexNode, p: int) -> u16 {
    cap(l.x@[p] + pn.padding_left + border_cells(pn.border_left))
}

/// Top edge of the content area of `p` (inside padding and border).
pub open spec fn content_top(l: &ComputedLayout, pn: FlexNode, p: int) -> u16 {
    cap(l.y@[p] + pn.padding_top + border_cells(pn.border_top))
}

/// The container a parent offers its children.
#[derive(Clone, Copy)]
pub struct Container {
    pub content_x: u16,
    pub content_y: u16,
    pub content_w: u16,
    pub content_h: u16,
    pub dir: u8,
    pub justify: u8,
    pub align_items: u8,
    pub gap: u16,
    pub is_row: bool,
    pub is_reverse: bool,
    pub is_scrollable: bool,
    pub main_size: u16,
    pub cross_size: u16,
}

/// The members of `s` that take part in the flow (not absolutely
/// positioned), in order.
pub open spec fn in_flow_of(arrays: &Arrays, s: Seq<usize>) -> Seq<usize>
    decreases s.len(),
{
    if s.len() == 0 {
        s
    } else {
        let r = in_flow_of(arrays, s.drop_last());
        if is_absolute(arrays.flex.node_at(s.last() as int)) {
            r
        } else {
            r.push(s.last())
        }
    }
}

/// Children of `parent` that take part in the flow (not absolutely
/// positioned), in index order.
fn flow_children(ws: &TitanArrays, arrays: &Arrays, n: usize, parent: usize) -> (flow: Vec<usize>)
    requires
        ws.sized(n as nat),
        ws.links_agree(&arrays.core, n as nat),
        parent < n,
    ensures
        forall|k: int| 0 <= k < flow@.len() ==> (#[trigger] flow@[k]) < n && arrays.core.parent_index.at(flow@[k] as int) == Some(parent),
        flow@.no_duplicates(),
        flow@.len() > 0 ==> ws.first_child@[parent as int] is Some,
        flow@ == in_flow_of(arrays, children_spec(ws, parent, n as nat)),
{
    let kids = kids_of(ws, &arrays.core, n, parent);
    let mut flow: Vec<usize> = Vec::new();
    let mut j: usize = 0;
    while j < kids.len()
        invariant
            j <= kids@.len(),
            forall|k: int| 0 <= k < kids@.len() ==> (#[trigger] kids@[k]) < n && arrays.core.parent_index.at(kids@[k] as int) == Some(parent),
            forall|a: int, b: int| 0 <= a < b < kids@.len() ==> (#[trigger] kids@[a]) < (#[trigger] kids@[b]),
            forall|k: int| 0 <= k < flow@.len() ==> (#[trigger] flow@[k]) < n && arrays.core.parent_index.at(flow@[k] as int) == Some(parent),
            forall|k: int| 0 <= k < flow@.len() ==> j > 0 && (#[trigger] flow@[k]) <= kids@[j - 1],
            forall|a: int, b: int| 0 <= a < b < flow@.len() ==> (#[trigger] flow@[a]) < (#[trigger] flow@[b]),
            kids@.len() > 0 ==> ws.first_child@[parent as int] is Some,
            flow@.len() > 0 ==> kids@.len() > 0,
            flow@ == in_flow_of(arrays, kids@.take(j as int)),
        decreases kids.len() - j,
    {
        let k = kids[j];
        proof {
            assert(kids@.take(j + 1).drop_last() =~= kids@.take(j as int));
            assert(kids@.take(j + 1).last() == k);
        }
        let in_flow = match get_flex_node(&arrays.flex, k) {
            Some(kn) => kn.position != POS_ABSOLUTE,
            None => true,
        };
        if in_flow {
            proof {
                if j > 0 {
                    assert(kids@[j - 1] < k);
                }
            }
            flow.push(k);
            assert(flow@[flow@.len() - 1] == k);
        }
        j = j + 1;
    }
    assert(kids@.take(kids@.len() as int) =~= kids@);
    assert forall|a: int, b: int| 0 <= a < flow@.len() && 0 <= b < flow@.len() && a != b implies flow@[a] != flow@[b] by {
        if a < b {
            assert(flow@[a] < flow@[b]);
        } else {
            assert(flow@[b] < flow@[a]);
        }
    }
    flow
}

/// An item's main size before grow/shrink: its explicit size along the
/// main axis, else its intrinsic size there.
pub open spec fn base_main_spec(ws: &TitanArrays, node: Option<FlexNode>, kid: int, c: Container) -> u16 {
    match node {
        Some(kn) => {
            let ew = resolve_dimension_spec(kn.width, c.content_w);
            let eh = resolve_dimension_spec(kn.height, c.content_h);
            if c.is_row {
                if ew > 0 { ew } else { ws.intrinsic_w@[kid] }
            } else {
                if eh > 0 { eh } else { ws.intrinsic_h@[kid] }
            }
        },
        None => if c.is_row { ws.intrinsic_w@[kid] } else { ws.intrinsic_h@[kid] },
    }
}

/// The main size `base_main_spec` gives.
fn base_main(ws: &TitanArrays, node: Option<FlexNode>, kid: usize, c: &Container, n: usize) -> (m: u16)
    requires
        ws.sized(n as nat),
        kid < n,
    ensures
        m == base_main_spec(ws, node, kid as int, *c),
{
    match node {
        Some(kn) => {
            let ew = resolve_dimension(kn.width, c.content_w);
            let eh = resolve_dimension(kn.height, c.content_h);
            if c.is_row {
                if ew > 0 { ew } else { ws.intrinsic_w[kid] }
            } else {
                if eh > 0 { eh } else { ws.intrinsic_h[kid] }
            }
        },
        None => if c.is_row { ws.intrinsic_w[kid] } else { ws.intrinsic_h[kid] },
    }
}

/// The main sizes of the flow items before grow/shrink.
pub open spec fn mains_of(ws: &TitanArrays, arrays: &Arrays, flow: Seq<usize>, c: Container) -> Seq<u16> {
    flow.map_values(|kid: usize| base_main_spec(ws, arrays.flex.node_at(kid as int), kid as int, c))
}

/// Lines as (first, last, used) with index positions.
pub open spec fn as_index_lines(s: Seq<(int, int, u16)>) -> Seq<(usize, usize, u16)> {
    s.map_values(|l: (int, int, u16)| (l.0 as usize, l.1 as usize, l.2))
}

/// The grow and shrink weights of the items `flow[ls..k]` summed (an item
/// without FlexNode shrinks with weight 1).
pub open spec fn line_totals(arrays: &Arrays, flow: Seq<usize>, ls: int, k: int) -> (int, int)
    decreases k - ls,
{
    if k <= ls {
        (0, 0)
    } else {
        let (g, sh) = line_totals(arrays, flow, ls, k - 1);
        match arrays.flex.node_at(flow[k - 1] as int) {
            Some(kn) => (g + kn.flex_grow, sh + kn.flex_shrink),
            None => (g, sh + 1),
        }
    }
}

/// An item's (main, cross) size on a line with the given weight totals and
/// free space: its flex basis, else its base size, grown or shrunk and held
/// within its min and max; across, its explicit size, else the line height
/// when items stretch, else its intrinsic size, within its min and max.
/// Without a FlexNode, its intrinsic sizes.
pub open spec fn item_size(
    ws: &TitanArrays,
    arrays: &Arrays,
    c: Container,
    kid: usize,
    total_grow: int,
    total_shrink: int,
    free: int,
    stretched: u16,
) -> (u16, u16) {
    let node = arrays.flex.node_at(kid as int);
    match node {
        Some(kn) => {
            let ew = resolve_dimension_spec(kn.width, c.content_w);
            let eh = resolve_dimension_spec(kn.height, c.content_h);
            let basis = resolve_dimension_spec(kn.flex_basis, if c.is_row { c.content_w } else { c.content_h });
            let base = if basis > 0 { basis } else { base_main_spec(ws, node, kid as int, c) };
            let km0 = flexed_main_spec(base, kn.flex_grow, total_grow, kn.flex_shrink, total_shrink, free, c.is_scrollable);
            let km = if c.is_row {
                clamp_dimension_spec(km0, kn.min_width, kn.max_width, c.content_w)
            } else {
                clamp_dimension_spec(km0, kn.min_height, kn.max_height, c.content_h)
            };
            let kc0 = if c.is_row {
                if eh > 0 { eh } else if c.align_items == ALIGN_STRETCH { stretched } else { ws.intrinsic_h@[kid as int] }
            } else {
                if ew > 0 { ew } else if c.align_items == ALIGN_STRETCH { stretched } else { ws.intrinsic_w@[kid as int] }
            };
            let kc = if c.is_row {
                clamp_dimension_spec(kc0, kn.min_height, kn.max_height, c.content_h)
            } else {
                clamp_dimension_spec(kc0, kn.min_width, kn.max_width, c.content_w)
            };
            (km, kc)
        },
        None => if c.is_row {
            (ws.intrinsic_w@[kid as int], ws.intrinsic_h@[kid as int])
        } else {
            (ws.intrinsic_h@[kid as int], ws.intrinsic_w@[kid as int])
        },
    }
}

/// Size the items `flow[k..=le]` of a line, writing their main and cross
/// sizes into `im` and `ic`.
pub open spec fn size_range(
    ws: &TitanArrays,
    arrays: &Arrays,
    flow: Seq<usize>,
    c: Container,
    k: int,
    le: int,
    total_grow: int,
    total_shrink: int,
    free: int,
    stretched: u16,
    im: Seq<u16>,
    ic: Seq<u16>,
) -> (Seq<u16>, Seq<u16>)
    decreases le + 1 - k,
{
    if k > le {
        (im, ic)
    } else {
        let kid = flow[k];
        let (km, kc) = item_size(ws, arrays, c, kid, total_grow, total_shrink, free, stretched);
        size_range(
            ws,
            arrays,
            flow,
            c,
            k + 1,
            le,
            total_grow,
            total_shrink,
            free,
            stretched,
            im.update(kid as int, km),
            ic.update(kid as int, kc),
        )
    }
}

/// Size the items of the lines from the `li`-th on: each line's free space
/// is the main size less what its items use, shared by grow or shrink
/// weights; lines share the cross size equally.
pub open spec fn size_lines(
    ws: &TitanArrays,
    arrays: &Arrays,
    flow: Seq<usize>,
    lines: Seq<(usize, usize, u16)>,
    c: Container,
    li: int,
    im: Seq<u16>,
    ic: Seq<u16>,
) -> (Seq<u16>, Seq<u16>)
    decreases lines.len() - li,
{
    if li >= lines.len() || li < 0 {
        (im, ic)
    } else {
        let (ls, le, used) = lines[li];
        let (tg, ts) = line_totals(arrays, flow, ls as int, le + 1);
        let (im1, ic1) = size_range(
            ws,
            arrays,
            flow,
            c,
            ls as int,
            le as int,
            tg,
            ts,
            c.main_size - used,
            c.cross_size / cap(lines.len() as int),
            im,
            ic,
        );
        size_lines(ws, arrays, flow, lines, c, li + 1, im1, ic1)
    }
}

/// Every member of `in_flow_of(arrays, s)` is a member of `s`.
proof fn lemma_in_flow_sub(arrays: &Arrays, s: Seq<usize>)
    ensures
        forall|k: int| 0 <= k < in_flow_of(arrays, s).len() ==> s.contains(#[trigger] in_flow_of(arrays, s)[k])
            && !is_absolute(arrays.flex.node_at(in_flow_of(arrays, s)[k] as int)),
    decreases s.len(),
{
    if s.len() > 0 {
        lemma_in_flow_sub(arrays, s.drop_last());
        let r = in_flow_of(arrays, s.drop_last());
        assert forall|k: int| 0 <= k < in_flow_of(arrays, s).len() implies s.contains(#[trigger] in_flow_of(arrays, s)[k])
            && !is_absolute(arrays.flex.node_at(in_flow_of(arrays, s)[k] as int)) by {
            if k < r.len() {
                assert(in_flow_of(arrays, s)[k] == r[k]);
                let w = choose|w: int| 0 <= w < s.drop_last().len() && s.drop_last()[w] == r[k];
                assert(s[w] == r[k]);
            } else {
                assert(in_flow_of(arrays, s)[k] == s.last());
                assert(s[s.len() - 1] == s.last());
            }
        }
    }
}

/// Whether two sequences of sizes agree at `j`, or both still hold what
/// they started from.
spec fn agree_or_kept(a: Seq<u16>, b: Seq<u16>, a0: Seq<u16>, b0: Seq<u16>, j: int) -> bool {
    a[j] == b[j] || (a[j] == a0[j] && b[j] == b0[j])
}

/// Two runs of `size_range` over working arrays with the same intrinsic
/// sizes write the same sizes: at each index both agree or both kept their
/// start, and an index outside the flow keeps its start.
proof fn lemma_size_range_two(
    ws1: &TitanArrays,
    ws2: &TitanArrays,
    arrays: &Arrays,
    flow: Seq<usize>,
    c: Container,
    k: int,
    le: int,
    tg: int,
    ts: int,
    free: int,
    stretched: u16,
    im1: Seq<u16>,
    ic1: Seq<u16>,
    im2: Seq<u16>,
    ic2: Seq<u16>,
)
    requires
        ws1.intrinsic_w@ == ws2.intrinsic_w@,
        ws1.intrinsic_h@ == ws2.intrinsic_h@,
        0 <= k,
        le < flow.len(),
        im1.len() == ic1.len() && ic1.len() == im2.len() && im2.len() == ic2.len(),
        forall|m: int| 0 <= m < flow.len() ==> (#[trigger] flow[m]) < im1.len(),
    ensures
        ({
            let r1 = size_range(ws1, arrays, flow, c, k, le, tg, ts, free, stretched, im1, ic1);
            let r2 = size_range(ws2, arrays, flow, c, k, le, tg, ts, free, stretched, im2, ic2);
            &&& r1.0.len() == im1.len() && r1.1.len() == im1.len()
            &&& r2.0.len() == im1.len() && r2.1.len() == im1.len()
            &&& forall|j: int| 0 <= j < im1.len() ==> agree_or_kept(r1.0, r2.0, im1, im2, j) && agree_or_kept(r1.1, r2.1, ic1, ic2, j)
            &&& forall|j: int| 0 <= j < im1.len() && !flow.contains(j as usize) ==> r1.0[j] == im1[j] && r1.1[j] == ic1[j]
        }),
    decreases le + 1 - k,
{
    if k <= le {
        let kid = flow[k];
        let s1 = item_size(ws1, arrays, c, kid, tg, ts, free, stretched);
        let s2 = item_size(ws2, arrays, c, kid, tg, ts, free, stretched);
        assert(s1 == s2);
        let (na1, nb1) = (im1.update(kid as int, s1.0), ic1.update(kid as int, s1.1));
        let (na2, nb2) = (im2.update(kid as int, s2.0), ic2.update(kid as int, s2.1));
        lemma_size_range_two(ws1, ws2, arrays, flow, c, k + 1, le, tg, ts, free, stretched, na1, nb1, na2, nb2);
        let r1 = size_range(ws1, arrays, flow, c, k, le, tg, ts, free, stretched, im1, ic1);
        let r2 = size_range(ws2, arrays, flow, c, k, le, tg, ts, free, stretched, im2, ic2);
        assert forall|j: int| 0 <= j < im1.len() && !flow.contains(j as usize) implies r1.0[j] == im1[j] && r1.1[j] == ic1[j] by {
            if kid as int == j {
                assert(flow[k] == j as usize);
                assert(flow.contains(j as usize));
            }
            assert(na1[j] == im1[j]);
            assert(nb1[j] == ic1[j]);
        }
        assert forall|j: int| 0 <= j < im1.len() implies agree_or_kept(r1.0, r2.0, im1, im2, j) && agree_or_kept(r1.1, r2.1, ic1, ic2, j) by {
            assert(agree_or_kept(r1.0, r2.0, na1, na2, j));
            assert(agree_or_kept(r1.1, r2.1, nb1, nb2, j));
            if j == kid as int {
                assert(na1[j] == na2[j]);
                assert(nb1[j] == nb2[j]);
            } else {
                assert(na1[j] == im1[j] && na2[j] == im2[j]);
                assert(nb1[j] == ic1[j] && nb2[j] == ic2[j]);
            }
        }
    }
}

/// `lemma_size_range_two` for every line from the `li`-th on.
proof fn lemma_size_lines_two(
    ws1: &TitanArrays,
    ws2: &TitanArrays,
    arrays: &Arrays,
    flow: Seq<usize>,
    lines: Seq<(usize, usize, u16)>,
    c: Container,
    li: int,
    im1: Seq<u16>,
    ic1: Seq<u16>,
    im2: Seq<u16>,
    ic2: Seq<u16>,
)
    requires
        ws1.intrinsic_w@ == ws2.intrinsic_w@,
        ws1.intrinsic_h@ == ws2.intrinsic_h@,
        forall|m: int| 0 <= m < lines.len() ==> (#[trigger] lines[m]).1 < flow.len(),
        im1.len() == ic1.len() && ic1.len() == im2.len() && im2.len() == ic2.len(),
        forall|m: int| 0 <= m < flow.len() ==> (#[trigger] flow[m]) < im1.len(),
    ensures
        ({
            let r1 = size_lines(ws1, arrays, flow, lines, c, li, im1, ic1);
            let r2 = size_lines(ws2, arrays, flow, lines, c, li, im2, ic2);
            &&& r1.0.len() == im1.len() && r1.1.len() == im1.len()
            &&& forall|j: int| 0 <= j < im1.len() ==> agree_or_kept(r1.0, r2.0, im1, im2, j) && agree_or_kept(r1.1, r2.1, ic1, ic2, j)
            &&& forall|j: int| 0 <= j < im1.len() && !flow.contains(j as usize) ==> r1.0[j] == im1[j] && r1.1[j] == ic1[j]
        }),
    decreases lines.len() - li,
{
    if li < lines.len() && li >= 0 {
        let (ls, le, used) = lines[li];
        let (tg, ts) = line_totals(arrays, flow, ls as int, le + 1);
        let st = c.cross_size / cap(lines.len() as int);
        lemma_size_range_two(ws1, ws2, arrays, flow, c, ls as int, le as int, tg, ts, c.main_size - used, st, im1, ic1, im2, ic2);
        let a = size_range(ws1, arrays, flow, c, ls as int, le as int, tg, ts, c.main_size - used, st, im1, ic1);
        let b = size_range(ws2, arrays, flow, c, ls as int, le as int, tg, ts, c.main_size - used, st, im2, ic2);
        lemma_size_lines_two(ws1, ws2, arrays, flow, lines, c, li + 1, a.0, a.1, b.0, b.1);
        let r1 = size_lines(ws1, arrays, flow, lines, c, li, im1, ic1);
        let r2 = size_lines(ws2, arrays, flow, lines, c, li, im2, ic2);
        assert(r1 == size_lines(ws1, arrays, flow, lines, c, li + 1, a.0, a.1));
        assert(r2 == size_lines(ws2, arrays, flow, lines, c, li + 1, b.0, b.1));
        assert forall|j: int| 0 <= j < im1.len() implies agree_or_kept(r1.0, r2.0, im1, im2, j) && agree_or_kept(r1.1, r2.1, ic1, ic2, j) by {
            assert(agree_or_kept(r1.0, r2.0, a.0, b.0, j));
            assert(agree_or_kept(a.0, b.0, im1, im2, j));
            assert(agree_or_kept(r1.1, r2.1, a.1, b.1, j));
            assert(agree_or_kept(a.1, b.1, ic1, ic2, j));
        }
    }
}

/// Steps 1 and 2: flex lines, then each item's main and cross size.
fn size_items(ws: &mut TitanArrays, arrays: &Arrays, flow: &Vec<usize>, c: &Container, wrap: u8, n: usize) -> (lines: Vec<(usize, usize, u16)>)
    requires
        old(ws).sized(n as nat),
        old(ws).links_agree(&arrays.core, n as nat),
        forall|k: int| 0 <= k < flow@.len() ==> (#[trigger] flow@[k]) < n,
        flow@.len() > 0,
    ensures
        final(ws).sized(n as nat),
        final(ws).links_agree(&arrays.core, n as nat),
        final(ws).first_child@ == old(ws).first_child@,
        lines@.len() > 0,
        forall|k: int| 0 <= k < lines@.len() ==> (#[trigger] lines@[k]).0 <= lines@[k].1 < flow@.len(),
        lines@ == as_index_lines(flex_lines_spec(mains_of(&*old(ws), arrays, flow@, *c), wrap != WRAP_NOWRAP, c.gap, c.main_size)),
        final(ws).intrinsic_w@ == old(ws).intrinsic_w@,
        final(ws).intrinsic_h@ == old(ws).intrinsic_h@,
        final(ws).next_sibling@ == old(ws).next_sibling@,
        (final(ws).item_main@, final(ws).item_cross@) == size_lines(
            &*old(ws),
            arrays,
            flow@,
            lines@,
            *c,
            0,
            old(ws).item_main@,
            old(ws).item_cross@,
        ),
{
    let mut mains: Vec<u16> = Vec::new();
    let mut fi: usize = 0;
    while fi < flow.len()
        invariant
            fi <= flow@.len(),
            ws.sized(n as nat),
            *ws == *old(ws),
            forall|k: int| 0 <= k < flow@.len() ==> (#[trigger] flow@[k]) < n,
            mains@.len() == fi,
            mains@ =~= mains_of(&*old(ws), arrays, flow@.take(fi as int), *c),
        decreases flow.len() - fi,
    {
        let kid = flow[fi];
        let m = base_main(ws, get_flex_node(&arrays.flex, kid), kid, c, n);
        mains.push(m);
        proof {
            assert(flow@.take(fi + 1) =~= flow@.take(fi as int).push(kid));
        }
        fi = fi + 1;
    }
    assert(flow@.take(flow@.len() as int) =~= flow@);
    let lines = flex_lines(&mains, wrap != WRAP_NOWRAP, c.gap, c.main_size);
    proof {
        let sl = flex_lines_spec(mains@, wrap != WRAP_NOWRAP, c.gap, c.main_size);
        assert forall|k: int| 0 <= k < lines@.len() implies lines@[k] == as_index_lines(sl)[k] by {
            let l = lines@[k];
            assert(l.0 as int == sl[k].0 && l.1 as int == sl[k].1 && l.2 == sl[k].2);
        }
        assert(lines@ =~= as_index_lines(sl));
    }
    let line_count = lines.len();
    let lc: u16 = if line_count > 65535 { 65535 } else { line_count as u16 };
    let flen = flow.len();
    let mut li: usize = 0;
    while li < line_count
        invariant
            li <= line_count,
            line_count == lines@.len(),
            lc > 0,
            ws.sized(n as nat),
            ws.links_agree(&arrays.core, n as nat),
            ws.first_child@ == old(ws).first_child@,
            forall|k: int| 0 <= k < flow@.len() ==> (#[trigger] flow@[k]) < n,
            forall|k: int| 0 <= k < lines@.len() ==> (#[trigger] lines@[k]).0 <= lines@[k].1 < flow@.len(),
            flen == flow@.len(),
            lc == cap(lines@.len() as int),
            ws.intrinsic_w@ == old(ws).intrinsic_w@,
            ws.intrinsic_h@ == old(ws).intrinsic_h@,
            ws.next_sibling@ == old(ws).next_sibling@,
            size_lines(&*old(ws), arrays, flow@, lines@, *c, li as int, ws.item_main@, ws.item_cross@) == size_lines(
                &*old(ws),
                arrays,
                flow@,
                lines@,
                *c,
                0,
                old(ws).item_main@,
                old(ws).item_cross@,
            ),
        decreases line_count - li,
    {
        let (ls, le, used) = lines[li];
        let free: i32 = c.main_size as i32 - used as i32;
        let mut total_grow: u128 = 0;
        let mut total_shrink: u128 = 0;
        let mut fi: usize = ls;
        while fi <= le
            invariant
                ls <= fi <= le + 1,
                le < flow@.len(),
                flow@.len() <= usize::MAX,
                total_grow <= 65535 * (fi - ls),
                total_shrink <= 65535 * (fi - ls),
                (total_grow as int, total_shrink as int) == line_totals(arrays, flow@, ls as int, fi as int),
            decreases le + 1 - fi,
        {
            let kid = flow[fi];
            match get_flex_node(&arrays.flex, kid) {
                Some(kn) => {
                    total_grow = total_grow + kn.flex_grow as u128;
                    total_shrink = total_shrink + kn.flex_shrink as u128;
                },
                None => {
                    total_shrink = total_shrink + 1;
                },
            }
            fi = fi + 1;
        }
        let mut fi: usize = ls;
        let ghost im0 = ws.item_main@;
        let ghost ic0 = ws.item_cross@;
        while fi <= le
            invariant
                ls <= fi <= le + 1,
                le < flow@.len(),
                flow@.len() <= usize::MAX,
                lc > 0,
                -65535 <= free <= 65535,
                ws.intrinsic_w@ == old(ws).intrinsic_w@,
                ws.intrinsic_h@ == old(ws).intrinsic_h@,
                ws.next_sibling@ == old(ws).next_sibling@,
                size_range(&*old(ws), arrays, flow@, *c, fi as int, le as int, total_grow as int, total_shrink as int, free as int, c.cross_size / lc, ws.item_main@, ws.item_cross@)
                    == size_range(&*old(ws), arrays, flow@, *c, ls as int, le as int, total_grow as int, total_shrink as int, free as int, c.cross_size / lc, im0, ic0),
                ws.sized(n as nat),
                ws.links_agree(&arrays.core, n as nat),
                ws.first_child@ == old(ws).first_child@,
                forall|k: int| 0 <= k < flow@.len() ==> (#[trigger] flow@[k]) < n,
            decreases le + 1 - fi,
        {
            let kid = flow[fi];
            let node = get_flex_node(&arrays.flex, kid);
            let (km, kc) = match node {
                Some(kn) => {
                    let ew = resolve_dimension(kn.width, c.content_w);
                    let eh = resolve_dimension(kn.height, c.content_h);
                    let basis = resolve_dimension(kn.flex_basis, if c.is_row { c.content_w } else { c.content_h });
                    let base = if basis > 0 { basis } else { base_main(ws, node, kid, c, n) };
                    let mut km = flexed_main(base, kn.flex_grow, total_grow, kn.flex_shrink, total_shrink, free, c.is_scrollable);
                    km = if c.is_row {
                        clamp_dimension(km, kn.min_width, kn.max_width, c.content_w)
                    } else {
                        clamp_dimension(km, kn.min_height, kn.max_height, c.content_h)
                    };
                    let stretched = c.cross_size / lc;
                    let mut kc = if c.is_row {
                        if eh > 0 { eh } else if c.align_items == ALIGN_STRETCH { stretched } else { ws.intrinsic_h[kid] }
                    } else {
                        if ew > 0 { ew } else if c.align_items == ALIGN_STRETCH { stretched } else { ws.intrinsic_w[kid] }
                    };
                    kc = if c.is_row {
                        clamp_dimension(kc, kn.min_height, kn.max_height, c.content_h)
                    } else {
                        clamp_dimension(kc, kn.min_width, kn.max_width, c.content_w)
                    };
                    (km, kc)
                },
                None => {
                    if c.is_row {
                        (ws.intrinsic_w[kid], ws.intrinsic_h[kid])
                    } else {
                        (ws.intrinsic_h[kid], ws.intrinsic_w[kid])
                    }
                },
            };
            ws.item_main.set(kid, km);
            ws.item_cross.set(kid, kc);
            fi = fi + 1;
        }
        li = li + 1;
    }
    lines
}

/// The four margins of an item (top, right, bottom, left); none without a
/// FlexNode.
fn margins(node: Option<FlexNode>) -> (m: (u16, u16, u16, u16))
    ensures
        m == match node {
            Some(kn) => (kn.margin_top, kn.margin_right, kn.margin_bottom, kn.margin_left),
            None => (0u16, 0u16, 0u16, 0u16),
        },
{
    match node {
        Some(kn) => (kn.margin_top, kn.margin_right, kn.margin_bottom, kn.margin_left),
        None => (0, 0, 0, 0),
    }
}

/// Positions, sizes and extent while the items of a container are placed.
pub struct PlaceState {
    pub x: Seq<u16>,
    pub y: Seq<u16>,
    pub w: Seq<u16>,
    pub h: Seq<u16>,
    pub max_main: u16,
    pub max_cross: u16,
}

/// The four margins of an item (top, right, bottom, left).
pub open spec fn margins_spec(node: Option<FlexNode>) -> (u16, u16, u16, u16) {
    match node {
        Some(kn) => (kn.margin_top, kn.margin_right, kn.margin_bottom, kn.margin_left),
        None => (0u16, 0u16, 0u16, 0u16),
    }
}

/// Place one item at `main_offset` along its line and `cross_off` across:
/// its box is written, a non-empty text is made as high as its content
/// wraps in its width, and the extent grows to its far edges; returns the
/// new state and the main offset of the next item.
pub open spec fn place_one(
    ws: &TitanArrays,
    arrays: &Arrays,
    c: Container,
    kid: usize,
    main_offset: u16,
    cross_off: u16,
    line_height: u16,
    item_gap: u16,
    st: PlaceState,
) -> (PlaceState, u16) {
    let node = arrays.flex.node_at(kid as int);
    let (mt, mr, mb, ml) = margins_spec(node);
    let size_main = ws.item_main@[kid as int];
    let size_cross = ws.item_cross@[kid as int];
    let self_align = match node {
        Some(kn) => if kn.align_self != ALIGN_SELF_AUTO { (kn.align_self - 1) as u8 } else { c.align_items },
        None => c.align_items,
    };
    let cross_pos = cap(cross_off + cross_offset_spec(self_align, line_height, size_cross));
    let x = if c.is_row {
        if c.dir == FLEX_ROW_REVERSE {
            cap(c.content_x + minus(c.content_w as int, cap(main_offset + size_main + mr) as int))
        } else {
            cap(c.content_x + main_offset + ml)
        }
    } else {
        cap(c.content_x + cross_pos + ml)
    };
    let y = if c.is_row {
        cap(c.content_y + cross_pos + mt)
    } else if c.dir == FLEX_COLUMN_REVERSE {
        cap(c.content_y + minus(c.content_h as int, cap(main_offset + size_main + mb) as int))
    } else {
        cap(c.content_y + main_offset + mt)
    };
    let w = if c.is_row { size_main } else { size_cross };
    let content = arrays.text.content.at(kid as int);
    let h = if arrays.core.component_type.at(kid as int) == ComponentType::Text && content.len() > 0 {
        let t = text_height_spec(content, if w > 1 { w as int } else { 1 }) as u16;
        if t > 1 { t } else { 1u16 }
    } else if c.is_row {
        size_cross
    } else {
        size_main
    };
    let a = if c.is_row { cap(main_offset + ml + w + mr) } else { cap(main_offset + mt + h + mb) };
    let b = if c.is_row { cap(cross_pos + mt + h + mb) } else { cap(cross_pos + ml + w + mr) };
    let main_margin = if c.is_row { cap(ml + mr) } else { cap(mt + mb) };
    (
        PlaceState {
            x: st.x.update(kid as int, x),
            y: st.y.update(kid as int, y),
            w: st.w.update(kid as int, w),
            h: st.h.update(kid as int, h),
            max_main: if a > st.max_main { a } else { st.max_main },
            max_cross: if b > st.max_cross { b } else { st.max_cross },
        },
        cap(main_offset + cap((if c.is_row { w } else { h }) + main_margin + item_gap)),
    )
}

/// An item is placed across its line as its alignment `a` says, `a` being
/// its own `align_self` (stored one above the `align_items` values) or,
/// when that is automatic, its container's `align_items`: with END its far
/// edge (past its near margin) meets the far side of the line, with CENTER
/// it is centred in the line (to within a cell, the odd cell going to the
/// far side), otherwise it sits at the near side of the line. Across is
/// down in a row and rightwards in a column; here the item fits in its
/// line and no coordinate reaches the 16-bit limit.
pub proof fn lemma_place_one_cross(
    ws: &TitanArrays,
    arrays: &Arrays,
    c: Container,
    kid: usize,
    main_offset: u16,
    cross_off: u16,
    line_height: u16,
    item_gap: u16,
    st: PlaceState,
    a: u8,
)
    requires
        kid < st.y.len(),
        kid < st.x.len(),
        match arrays.flex.node_at(kid as int) {
            Some(kn) => (kn.align_self == ALIGN_SELF_AUTO && c.align_items == a) || kn.align_self as int == a + 1,
            None => c.align_items == a,
        },
        ws.item_cross@[kid as int] <= line_height,
        c.content_y + cross_off + line_height + margins_spec(arrays.flex.node_at(kid as int)).0 <= 65535,
        c.content_x + cross_off + line_height + margins_spec(arrays.flex.node_at(kid as int)).3 <= 65535,
    ensures
        ({
            let placed = place_one(ws, arrays, c, kid, main_offset, cross_off, line_height, item_gap, st).0;
            let m = margins_spec(arrays.flex.node_at(kid as int));
            let pos = if c.is_row { placed.y[kid as int] as int } else { placed.x[kid as int] as int };
            let near = if c.is_row { c.content_y + cross_off + m.0 } else { c.content_x + cross_off + m.3 };
            let size = ws.item_cross@[kid as int] as int;
            &&& a == ALIGN_END ==> pos + size == near + line_height
            &&& a == ALIGN_CENTER ==> (pos - near <= near + line_height - (pos + size) && near + line_height - (pos
                + size) <= pos - near + 1)
            &&& a != ALIGN_END && a != ALIGN_CENTER ==> pos == near
        }),
{
    lemma_cross_offset_meaning(a, line_height, ws.item_cross@[kid as int]);
}

/// Place the items `flow[k..=le]` of a line, one after another.
pub open spec fn place_range(
    ws: &TitanArrays,
    arrays: &Arrays,
    flow: Seq<usize>,
    c: Container,
    k: int,
    le: int,
    main_offset: u16,
    cross_off: u16,
    line_height: u16,
    item_gap: u16,
    st: PlaceState,
) -> (PlaceState, u16)
    decreases le + 1 - k,
{
    if k > le {
        (st, main_offset)
    } else {
        let (s1, o1) = place_one(ws, arrays, c, flow[k], main_offset, cross_off, line_height, item_gap, st);
        place_range(ws, arrays, flow, c, k + 1, le, o1, cross_off, line_height, item_gap, s1)
    }
}

/// The main size the items `flow[ls..k]` take with their margins and gaps.
pub open spec fn line_main_acc(ws: &TitanArrays, arrays: &Arrays, flow: Seq<usize>, c: Container, ls: int, k: int) -> u16
    decreases k - ls,
{
    if k <= ls {
        0u16
    } else {
        let kid = flow[k - 1];
        let (mt, mr, mb, ml) = margins_spec(arrays.flex.node_at(kid as int));
        let mm = if c.is_row { cap(ml + mr) } else { cap(mt + mb) };
        cap(line_main_acc(ws, arrays, flow, c, ls, k - 1) + cap(ws.item_main@[kid as int] + mm + c.gap))
    }
}

/// Place the lines from the `li`-th on (in reverse order for reversed
/// directions), each `line_height` high, starting `cross_off` across; each
/// line's items are spaced along it as `justify_spec` says for the space
/// they leave.
pub open spec fn place_lines(
    ws: &TitanArrays,
    arrays: &Arrays,
    flow: Seq<usize>,
    lines: Seq<(usize, usize, u16)>,
    c: Container,
    line_height: u16,
    li: int,
    cross_off: u16,
    st: PlaceState,
) -> PlaceState
    decreases lines.len() - li,
{
    if li >= lines.len() || li < 0 {
        st
    } else {
        let line_idx = if c.is_reverse { lines.len() - 1 - li } else { li };
        let (ls, le, _used) = lines[line_idx];
        let line_main = minus(line_main_acc(ws, arrays, flow, c, ls as int, le + 1) as int, c.gap as int);
        let remaining = minus(c.main_size as int, line_main as int);
        let (start, item_gap) = justify_spec(c.justify, remaining, cap(le - ls + 1), c.gap);
        let (s1, _o) = place_range(ws, arrays, flow, c, ls as int, le as int, start, cross_off, line_height, item_gap, st);
        place_lines(ws, arrays, flow, lines, c, line_height, li + 1, cap(cross_off + line_height), s1)
    }
}

/// The placement state read from a layout and the extent so far.
spec fn state_of(out: &ComputedLayout, max_main: u16, max_cross: u16) -> PlaceState {
    PlaceState { x: out.x@, y: out.y@, w: out.width@, h: out.height@, max_main, max_cross }
}

/// Whether two placement states agree at `j` in all four box arrays, or
/// both still hold what they started from there.
spec fn boxes_agree_or_kept(a: PlaceState, b: PlaceState, a0: PlaceState, b0: PlaceState, j: int) -> bool {
    &&& agree_or_kept(a.x, b.x, a0.x, b0.x, j)
    &&& agree_or_kept(a.y, b.y, a0.y, b0.y, j)
    &&& agree_or_kept(a.w, b.w, a0.w, b0.w, j)
    &&& agree_or_kept(a.h, b.h, a0.h, b0.h, j)
}

/// Whether a placement state has `n` entries in each box array.
spec fn state_len(st: PlaceState, n: nat) -> bool {
    st.x.len() == n && st.y.len() == n && st.w.len() == n && st.h.len() == n
}

/// Whether two working arrays hold the same item sizes at every member of
/// `flow`.
spec fn items_agree(ws1: &TitanArrays, ws2: &TitanArrays, flow: Seq<usize>) -> bool {
    forall|m: int| 0 <= m < flow.len() ==> ws1.item_main@[#[trigger] flow[m] as int] == ws2.item_main@[flow[m] as int]
        && ws1.item_cross@[flow[m] as int] == ws2.item_cross@[flow[m] as int]
}

/// Placing one item with the same item sizes from two states gives the
/// same offset and extent, and at each index the same box or both kept.
proof fn lemma_place_one_two(
    ws1: &TitanArrays,
    ws2: &TitanArrays,
    arrays: &Arrays,
    c: Container,
    kid: usize,
    main_offset: u16,
    cross_off: u16,
    line_height: u16,
    item_gap: u16,
    st1: PlaceState,
    st2: PlaceState,
    n: nat,
)
    requires
        ws1.item_main@[kid as int] == ws2.item_main@[kid as int],
        ws1.item_cross@[kid as int] == ws2.item_cross@[kid as int],
        kid < n,
        state_len(st1, n),
        state_len(st2, n),
        st1.max_main == st2.max_main,
        st1.max_cross == st2.max_cross,
    ensures
        ({
            let (a, o1) = place_one(ws1, arrays, c, kid, main_offset, cross_off, line_height, item_gap, st1);
            let (b, o2) = place_one(ws2, arrays, c, kid, main_offset, cross_off, line_height, item_gap, st2);
            &&& o1 == o2
            &&& a.max_main == b.max_main && a.max_cross == b.max_cross
            &&& state_len(a, n) && state_len(b, n)
            &&& forall|j: int| 0 <= j < n ==> boxes_agree_or_kept(a, b, st1, st2, j)
        }),
{
    let (a, o1) = place_one(ws1, arrays, c, kid, main_offset, cross_off, line_height, item_gap, st1);
    let (b, o2) = place_one(ws2, arrays, c, kid, main_offset, cross_off, line_height, item_gap, st2);
    assert forall|j: int| 0 <= j < n implies boxes_agree_or_kept(a, b, st1, st2, j) by {
        if j != kid as int {
            assert(a.x[j] == st1.x[j] && b.x[j] == st2.x[j]);
            assert(a.y[j] == st1.y[j] && b.y[j] == st2.y[j]);
            assert(a.w[j] == st1.w[j] && b.w[j] == st2.w[j]);
            assert(a.h[j] == st1.h[j] && b.h[j] == st2.h[j]);
        }
    }
}

/// `line_main_acc` reads the item sizes only at members of the flow.
proof fn lemma_line_main_acc_two(ws1: &TitanArrays, ws2: &TitanArrays, arrays: &Arrays, flow: Seq<usize>, c: Container, ls: int, k: int)
    requires
        items_agree(ws1, ws2, flow),
        0 <= ls,
        k <= flow.len(),
    ensures
        line_main_acc(ws1, arrays, flow, c, ls, k) == line_main_acc(ws2, arrays, flow, c, ls, k),
    decreases k - ls,
{
    if k > ls {
        lemma_line_main_acc_two(ws1, ws2, arrays, flow, c, ls, k - 1);
        assert(ws1.item_main@[flow[k - 1] as int] == ws2.item_main@[flow[k - 1] as int]);
    }
}

/// `lemma_place_one_two` for the items `flow[k..=le]` of a line.
proof fn lemma_place_range_two(
    ws1: &TitanArrays,
    ws2: &TitanArrays,
    arrays: &Arrays,
    flow: Seq<usize>,
    c: Container,
    k: int,
    le: int,
    main_offset: u16,
    cross_off: u16,
    line_height: u16,
    item_gap: u16,
    st1: PlaceState,
    st2: PlaceState,
    n: nat,
)
    requires
        items_agree(ws1, ws2, flow),
        0 <= k,
        le < flow.len(),
        forall|m: int| 0 <= m < flow.len() ==> (#[trigger] flow[m]) < n,
        state_len(st1, n),
        state_len(st2, n),
        st1.max_main == st2.max_main,
        st1.max_cross == st2.max_cross,
    ensures
        ({
            let (a, o1) = place_range(ws1, arrays, flow, c, k, le, main_offset, cross_off, line_height, item_gap, st1);
            let (b, o2) = place_range(ws2, arrays, flow, c, k, le, main_offset, cross_off, line_height, item_gap, st2);
            &&& o1 == o2
            &&& a.max_main == b.max_main && a.max_cross == b.max_cross
            &&& state_len(a, n) && state_len(b, n)
            &&& forall|j: int| 0 <= j < n ==> boxes_agree_or_kept(a, b, st1, st2, j)
        }),
    decreases le + 1 - k,
{
    if k <= le {
        let kid = flow[k];
        assert(ws1.item_main@[flow[k] as int] == ws2.item_main@[flow[k] as int]);
        lemma_place_one_two(ws1, ws2, arrays, c, kid, main_offset, cross_off, line_height, item_gap, st1, st2, n);
        let (s1, o1) = place_one(ws1, arrays, c, kid, main_offset, cross_off, line_height, item_gap, st1);
        let (s2, o2) = place_one(ws2, arrays, c, kid, main_offset, cross_off, line_height, item_gap, st2);
        lemma_place_range_two(ws1, ws2, arrays, flow, c, k + 1, le, o1, cross_off, line_height, item_gap, s1, s2, n);
        let (a, _p) = place_range(ws1, arrays, flow, c, k, le, main_offset, cross_off, line_height, item_gap, st1);
        let (b, _q) = place_range(ws2, arrays, flow, c, k, le, main_offset, cross_off, line_height, item_gap, st2);
        assert forall|j: int| 0 <= j < n implies boxes_agree_or_kept(a, b, st1, st2, j) by {
            assert(boxes_agree_or_kept(a, b, s1, s2, j));
            assert(boxes_agree_or_kept(s1, s2, st1, st2, j));
        }
    }
}

/// `lemma_place_range_two` for every line from the `li`-th on.
proof fn lemma_place_lines_two(
    ws1: &TitanArrays,
    ws2: &TitanArrays,
    arrays: &Arrays,
    flow: Seq<usize>,
    lines: Seq<(usize, usize, u16)>,
    c: Container,
    line_height: u16,
    li: int,
    cross_off: u16,
    st1: PlaceState,
    st2: PlaceState,
    n: nat,
)
    requires
        items_agree(ws1, ws2, flow),
        forall|m: int| 0 <= m < lines.len() ==> (#[trigger] lines[m]).1 < flow.len(),
        forall|m: int| 0 <= m < flow.len() ==> (#[trigger] flow[m]) < n,
        state_len(st1, n),
        state_len(st2, n),
        st1.max_main == st2.max_main,
        st1.max_cross == st2.max_cross,
    ensures
        ({
            let a = place_lines(ws1, arrays, flow, lines, c, line_height, li, cross_off, st1);
            let b = place_lines(ws2, arrays, flow, lines, c, line_height, li, cross_off, st2);
            &&& a.max_main == b.max_main && a.max_cross == b.max_cross
            &&& state_len(a, n) && state_len(b, n)
            &&& forall|j: int| 0 <= j < n ==> boxes_agree_or_kept(a, b, st1, st2, j)
        }),
    decreases lines.len() - li,
{
    if li < lines.len() && li >= 0 {
        let line_idx = if c.is_reverse { lines.len() - 1 - li } else { li };
        let (ls, le, _used) = lines[line_idx];
        lemma_line_main_acc_two(ws1, ws2, arrays, flow, c, ls as int, le + 1);
        let line_main = minus(line_main_acc(ws1, arrays, flow, c, ls as int, le + 1) as int, c.gap as int);
        let remaining = minus(c.main_size as int, line_main as int);
        let (start, item_gap) = justify_spec(c.justify, remaining, cap(le - ls + 1), c.gap);
        lemma_place_range_two(ws1, ws2, arrays, flow, c, ls as int, le as int, start, cross_off, line_height, item_gap, st1, st2, n);
        let (s1, _o1) = place_range(ws1, arrays, flow, c, ls as int, le as int, start, cross_off, line_height, item_gap, st1);
        let (s2, _o2) = place_range(ws2, arrays, flow, c, ls as int, le as int, start, cross_off, line_height, item_gap, st2);
        lemma_place_lines_two(ws1, ws2, arrays, flow, lines, c, line_height, li + 1, cap(cross_off + line_height), s1, s2, n);
        let a = place_lines(ws1, arrays, flow, lines, c, line_height, li, cross_off, st1);
        let b = place_lines(ws2, arrays, flow, lines, c, line_height, li, cross_off, st2);
        assert(a == place_lines(ws1, arrays, flow, lines, c, line_height, li + 1, cap(cross_off + line_height), s1));
        assert(b == place_lines(ws2, arrays, flow, lines, c, line_height, li + 1, cap(cross_off + line_height), s2));
        assert forall|j: int| 0 <= j < n implies boxes_agree_or_kept(a, b, st1, st2, j) by {
            assert(boxes_agree_or_kept(a, b, s1, s2, j));
            assert(boxes_agree_or_kept(s1, s2, st1, st2, j));
        }
    }
}

/// Placement writes boxes only at members of the flow.
proof fn lemma_place_lines_keeps(
    ws: &TitanArrays,
    arrays: &Arrays,
    flow: Seq<usize>,
    lines: Seq<(usize, usize, u16)>,
    c: Container,
    line_height: u16,
    li: int,
    cross_off: u16,
    st: PlaceState,
    n: nat,
)
    requires
        forall|m: int| 0 <= m < lines.len() ==> (#[trigger] lines[m]).1 < flow.len(),
        forall|m: int| 0 <= m < flow.len() ==> (#[trigger] flow[m]) < n,
        state_len(st, n),
    ensures
        ({
            let a = place_lines(ws, arrays, flow, lines, c, line_height, li, cross_off, st);
            &&& state_len(a, n)
            &&& forall|j: int| 0 <= j < n && !flow.contains(j as usize) ==> a.x[j] == st.x[j] && a.y[j] == st.y[j]
                && a.w[j] == st.w[j] && a.h[j] == st.h[j]
        }),
    decreases lines.len() - li,
{
    if li < lines.len() && li >= 0 {
        let line_idx = if c.is_reverse { lines.len() - 1 - li } else { li };
        let (ls, le, _used) = lines[line_idx];
        let line_main = minus(line_main_acc(ws, arrays, flow, c, ls as int, le + 1) as int, c.gap as int);
        let remaining = minus(c.main_size as int, line_main as int);
        let (start, item_gap) = justify_spec(c.justify, remaining, cap(le - ls + 1), c.gap);
        lemma_place_range_keeps(ws, arrays, flow, c, ls as int, le as int, start, cross_off, line_height, item_gap, st, n);
        let (s1, _o1) = place_range(ws, arrays, flow, c, ls as int, le as int, start, cross_off, line_height, item_gap, st);
        lemma_place_lines_keeps(ws, arrays, flow, lines, c, line_height, li + 1, cap(cross_off + line_height), s1, n);
    }
}

/// `lemma_place_lines_keeps` for the items `flow[k..=le]` of a line.
proof fn lemma_place_range_keeps(
    ws: &TitanArrays,
    arrays: &Arrays,
    flow: Seq<usize>,
    c: Container,
    k: int,
    le: int,
    main_offset: u16,
    cross_off: u16,
    line_height: u16,
    item_gap: u16,
    st: PlaceState,
    n: nat,
)
    requires
        0 <= k,
        le < flow.len(),
        forall|m: int| 0 <= m < flow.len() ==> (#[trigger] flow[m]) < n,
        state_len(st, n),
    ensures
        ({
            let (a, _o) = place_range(ws, arrays, flow, c, k, le, main_offset, cross_off, line_height, item_gap, st);
            &&& state_len(a, n)
            &&& forall|j: int| 0 <= j < n && !flow.contains(j as usize) ==> a.x[j] == st.x[j] && a.y[j] == st.y[j]
                && a.w[j] == st.w[j] && a.h[j] == st.h[j]
        }),
    decreases le + 1 - k,
{
    if k <= le {
        let kid = flow[k];
        let (s1, o1) = place_one(ws, arrays, c, kid, main_offset, cross_off, line_height, item_gap, st);
        lemma_place_range_keeps(ws, arrays, flow, c, k + 1, le, o1, cross_off, line_height, item_gap, s1, n);
        let (a, _o) = place_range(ws, arrays, flow, c, k, le, main_offset, cross_off, line_height, item_gap, st);
        assert forall|j: int| 0 <= j < n && !flow.contains(j as usize) implies a.x[j] == st.x[j] && a.y[j] == st.y[j]
            && a.w[j] == st.w[j] && a.h[j] == st.h[j] by {
            assert(flow[k] != j as usize);
            assert(s1.x[j] == st.x[j] && s1.y[j] == st.y[j] && s1.w[j] == st.w[j] && s1.h[j] == st.h[j]);
        }
    }
}

/// Step 3: place the items of each line; returns the extent of the
/// children along the main and cross axes.
fn place_items(
    ws: &TitanArrays,
    arrays: &Arrays,
    flow: &Vec<usize>,
    lines: &Vec<(usize, usize, u16)>,
    c: &Container,
    n: usize,
    parent: usize,
    out: &mut ComputedLayout,
) -> (extent: (u16, u16))
    requires
        ws.sized(n as nat),
        out_sized(&*old(out), n as nat),
        forall|k: int| 0 <= k < flow@.len() ==> (#[trigger] flow@[k]) < n && arrays.core.parent_index.at(flow@[k] as int) == Some(parent),
        forall|k: int| 0 <= k < lines@.len() ==> (#[trigger] lines@[k]).0 <= lines@[k].1 < flow@.len(),
        lines@.len() > 0,
    ensures
        out_sized(&*final(out), n as nat),
        forall|j: int| 0 <= j < n && arrays.core.parent_index.at(j) != Some(parent) ==> same_box(&*final(out), &*old(out), j),
        forall|j: int| 0 <= j < n ==> same_box(&*final(out), &*old(out), j) || (final(out).x@[j] >= c.content_x
            && final(out).y@[j] >= c.content_y),
        final(out).scrollable@ == old(out).scrollable@,
        final(out).max_scroll_x@ == old(out).max_scroll_x@,
        final(out).max_scroll_y@ == old(out).max_scroll_y@,
        final(out).content_width == old(out).content_width,
        final(out).content_height == old(out).content_height,
        state_of(&*final(out), extent.0, extent.1) == place_lines(
            ws,
            arrays,
            flow@,
            lines@,
            *c,
            c.cross_size / cap(lines@.len() as int),
            0,
            0,
            state_of(&*old(out), 0, 0),
        ),
{
    let line_count = lines.len();
    let lc: u16 = if line_count > 65535 { 65535 } else { line_count as u16 };
    let line_height = c.cross_size / lc;
    let flen = flow.len();
    let mut cross_off: u16 = 0;
    let mut max_main: u16 = 0;
    let mut max_cross: u16 = 0;
    let mut li: usize = 0;
    while li < line_count
        invariant
            li <= line_count,
            line_count == lines@.len(),
            ws.sized(n as nat),
            out_sized(&*out, n as nat),
            forall|k: int| 0 <= k < flow@.len() ==> (#[trigger] flow@[k]) < n && arrays.core.parent_index.at(flow@[k] as int) == Some(parent),
            forall|k: int| 0 <= k < lines@.len() ==> (#[trigger] lines@[k]).0 <= lines@[k].1 < flow@.len(),
            forall|j: int| 0 <= j < n && arrays.core.parent_index.at(j) != Some(parent) ==> same_box(&*out, &*old(out), j),
            forall|j: int| 0 <= j < n ==> same_box(&*out, &*old(out), j) || (out.x@[j] >= c.content_x && out.y@[j] >= c.content_y),
            out.scrollable@ == old(out).scrollable@,
            out.max_scroll_x@ == old(out).max_scroll_x@,
            out.max_scroll_y@ == old(out).max_scroll_y@,
            out.content_width == old(out).content_width,
            out.content_height == old(out).content_height,
            flen == flow@.len(),
            line_height == c.cross_size / cap(lines@.len() as int),
            place_lines(ws, arrays, flow@, lines@, *c, line_height, li as int, cross_off, state_of(&*out, max_main, max_cross))
                == place_lines(ws, arrays, flow@, lines@, *c, line_height, 0, 0, state_of(&*old(out), 0, 0)),
        decreases line_count - li,
    {
        let line_idx = if c.is_reverse { line_count - 1 - li } else { li };
        let (ls, le, _used) = lines[line_idx];
        let mut line_main: u16 = 0;
        let mut fi: usize = ls;
        while fi <= le
            invariant
                ls <= fi <= le + 1,
                le < flow@.len(),
                flow@.len() <= usize::MAX,
                ws.sized(n as nat),
                forall|k: int| 0 <= k < flow@.len() ==> (#[trigger] flow@[k]) < n,
                line_main == line_main_acc(ws, arrays, flow@, *c, ls as int, fi as int),
            decreases le + 1 - fi,
        {
            let kid = flow[fi];
            let km = ws.item_main[kid];
            let (mt, mr, mb, ml) = margins(get_flex_node(&arrays.flex, kid));
            let mm = if c.is_row { cadd(ml, mr) } else { cadd(mt, mb) };
            line_main = cadd(line_main, cadd3(km, mm, c.gap));
            fi = fi + 1;
        }
        line_main = csub(line_main, c.gap);
        let remaining = csub(c.main_size, line_main);
        let cnt = le - ls + 1;
        let count: u16 = if cnt > 65535 { 65535 } else { cnt as u16 };
        let (start_offset, item_gap) = justify_offsets(c.justify, remaining, count, c.gap);
        let mut main_offset = start_offset;
        let mut fi: usize = ls;
        let ghost st0 = state_of(&*out, max_main, max_cross);
        assert(count == cap(le - ls + 1));
        while fi <= le
            invariant
                place_range(ws, arrays, flow@, *c, fi as int, le as int, main_offset, cross_off, line_height, item_gap, state_of(&*out, max_main, max_cross))
                    == place_range(ws, arrays, flow@, *c, ls as int, le as int, start_offset, cross_off, line_height, item_gap, st0),
                ls <= fi <= le + 1,
                le < flow@.len(),
                flow@.len() <= usize::MAX,
                ws.sized(n as nat),
                out_sized(&*out, n as nat),
                forall|k: int| 0 <= k < flow@.len() ==> (#[trigger] flow@[k]) < n && arrays.core.parent_index.at(flow@[k] as int) == Some(parent),
                forall|j: int| 0 <= j < n && arrays.core.parent_index.at(j) != Some(parent) ==> same_box(&*out, &*old(out), j),
                forall|j: int| 0 <= j < n ==> same_box(&*out, &*old(out), j) || (out.x@[j] >= c.content_x && out.y@[j] >= c.content_y),
                out.scrollable@ == old(out).scrollable@,
                out.max_scroll_x@ == old(out).max_scroll_x@,
                out.max_scroll_y@ == old(out).max_scroll_y@,
            out.content_width == old(out).content_width,
            out.content_height == old(out).content_height,
            decreases le + 1 - fi,
        {
            let kid = flow[fi];
            let ghost at_start = *out;
            let ghost mx0 = max_main;
            let ghost mc0 = max_cross;
            let size_main = ws.item_main[kid];
            let size_cross = ws.item_cross[kid];
            let node = get_flex_node(&arrays.flex, kid);
            let (mt, mr, mb, ml) = margins(node);
            let self_align = match node {
                Some(kn) => if kn.align_self != ALIGN_SELF_AUTO { kn.align_self - 1 } else { c.align_items },
                None => c.align_items,
            };
            let cross_pos = cadd(cross_off, cross_offset(self_align, line_height, size_cross));
            if c.is_row {
                let x = if c.dir == FLEX_ROW_REVERSE {
                    cadd(c.content_x, csub(c.content_w, cadd3(main_offset, size_main, mr)))
                } else {
                    cadd3(c.content_x, main_offset, ml)
                };
                assert(x >= c.content_x);
                out.x.set(kid, x);
                out.y.set(kid, cadd3(c.content_y, cross_pos, mt));
                out.width.set(kid, size_main);
                out.height.set(kid, size_cross);
                assert(out.x@[kid as int] >= c.content_x && out.y@[kid as int] >= c.content_y);
            } else {
                out.x.set(kid, cadd3(c.content_x, cross_pos, ml));
                let y = if c.dir == FLEX_COLUMN_REVERSE {
                    cadd(c.content_y, csub(c.content_h, cadd3(main_offset, size_main, mb)))
                } else {
                    cadd3(c.content_y, main_offset, mt)
                };
                assert(y >= c.content_y);
                out.y.set(kid, y);
                out.width.set(kid, size_cross);
                out.height.set(kid, size_main);
                assert(out.x@[kid as int] >= c.content_x && out.y@[kid as int] >= c.content_y);
            }
            let ghost placed_kid = *out;
            match get_component_type(&arrays.core, kid) {
                ComponentType::Text => {
                    let content = get_text_content(&arrays.text, kid);
                    if !content.as_str().is_empty() {
                        let w = out.width[kid];
                        let h = measure_text_height(content.as_str(), if w > 1 { w } else { 1 });
                        out.height.set(kid, if h > 1 { h } else { 1 });
                    }
                },
                _ => {},
            }
            let ow = out.width[kid];
            let oh = out.height[kid];
            if c.is_row {
                let a = cadd4(main_offset, ml, ow, mr);
                let b = cadd4(cross_pos, mt, oh, mb);
                if a > max_main { max_main = a; }
                if b > max_cross { max_cross = b; }
            } else {
                let a = cadd4(main_offset, mt, oh, mb);
                let b = cadd4(cross_pos, ml, ow, mr);
                if a > max_main { max_main = a; }
                if b > max_cross { max_cross = b; }
            }
            let main_margin = if c.is_row { cadd(ml, mr) } else { cadd(mt, mb) };
            let ghost prev_offset = main_offset;
            main_offset = cadd(main_offset, cadd3(if c.is_row { ow } else { oh }, main_margin, item_gap));
            proof {
                let st_before = state_of(&at_start, mx0, mc0);
                let k = kid as int;
                assert(out.x@ =~= at_start.x@.update(k, out.x@[k]));
                assert(out.y@ =~= at_start.y@.update(k, out.y@[k]));
                assert(out.width@ =~= at_start.width@.update(k, out.width@[k]));
                assert(out.height@ =~= at_start.height@.update(k, out.height@[k]));
                assert((mt, mr, mb, ml) == margins_spec(arrays.flex.node_at(k)));
                assert(size_main == ws.item_main@[k]);
                assert(size_cross == ws.item_cross@[k]);
                let (sx, sn) = place_one(ws, arrays, *c, kid, prev_offset, cross_off, line_height, item_gap, st_before);
                assert(sx.x[k] == out.x@[k]);
                assert(sx.y[k] == out.y@[k]);
                assert(sx.w[k] == out.width@[k]);
                assert(sx.h[k] == out.height@[k]);
                assert(sx.x =~= out.x@);
                assert(sx.y =~= out.y@);
                assert(sx.w =~= out.width@);
                assert(sx.h =~= out.height@);
                assert(sx.max_main == max_main);
                assert(sx.max_cross == max_cross);
                assert(sn == main_offset);
                assert(place_one(ws, arrays, *c, kid, prev_offset, cross_off, line_height, item_gap, st_before) == (
                    state_of(&*out, max_main, max_cross), main_offset));
                assert(out.x@[kid as int] == placed_kid.x@[kid as int]);
                assert(out.y@[kid as int] == placed_kid.y@[kid as int]);
                assert(out.x@[kid as int] >= c.content_x && out.y@[kid as int] >= c.content_y);
                assert forall|j: int| 0 <= j < n implies same_box(&*out, &*old(out), j) || (out.x@[j] >= c.content_x
                    && out.y@[j] >= c.content_y) by {
                    if j != kid {
                        assert(same_box(&*out, &at_start, j));
                        assert(same_box(&at_start, &*old(out), j) || (at_start.x@[j] >= c.content_x
                            && at_start.y@[j] >= c.content_y));
                    }
                }
            }
            fi = fi + 1;
        }
        cross_off = cadd(cross_off, line_height);
        li = li + 1;
    }
    (max_main, max_cross)
}

/// The container a parent with FlexNode `pn` offers its children: its
/// content area in `out` (inside padding and border) and its flex
/// properties. A parent scrolls its children when its overflow scrolls, or
/// when it is a root and heights are constrained.
pub open spec fn container_spec(out: &ComputedLayout, arrays: &Arrays, pn: FlexNode, parent: usize, constrain_height: bool) -> Container {
    let content_w = minus(out.width@[parent as int] as int, extra_w(pn) as int);
    let content_h = minus(out.height@[parent as int] as int, extra_h(pn) as int);
    let dir = pn.flex_direction;
    let is_row = dir == FLEX_ROW || dir == FLEX_ROW_REVERSE;
    Container {
        content_x: content_left(out, pn, parent as int),
        content_y: content_top(out, pn, parent as int),
        content_w,
        content_h,
        dir,
        justify: pn.justify_content,
        align_items: pn.align_items,
        gap: pn.gap,
        is_row,
        is_reverse: dir == FLEX_ROW_REVERSE || dir == FLEX_COLUMN_REVERSE,
        is_scrollable: scrolls(pn.overflow) || (arrays.core.parent_index.at(parent as int) is None && constrain_height),
        main_size: if is_row { content_w } else { content_h },
        cross_size: if is_row { content_h } else { content_w },
    }
}

/// What laying out the flow children of `parent` leaves in the layout and
/// the working arrays: the items' sizes `size_lines` gives, the boxes
/// `place_lines` gives with those sizes (lines as `flex_lines_spec` breaks
/// the items' base sizes), and,
/// for a parent that scrolls and whose overflow is `scroll` or whose
/// children reach past its content area, the scroll ranges. Nothing
/// changes without a FlexNode or flow children.
spec fn children_laid_out(
    before: &ComputedLayout,
    after: &ComputedLayout,
    sized: &TitanArrays,
    sizes: &TitanArrays,
    arrays: &Arrays,
    parent: usize,
    n: nat,
    constrain_height: bool,
) -> bool {
    match arrays.flex.node_at(parent as int) {
        None => *after == *before && *sizes == *sized,
        Some(pn) => {
            let flow = in_flow_of(arrays, children_spec(sized, parent, n));
            if flow.len() == 0 {
                *after == *before && *sizes == *sized
            } else {
                let c = container_spec(before, arrays, pn, parent, constrain_height);
                let lines = as_index_lines(
                    flex_lines_spec(mains_of(sized, arrays, flow, c), pn.flex_wrap != WRAP_NOWRAP, c.gap, c.main_size),
                );
                let st = place_lines(
                    sizes,
                    arrays,
                    flow,
                    lines,
                    c,
                    c.cross_size / cap(lines.len() as int),
                    0,
                    0,
                    state_of(before, 0, 0),
                );
                let max_x = if c.is_row { st.max_main } else { st.max_cross };
                let max_y = if c.is_row { st.max_cross } else { st.max_main };
                let range_x = minus(max_x as int, c.content_w as int);
                let range_y = minus(max_y as int, c.content_h as int);
                &&& lines_within(lines, flow.len())
                &&& (sizes.item_main@, sizes.item_cross@) == size_lines(
                    sized,
                    arrays,
                    flow,
                    lines,
                    c,
                    0,
                    sized.item_main@,
                    sized.item_cross@,
                )
                &&& sizes.intrinsic_w@ == sized.intrinsic_w@
                &&& sizes.intrinsic_h@ == sized.intrinsic_h@
                &&& after.x@ == st.x
                &&& after.y@ == st.y
                &&& after.width@ == st.w
                &&& after.height@ == st.h
                &&& after.content_width == before.content_width
                &&& after.content_height == before.content_height
                &&& if c.is_scrollable && (pn.overflow == 2 || range_x > 0 || range_y > 0) {
                    &&& after.scrollable@ == before.scrollable@.update(parent as int, 1u8)
                    &&& after.max_scroll_x@ == before.max_scroll_x@.update(parent as int, range_x)
                    &&& after.max_scroll_y@ == before.max_scroll_y@.update(parent as int, range_y)
                } else {
                    &&& after.scrollable@ == before.scrollable@
                    &&& after.max_scroll_x@ == before.max_scroll_x@
                    &&& after.max_scroll_y@ == before.max_scroll_y@
                }
            }
        },
    }
}

/// Whether `p` holds no scroll range.
pub open spec fn no_scroll(l: &ComputedLayout, p: int) -> bool {
    l.scrollable@[p] == 0 && l.max_scroll_x@[p] == 0 && l.max_scroll_y@[p] == 0
}

/// Every line ends within the first `len` items.
pub open spec fn lines_within(lines: Seq<(usize, usize, u16)>, len: nat) -> bool {
    forall|m: int| 0 <= m < lines.len() ==> (#[trigger] lines[m]).1 < len
}

/// A placement state with every box zero and no extent.
pub open spec fn zero_state(n: nat) -> PlaceState {
    let z = Seq::new(n, |i: int| 0u16);
    PlaceState { x: z, y: z, w: z, h: z, max_main: 0, max_cross: 0 }
}

/// What flex layout gives the flow children of `p` (its children as the
/// working arrays link them, less those positioned absolutely), inside the
/// content area of `p`'s box in `l`: the lines `flex_lines_spec` breaks
/// the items' base sizes into; each item's main and cross size as
/// `size_lines` gives it (from sizes of zero), held in the working arrays;
/// each item's box as `place_lines` gives it with those sizes (from boxes
/// of zero); and, where the container scrolls and its overflow is `scroll`
/// or its items reach past its content area, `p`'s scroll ranges. Without
/// a FlexNode the flow children keep boxes of zero; a parent that does not
/// scroll holds no scroll range.
pub open spec fn children_placed(
    l: &ComputedLayout,
    ws: &TitanArrays,
    arrays: &Arrays,
    p: usize,
    n: nat,
    constrain_height: bool,
) -> bool {
    let flow = in_flow_of(arrays, children_spec(ws, p, n));
    match arrays.flex.node_at(p as int) {
        None => (forall|k: int| 0 <= k < flow.len() ==> #[trigger] zero_box(l, flow[k] as int)) && no_scroll(l, p as int),
        Some(pn) => if flow.len() == 0 {
            no_scroll(l, p as int)
        } else {
            flow_placed(l, ws, arrays, pn, p, flow, container_spec(l, arrays, pn, p, constrain_height), n)
        },
    }
}

/// The lines, sizes, boxes and scroll ranges `children_placed` describes,
/// for a parent with FlexNode `pn` offering container `c` to `flow`.
pub open spec fn flow_placed(
    l: &ComputedLayout,
    ws: &TitanArrays,
    arrays: &Arrays,
    pn: FlexNode,
    p: usize,
    flow: Seq<usize>,
    c: Container,
    n: nat,
) -> bool {
    let lines = as_index_lines(
        flex_lines_spec(mains_of(ws, arrays, flow, c), pn.flex_wrap != WRAP_NOWRAP, c.gap, c.main_size),
    );
    let z = Seq::new(n, |i: int| 0u16);
    let sizes = size_lines(ws, arrays, flow, lines, c, 0, z, z);
    let st = place_lines(ws, arrays, flow, lines, c, c.cross_size / cap(lines.len() as int), 0, 0, zero_state(n));
    let max_x = if c.is_row { st.max_main } else { st.max_cross };
    let max_y = if c.is_row { st.max_cross } else { st.max_main };
    let range_x = minus(max_x as int, c.content_w as int);
    let range_y = minus(max_y as int, c.content_h as int);
    &&& lines_within(lines, flow.len())
    &&& forall|k: int| 0 <= k < flow.len() ==> {
        let ch = #[trigger] flow[k] as int;
        &&& ws.item_main@[ch] == sizes.0[ch]
        &&& ws.item_cross@[ch] == sizes.1[ch]
        &&& l.x@[ch] == st.x[ch]
        &&& l.y@[ch] == st.y[ch]
        &&& l.width@[ch] == st.w[ch]
        &&& l.height@[ch] == st.h[ch]
    }
    &&& if c.is_scrollable && (pn.overflow == 2 || range_x > 0 || range_y > 0) {
        &&& l.scrollable@[p as int] == 1
        &&& l.max_scroll_x@[p as int] == range_x
        &&& l.max_scroll_y@[p as int] == range_y
    } else {
        no_scroll(l, p as int)
    }
}

/// The flow children of `p` are children of `p` below `n`.
proof fn lemma_flow_bounds(ws: &TitanArrays, arrays: &Arrays, p: usize, n: nat)
    requires
        ws.sized(n),
        ws.links_agree(&arrays.core, n),
        p < n,
    ensures
        forall|k: int| 0 <= k < in_flow_of(arrays, children_spec(ws, p, n)).len() ==> {
            let ch = #[trigger] in_flow_of(arrays, children_spec(ws, p, n))[k];
            ch < n && arrays.core.parent_index.at(ch as int) == Some(p) && !is_absolute(arrays.flex.node_at(ch as int))
        },
{
    lemma_children_parent(ws, &arrays.core, p, n);
    lemma_in_flow_sub(arrays, children_spec(ws, p, n));
    let kids = children_spec(ws, p, n);
    assert forall|k: int| 0 <= k < in_flow_of(arrays, kids).len() implies {
        let ch = #[trigger] in_flow_of(arrays, kids)[k];
        ch < n && arrays.core.parent_index.at(ch as int) == Some(p) && !is_absolute(arrays.flex.node_at(ch as int))
    } by {
        let ch = in_flow_of(arrays, kids)[k];
        assert(kids.contains(ch));
        let w = choose|w: int| 0 <= w < kids.len() && kids[w] == ch;
        assert(kids[w] < n);
    }
}

/// `children_placed` reads the layout only at `p` and its flow children,
/// and the working arrays only in their links, intrinsic sizes and the
/// item sizes of those children.
proof fn lemma_children_placed_frame(
    l1: &ComputedLayout,
    l2: &ComputedLayout,
    ws1: &TitanArrays,
    ws2: &TitanArrays,
    arrays: &Arrays,
    p: usize,
    n: nat,
    constrain_height: bool,
)
    requires
        children_placed(l1, ws1, arrays, p, n, constrain_height),
        ws1.sized(n),
        ws1.links_agree(&arrays.core, n),
        p < n,
        ws1.first_child@ == ws2.first_child@,
        ws1.next_sibling@ == ws2.next_sibling@,
        ws1.intrinsic_w@ == ws2.intrinsic_w@,
        ws1.intrinsic_h@ == ws2.intrinsic_h@,
        same_box(l1, l2, p as int),
        l1.scrollable@[p as int] == l2.scrollable@[p as int],
        l1.max_scroll_x@[p as int] == l2.max_scroll_x@[p as int],
        l1.max_scroll_y@[p as int] == l2.max_scroll_y@[p as int],
        forall|j: int| 0 <= j < n && arrays.core.parent_index.at(j) == Some(p) && !is_absolute(arrays.flex.node_at(j))
            ==> #[trigger] same_box(l1, l2, j) && ws1.item_main@[j] == ws2.item_main@[j] && ws1.item_cross@[j] == ws2.item_cross@[j],
    ensures
        children_placed(l2, ws2, arrays, p, n, constrain_height),
{
    lemma_flow_bounds(ws1, arrays, p, n);
    let flow = in_flow_of(arrays, children_spec(ws1, p, n));
    assert(children_spec(ws2, p, n) == children_spec(ws1, p, n));
    assert forall|k: int| 0 <= k < flow.len() implies same_box(l1, l2, #[trigger] flow[k] as int) by {
        let ch = flow[k] as int;
        assert(same_box(l1, l2, ch));
    }
    match arrays.flex.node_at(p as int) {
        None => {
            assert forall|k: int| 0 <= k < flow.len() implies #[trigger] zero_box(l2, flow[k] as int) by {
                assert(zero_box(l1, flow[k] as int));
                assert(same_box(l1, l2, flow[k] as int));
            }
        },
        Some(pn) => {
            if flow.len() > 0 {
                let c = container_spec(l1, arrays, pn, p, constrain_height);
                assert(container_spec(l2, arrays, pn, p, constrain_height) == c);
                assert(mains_of(ws1, arrays, flow, c) =~= mains_of(ws2, arrays, flow, c));
                let lines = as_index_lines(
                    flex_lines_spec(mains_of(ws1, arrays, flow, c), pn.flex_wrap != WRAP_NOWRAP, c.gap, c.main_size),
                );
                let z = Seq::new(n, |i: int| 0u16);
                assert(flow_placed(l1, ws1, arrays, pn, p, flow, c, n));
                lemma_size_lines_two(ws1, ws2, arrays, flow, lines, c, 0, z, z, z, z);
                assert(items_agree(ws1, ws2, flow)) by {
                    assert forall|m: int| 0 <= m < flow.len() implies ws1.item_main@[#[trigger] flow[m] as int] == ws2.item_main@[flow[m] as int]
                        && ws1.item_cross@[flow[m] as int] == ws2.item_cross@[flow[m] as int] by {
                        let ch = flow[m] as int;
                        assert(same_box(l1, l2, ch));
                    }
                }
                let lh = c.cross_size / cap(lines.len() as int);
                lemma_place_lines_two(ws1, ws2, arrays, flow, lines, c, lh, 0, 0, zero_state(n), zero_state(n), n);
                let s1 = size_lines(ws1, arrays, flow, lines, c, 0, z, z);
                let s2 = size_lines(ws2, arrays, flow, lines, c, 0, z, z);
                let a = place_lines(ws1, arrays, flow, lines, c, lh, 0, 0, zero_state(n));
                let b = place_lines(ws2, arrays, flow, lines, c, lh, 0, 0, zero_state(n));
                assert forall|k: int| 0 <= k < flow.len() implies {
                    let ch = #[trigger] flow[k] as int;
                    &&& ws2.item_main@[ch] == s2.0[ch]
                    &&& ws2.item_cross@[ch] == s2.1[ch]
                    &&& l2.x@[ch] == b.x[ch]
                    &&& l2.y@[ch] == b.y[ch]
                    &&& l2.width@[ch] == b.w[ch]
                    &&& l2.height@[ch] == b.h[ch]
                } by {
                    let ch = flow[k] as int;
                    assert(agree_or_kept(s1.0, s2.0, z, z, ch));
                    assert(agree_or_kept(s1.1, s2.1, z, z, ch));
                    assert(boxes_agree_or_kept(a, b, zero_state(n), zero_state(n), ch));
                    assert(same_box(l1, l2, ch));
                }
                assert(flow_placed(l2, ws2, arrays, pn, p, flow, c, n));
            }
        },
    }
}

/// Whether `c` is linked as a child of `p` in the working arrays (below
/// `n`).
pub open spec fn linked_child(ws: &TitanArrays, p: int, c: int, n: nat) -> bool {
    children_spec(ws, p as usize, n).contains(c as usize)
}

/// Whether `chain` leads from a layout root down the child links of the
/// working arrays (below `n`), each member a linked child (`linked_child`)
/// of the one before it.
pub open spec fn root_chain(reg: &Registry, arrays: &Arrays, ws: &TitanArrays, chain: Seq<usize>, n: nat) -> bool {
    &&& chain.len() > 0
    &&& is_layout_root(reg, &arrays.core, chain[0] as int)
    &&& forall|i: int| 0 <= i < chain.len() ==> (#[trigger] chain[i]) < n
    &&& forall|i: int| 0 <= i < chain.len() - 1 ==> children_spec(ws, #[trigger] chain[i], n).contains(chain[i + 1])
}

/// Whether `c` is reached from a layout root along the child links of the
/// working arrays: the components the layout lays out.
pub open spec fn reached(reg: &Registry, arrays: &Arrays, ws: &TitanArrays, c: int, n: nat) -> bool {
    exists|chain: Seq<usize>| #[trigger] root_chain(reg, arrays, ws, chain, n) && chain.last() as int == c
}

/// Component `i` holds the intrinsic size `intrinsic_of` gives it, or zero
/// where that gives none.
pub open spec fn intrinsic_measured(ws: &TitanArrays, arrays: &Arrays, i: usize, n: nat, tw: u16, th: u16) -> bool {
    let z = Seq::new(n, |k: int| 0u16);
    intrinsic_done(arrays, ws, z, z, i, n, tw, th)
}

/// Every queued component is reached: the roots start the queue and each
/// later member is a linked child of an earlier one.
proof fn lemma_queued_reached(
    reg: &Registry,
    arrays: &Arrays,
    ws1: &TitanArrays,
    ws2: &TitanArrays,
    queue: Seq<usize>,
    roots: Seq<usize>,
    n: nat,
    k: int,
)
    requires
        ws2.first_child@ == ws1.first_child@,
        ws2.next_sibling@ == ws1.next_sibling@,
        queue.len() >= roots.len(),
        queue.take(roots.len() as int) == roots,
        forall|m: int| 0 <= m < roots.len() ==> is_layout_root(reg, &arrays.core, (#[trigger] roots[m]) as int),
        forall|m: int| 0 <= m < queue.len() ==> (#[trigger] queue[m]) < n,
        forall|m: int| roots.len() <= m < queue.len() ==> #[trigger] child_earlier(ws1, queue, m, n),
        0 <= k < queue.len(),
    ensures
        reached(reg, arrays, ws2, queue[k] as int, n),
    decreases k,
{
    if k < roots.len() {
        assert(queue.take(roots.len() as int)[k] == roots[k]);
        let chain = seq![queue[k]];
        assert(root_chain(reg, arrays, ws2, chain, n));
    } else {
        assert(child_earlier(ws1, queue, k, n));
        let j = choose|j: int| 0 <= j < k && children_spec(ws1, #[trigger] queue[j], n).contains(queue[k]);
        lemma_queued_reached(reg, arrays, ws1, ws2, queue, roots, n, j);
        let ch = choose|ch: Seq<usize>| #[trigger] root_chain(reg, arrays, ws2, ch, n) && ch.last() as int == queue[j] as int;
        let ch2 = ch.push(queue[k]);
        assert(children_spec(ws2, queue[j], n) == children_spec(ws1, queue[j], n));
        assert forall|i: int| 0 <= i < ch2.len() - 1 implies children_spec(ws2, #[trigger] ch2[i], n).contains(ch2[i + 1]) by {
            if i < ch.len() - 1 {
                assert(ch2[i] == ch[i] && ch2[i + 1] == ch[i + 1]);
            } else {
                assert(ch2[i] == queue[j]);
                assert(ch2[i + 1] == queue[k]);
            }
        }
        assert(ch2[0] == ch[0]);
        assert(root_chain(reg, arrays, ws2, ch2, n));
        assert(ch2.last() == queue[k]);
    }
}

/// Every member of a root chain is in a queue that holds the roots and
/// every linked child of its members.
proof fn lemma_chain_queued(
    reg: &Registry,
    arrays: &Arrays,
    ws: &TitanArrays,
    queue: Seq<usize>,
    roots: Seq<usize>,
    chain: Seq<usize>,
    n: nat,
    i: int,
)
    requires
        root_chain(reg, arrays, ws, chain, n),
        0 <= i < chain.len(),
        forall|r: int| is_layout_root(reg, &arrays.core, r) ==> roots.contains(r as usize),
        queue.len() >= roots.len(),
        queue.take(roots.len() as int) == roots,
        forall|k: int, m: int| 0 <= k < queue.len() && 0 <= m < children_spec(ws, queue[k], n).len()
            ==> queue.contains(#[trigger] children_spec(ws, queue[k], n)[m]),
    ensures
        queue.contains(chain[i]),
    decreases i,
{
    if i == 0 {
        let w = choose|w: int| 0 <= w < roots.len() && roots[w] == chain[0] as int as usize;
        assert(queue.take(roots.len() as int)[w] == roots[w]);
        assert(queue[w] == chain[0]);
    } else {
        lemma_chain_queued(reg, arrays, ws, queue, roots, chain, n, i - 1);
        let k = choose|k: int| 0 <= k < queue.len() && queue[k] == chain[i - 1];
        assert(children_spec(ws, chain[i - 1], n).contains(chain[i]));
        let kids = children_spec(ws, chain[i - 1], n);
        let m = choose|m: int| 0 <= m < kids.len() && kids[m] == chain[i];
        assert(children_spec(ws, queue[k], n)[m] == chain[i]);
    }
}

/// Laying out the children of `parent` whose flow children held boxes and
/// sizes of zero, and which held no scroll range, leaves them as
/// `children_placed` says; it changes item sizes only at children of
/// `parent` and scroll ranges only at `parent`.
proof fn lemma_laid_out_placed(
    before: &ComputedLayout,
    after: &ComputedLayout,
    sized: &TitanArrays,
    sizes: &TitanArrays,
    arrays: &Arrays,
    parent: usize,
    n: nat,
    constrain_height: bool,
)
    requires
        children_laid_out(before, after, sized, sizes, arrays, parent, n, constrain_height),
        n <= usize::MAX,
        sized.sized(n),
        sized.links_agree(&arrays.core, n),
        parent < n,
        out_sized(before, n),
        sizes.first_child@ == sized.first_child@,
        sizes.next_sibling@ == sized.next_sibling@,
        sizes.item_main@.len() == n,
        sizes.item_cross@.len() == n,
        same_box(after, before, parent as int),
        forall|j: int| 0 <= j < n && arrays.core.parent_index.at(j) == Some(parent) ==> #[trigger] zero_box(before, j)
            && sized.item_main@[j] == 0 && sized.item_cross@[j] == 0,
        no_scroll(before, parent as int),
    ensures
        children_placed(after, sizes, arrays, parent, n, constrain_height),
        sizes.intrinsic_w@ == sized.intrinsic_w@,
        sizes.intrinsic_h@ == sized.intrinsic_h@,
        forall|j: int| 0 <= j < n && arrays.core.parent_index.at(j) != Some(parent) ==> #[trigger] sizes.item_main@[j]
            == sized.item_main@[j] && sizes.item_cross@[j] == sized.item_cross@[j],
        forall|j: int| 0 <= j < n && j != parent ==> #[trigger] after.scrollable@[j] == before.scrollable@[j]
            && after.max_scroll_x@[j] == before.max_scroll_x@[j] && after.max_scroll_y@[j] == before.max_scroll_y@[j],
        forall|j: int| 0 <= j < n && !in_flow_of(arrays, children_spec(sized, parent, n)).contains(j as usize) ==> #[trigger] same_box(
            after,
            before,
            j,
        ),
{
    lemma_flow_bounds(sized, arrays, parent, n);
    let fl = in_flow_of(arrays, children_spec(sized, parent, n));
    assert(children_spec(sizes, parent, n) == children_spec(sized, parent, n));
    match arrays.flex.node_at(parent as int) {
        None => {
            assert forall|k: int| 0 <= k < fl.len() implies #[trigger] zero_box(after, fl[k] as int) by {
                assert(arrays.core.parent_index.at(fl[k] as int) == Some(parent));
            }
        },
        Some(pn) => {
            if fl.len() > 0 {
                let c = container_spec(before, arrays, pn, parent, constrain_height);
                let sl = as_index_lines(
                    flex_lines_spec(mains_of(sized, arrays, fl, c), pn.flex_wrap != WRAP_NOWRAP, c.gap, c.main_size),
                );
                let z = Seq::new(n, |i: int| 0u16);
                assert(mains_of(sized, arrays, fl, c) =~= mains_of(sizes, arrays, fl, c));
                lemma_size_lines_two(sized, sizes, arrays, fl, sl, c, 0, sized.item_main@, sized.item_cross@, z, z);
                let lh = c.cross_size / cap(sl.len() as int);
                let st = place_lines(sizes, arrays, fl, sl, c, lh, 0, 0, state_of(before, 0, 0));
                lemma_place_lines_two(sizes, sizes, arrays, fl, sl, c, lh, 0, 0, state_of(before, 0, 0), zero_state(n), n);
                let sz = size_lines(sizes, arrays, fl, sl, c, 0, z, z);
                let sz1 = size_lines(sized, arrays, fl, sl, c, 0, sized.item_main@, sized.item_cross@);
                let zt = place_lines(sizes, arrays, fl, sl, c, lh, 0, 0, zero_state(n));
                lemma_place_lines_keeps(sizes, arrays, fl, sl, c, lh, 0, 0, state_of(before, 0, 0), n);
                assert forall|j: int| 0 <= j < n && !fl.contains(j as usize) implies #[trigger] same_box(after, before, j) by {
                    assert(after.x@ == st.x && after.y@ == st.y && after.width@ == st.w && after.height@ == st.h);
                }
                assert(container_spec(after, arrays, pn, parent, constrain_height) == c);
                assert forall|k: int| 0 <= k < fl.len() implies {
                    let ch = #[trigger] fl[k] as int;
                    &&& sizes.item_main@[ch] == sz.0[ch]
                    &&& sizes.item_cross@[ch] == sz.1[ch]
                    &&& after.x@[ch] == zt.x[ch]
                    &&& after.y@[ch] == zt.y[ch]
                    &&& after.width@[ch] == zt.w[ch]
                    &&& after.height@[ch] == zt.h[ch]
                } by {
                    let ch = fl[k] as int;
                    assert(arrays.core.parent_index.at(ch) == Some(parent));
                    assert(zero_box(before, ch));
                    assert(agree_or_kept(sz1.0, sz.0, sized.item_main@, z, ch));
                    assert(agree_or_kept(sz1.1, sz.1, sized.item_cross@, z, ch));
                    assert(boxes_agree_or_kept(st, zt, state_of(before, 0, 0), zero_state(n), ch));
                }
                assert(flow_placed(after, sizes, arrays, pn, parent, fl, c, n));
                assert forall|j: int| 0 <= j < n && arrays.core.parent_index.at(j) != Some(parent) implies #[trigger] sizes.item_main@[j]
                    == sized.item_main@[j] && sizes.item_cross@[j] == sized.item_cross@[j] by {
                    if fl.contains(j as usize) {
                        let w = choose|w: int| 0 <= w < fl.len() && fl[w] == j as usize;
                        assert(arrays.core.parent_index.at(fl[w] as int) == Some(parent));
                    }
                    assert(sizes.item_main@ == sz1.0);
                    assert(sz1.0[j] == sized.item_main@[j]);
                    assert(sz1.1[j] == sized.item_cross@[j]);
                }
            } else {
                assert(*sizes == *sized);
            }
        },
    }
}

/// Lay out the flow children of one parent, and record whether the parent
/// scrolls.
fn layout_children(ws: &mut TitanArrays, arrays: &Arrays, parent: usize, n: usize, constrain_height: bool, out: &mut ComputedLayout)
    requires
        old(ws).sized(n as nat),
        old(ws).links_agree(&arrays.core, n as nat),
        parent < n,
        out_sized(&*old(out), n as nat),
    ensures
        final(ws).sized(n as nat),
        final(ws).links_agree(&arrays.core, n as nat),
        final(ws).first_child@ == old(ws).first_child@,
        final(ws).next_sibling@ == old(ws).next_sibling@,
        out_sized(&*final(out), n as nat),
        forall|j: int| 0 <= j < n && arrays.core.parent_index.at(j) != Some(parent) ==> same_box(&*final(out), &*old(out), j),
        old(ws).first_child@[parent as int] is None ==> forall|j: int| 0 <= j < n ==> same_box(&*final(out), &*old(out), j),
        forall|j: int| 0 <= j < n ==> same_box(&*final(out), &*old(out), j) || match arrays.flex.node_at(parent as int) {
            Some(pn) => final(out).x@[j] >= content_left(&*old(out), pn, parent as int) && final(out).y@[j] >= content_top(
                &*old(out),
                pn,
                parent as int,
            ),
            None => false,
        },
        children_laid_out(&*old(out), &*final(out), &*old(ws), &*final(ws), arrays, parent, n as nat, constrain_height),
{
    let pn = match get_flex_node(&arrays.flex, parent) {
        Some(p) => p,
        None => {
            return;
        },
    };
    let flow = flow_children(ws, arrays, n, parent);
    if flow.len() == 0 {
        return;
    }
    let content_x = cadd3(out.x[parent], pn.padding_left, border_cells_exec(pn.border_left));
    let content_y = cadd3(out.y[parent], pn.padding_top, border_cells_exec(pn.border_top));
    let content_w = csub(out.width[parent], extra_w_exec(&pn));
    let content_h = csub(out.height[parent], extra_h_exec(&pn));
    let dir = pn.flex_direction;
    let is_row = dir == FLEX_ROW || dir == FLEX_ROW_REVERSE;
    let is_reverse = dir == FLEX_ROW_REVERSE || dir == FLEX_COLUMN_REVERSE;
    let is_root = get_parent_index(&arrays.core, parent).is_none();
    let scroll_mode = scrolls_exec(pn.overflow);
    let is_scrollable = scroll_mode || (is_root && constrain_height);
    let c = Container {
        content_x,
        content_y,
        content_w,
        content_h,
        dir,
        justify: pn.justify_content,
        align_items: pn.align_items,
        gap: pn.gap,
        is_row,
        is_reverse,
        is_scrollable,
        main_size: if is_row { content_w } else { content_h },
        cross_size: if is_row { content_h } else { content_w },
    };
    assert(c == container_spec(&*old(out), arrays, pn, parent, constrain_height));
    let ghost sized_ws = *ws;
    let lines = size_items(ws, arrays, &flow, &c, pn.flex_wrap, n);
    assert(c.content_x == content_left(&*old(out), pn, parent as int));
    assert(c.content_y == content_top(&*old(out), pn, parent as int));
    let (max_main, max_cross) = place_items(ws, arrays, &flow, &lines, &c, n, parent, out);
    let ghost placed = *out;
    if is_scrollable {
        let (max_x, max_y) = if is_row { (max_main, max_cross) } else { (max_cross, max_main) };
        let range_x = csub(max_x, content_w);
        let range_y = csub(max_y, content_h);
        if pn.overflow == 2 || range_x > 0 || range_y > 0 {
            out.scrollable.set(parent, 1);
            out.max_scroll_x.set(parent, range_x);
            out.max_scroll_y.set(parent, range_y);
        }
    }
    assert forall|j: int| 0 <= j < n implies same_box(&*out, &*old(out), j) || (out.x@[j] >= content_left(&*old(out), pn, parent as int)
        && out.y@[j] >= content_top(&*old(out), pn, parent as int)) by {
        assert(same_box(&*out, &placed, j));
        assert(same_box(&placed, &*old(out), j) || (placed.x@[j] >= c.content_x && placed.y@[j] >= c.content_y));
    }
    proof {
        let fl = in_flow_of(arrays, children_spec(&*old(ws), parent, n as nat));
        assert(flow@ == fl);
        let sl = as_index_lines(
            flex_lines_spec(mains_of(&*old(ws), arrays, fl, c), pn.flex_wrap != WRAP_NOWRAP, c.gap, c.main_size),
        );
        assert(lines@ == sl);
        assert(lines_within(sl, fl.len()));
        let st = place_lines(ws, arrays, fl, sl, c, c.cross_size / cap(sl.len() as int), 0, 0, state_of(&*old(out), 0, 0));
        assert(state_of(&placed, max_main, max_cross) == st);
        assert(placed.x@ == st.x);
        assert(out.x@ == placed.x@);
        assert(out.y@ == placed.y@);
        assert(out.width@ == placed.width@);
        assert(out.height@ == placed.height@);
        assert(out.content_width == old(out).content_width);
    }
}



// =============================================================================
// Absolute positioning
// =============================================================================

/// The containing block found from `c` within `fuel` steps up the parent
/// chain: the first laid-out component (below `n` and present) whose
/// FlexNode is not relatively positioned.
spec fn block_within(arrays: &Arrays, present: Seq<bool>, n: nat, c: usize, fuel: nat) -> Option<usize>
    decreases fuel,
{
    if c < n && present[c as int] && (arrays.flex.node_at(c as int) matches Some(cn) && cn.position != POS_RELATIVE) {
        Some(c)
    } else {
        match arrays.core.parent_index.at(c as int) {
            Some(p) => if fuel > 0 {
                block_within(arrays, present, n, p, (fuel - 1) as nat)
            } else {
                None
            },
            None => None,
        }
    }
}

/// Whether the walk up the parent chain from `c`, looking for a containing
/// block (see `block_within`), stops within `fuel` steps: at an accepted
/// component or at one without a parent.
spec fn block_walk_ends(arrays: &Arrays, present: Seq<bool>, n: nat, c: usize, fuel: nat) -> bool
    decreases fuel,
{
    if c < n && present[c as int] && (arrays.flex.node_at(c as int) matches Some(cn) && cn.position != POS_RELATIVE) {
        true
    } else {
        match arrays.core.parent_index.at(c as int) {
            Some(p) => fuel > 0 && block_walk_ends(arrays, present, n, p, (fuel - 1) as nat),
            None => true,
        }
    }
}

/// Steps enough for the walk from `c` to stop, where it stops.
spec fn walk_fuel(arrays: &Arrays, present: Seq<bool>, n: nat, c: usize) -> nat {
    choose|f: nat| block_walk_ends(arrays, present, n, c, f)
}

/// The containing block of `i`: the nearest ancestor that `block_within`
/// accepts, if any.
spec fn containing_block(arrays: &Arrays, present: Seq<bool>, n: nat, i: usize) -> Option<usize> {
    match arrays.core.parent_index.at(i as int) {
        Some(p) => block_within(arrays, present, n, p, walk_fuel(arrays, present, n, p)),
        None => None,
    }
}

/// Whether the walk up the parent chain from `c`, looking for the
/// containing block of an absolutely positioned component, stops within
/// `fuel` steps: at an allocated component positioned other than
/// relatively, or at one without a parent. A walk caught in a parent cycle
/// with no such member never stops.
pub open spec fn containing_walk_ends(reg: &Registry, arrays: &Arrays, c: usize, fuel: nat) -> bool
    decreases fuel,
{
    if reg.is_allocated_spec(c as int) && (arrays.flex.node_at(c as int) matches Some(cn) && cn.position != POS_RELATIVE) {
        true
    } else {
        match arrays.core.parent_index.at(c as int) {
            Some(p) => fuel > 0 && containing_walk_ends(reg, arrays, p, (fuel - 1) as nat),
            None => true,
        }
    }
}

/// Whether the search for the containing block of every allocated,
/// absolutely positioned component stops.
pub open spec fn absolute_walks_stop(reg: &Registry, arrays: &Arrays) -> bool {
    forall|i: int| #![trigger arrays.flex.node_at(i)]
        reg.is_allocated_spec(i) && is_absolute(arrays.flex.node_at(i)) ==> match arrays.core.parent_index.at(i) {
            Some(p) => exists|f: nat| containing_walk_ends(reg, arrays, p, f),
            None => true,
        }
}

/// The walk over the registry is the walk over its allocation flags.
proof fn lemma_walk_ends(reg: &Registry, arrays: &Arrays, present: Seq<bool>, n: nat, c: usize, fuel: nat)
    requires
        containing_walk_ends(reg, arrays, c, fuel),
        present.len() == n,
        forall|i: int| 0 <= i < n ==> (present[i] <==> reg.is_allocated_spec(i)),
        forall|i: int| reg.is_allocated_spec(i) ==> i < n,
    ensures
        block_walk_ends(arrays, present, n, c, fuel),
    decreases fuel,
{
    if !(reg.is_allocated_spec(c as int) && (arrays.flex.node_at(c as int) matches Some(cn) && cn.position != POS_RELATIVE)) {
        if let Some(p) = arrays.core.parent_index.at(c as int) {
            if fuel > 0 {
                lemma_walk_ends(reg, arrays, present, n, p, (fuel - 1) as nat);
            }
        }
    }
}

/// Whether the walk for the containing block of `i` stops.
spec fn block_walk_stops(arrays: &Arrays, present: Seq<bool>, n: nat, i: usize) -> bool {
    match arrays.core.parent_index.at(i as int) {
        Some(p) => exists|f: nat| block_walk_ends(arrays, present, n, p, f),
        None => true,
    }
}

/// The box (x, y, width, height) of an absolutely positioned component:
/// at the origin of its containing block (of the box of index 0, or the
/// terminal, when there is none), as wide and high as its explicit sizes,
/// else its intrinsic ones, within its min and max. None without a
/// FlexNode.
spec fn absolute_box(
    arrays: &Arrays,
    ws: &TitanArrays,
    out: &ComputedLayout,
    present: Seq<bool>,
    n: nat,
    i: usize,
    tw: u16,
    th: u16,
) -> Option<(u16, u16, u16, u16)> {
    let (cx, cy, cw, ch) = match containing_block(arrays, present, n, i) {
        Some(c) => (out.x@[c as int], out.y@[c as int], out.width@[c as int], out.height@[c as int]),
        None => (
            0u16,
            0u16,
            if n > 0 { out.width@[0] } else { tw },
            if n > 0 { out.height@[0] } else { th },
        ),
    };
    match arrays.flex.node_at(i as int) {
        Some(node) => {
            let ew = resolve_dimension_spec(node.width, cw);
            let eh = resolve_dimension_spec(node.height, ch);
            Some(
                (
                    cx,
                    cy,
                    clamp_dimension_spec(
                        if ew > 0 { ew } else { ws.intrinsic_w@[i as int] },
                        node.min_width,
                        node.max_width,
                        cw,
                    ),
                    clamp_dimension_spec(
                        if eh > 0 { eh } else { ws.intrinsic_h@[i as int] },
                        node.min_height,
                        node.max_height,
                        ch,
                    ),
                ),
            )
        },
        None => None,
    }
}

/// Lay out an absolutely positioned component inside its containing block,
/// the nearest allocated ancestor whose position is not relative (the
/// first root's box when there is none).
fn layout_absolute(
    ws: &TitanArrays,
    arrays: &Arrays,
    i: usize,
    present: &Vec<bool>,
    n: usize,
    tw: u16,
    th: u16,
    out: &mut ComputedLayout,
)
    requires
        ws.sized(n as nat),
        i < n,
        present@.len() == n,
        out_sized(&*old(out), n as nat),
        block_walk_stops(arrays, present@, n as nat, i),
    ensures
        out_sized(&*final(out), n as nat),
        forall|j: int| 0 <= j < n && j != i ==> same_box(&*final(out), &*old(out), j),
        final(out).scrollable@ == old(out).scrollable@,
        final(out).max_scroll_x@ == old(out).max_scroll_x@,
        final(out).max_scroll_y@ == old(out).max_scroll_y@,
        match absolute_box(arrays, ws, &*old(out), present@, n as nat, i, tw, th) {
            Some((x, y, w, h)) => final(out).x@[i as int] == x && final(out).y@[i as int] == y && final(out).width@[
                i as int] == w && final(out).height@[i as int] == h,
            None => same_box(&*final(out), &*old(out), i as int),
        },
{
    let core = &arrays.core;
    let ghost target = containing_block(arrays, present@, n as nat, i);
    let ghost mut fuel: nat = 0;
    let mut container = get_parent_index(core, i);
    let mut found: Option<usize> = None;
    proof {
        if let Some(p) = container {
            fuel = walk_fuel(arrays, present@, n as nat, p);
            assert(block_walk_ends(arrays, present@, n as nat, p, fuel));
        }
    }
    while container.is_some()
        invariant_except_break
            found is None,
        invariant
            *core == arrays.core,
            present@.len() == n,
            match container {
                Some(c) => block_walk_ends(arrays, present@, n as nat, c, fuel) && block_within(arrays, present@, n as nat, c, fuel) == target,
                None => target is None,
            },
        ensures
            found == target,
            match found {
                Some(c) => c < n,
                None => true,
            },
        decreases fuel + (if container is Some { 1nat } else { 0nat }),
    {
        let c = container.unwrap();
        let ghost f0 = fuel;
        if c < n && present[c] {
            if let Some(cn) = get_flex_node(&arrays.flex, c) {
                if cn.position != POS_RELATIVE {
                    found = Some(c);
                    break;
                }
            }
        }
        assert(!(c < n && present@[c as int] && (arrays.flex.node_at(c as int) matches Some(cn) && cn.position
            != POS_RELATIVE)));
        container = get_parent_index(core, c);
        proof {
            if let Some(p) = container {
                assert(fuel > 0 && block_walk_ends(arrays, present@, n as nat, p, (fuel - 1) as nat));
                fuel = (fuel - 1) as nat;
            }
            assert(container == arrays.core.parent_index.at(c as int));
            reveal_with_fuel(block_within, 2);
            if let Some(p) = container {
                assert(f0 > 0);
                assert(block_within(arrays, present@, n as nat, c, f0) == block_within(arrays, present@, n as nat, p, (f0 - 1) as nat));
            } else {
                assert(block_within(arrays, present@, n as nat, c, f0) is None);
            }
        }
    }
    let (cx, cy, cw, ch) = match found {
        Some(c) => (out.x[c], out.y[c], out.width[c], out.height[c]),
        None => (
            0u16,
            0u16,
            if n > 0 { out.width[0] } else { tw },
            if n > 0 { out.height[0] } else { th },
        ),
    };
    let node = match get_flex_node(&arrays.flex, i) {
        Some(nd) => nd,
        None => {
            return;
        },
    };
    let ew = resolve_dimension(node.width, cw);
    let eh = resolve_dimension(node.height, ch);
    let abs_w = clamp_dimension(if ew > 0 { ew } else { ws.intrinsic_w[i] }, node.min_width, node.max_width, cw);
    let abs_h = clamp_dimension(if eh > 0 { eh } else { ws.intrinsic_h[i] }, node.min_height, node.max_height, ch);
    out.width.set(i, abs_w);
    out.height.set(i, abs_h);
    out.x.set(i, cx);
    out.y.set(i, cy);
}

// =============================================================================
// Entry point
// =============================================================================

/// Whether a component's FlexNode positions it absolutely.
pub open spec fn is_absolute(n: Option<FlexNode>) -> bool {
    n matches Some(nd) && nd.position == POS_ABSOLUTE
}

/// Whether component `c` has no position and no size.
pub open spec fn zero_box(l: &ComputedLayout, c: int) -> bool {
    l.x@[c] == 0 && l.y@[c] == 0 && l.width@[c] == 0 && l.height@[c] == 0
}

/// Whether `c` sits at or after the top-left corner of the content area of
/// `p`.
pub open spec fn at_or_after_content(l: &ComputedLayout, node: Option<FlexNode>, p: int, c: int) -> bool {
    match node {
        Some(pn) => l.x@[c] >= content_left(l, pn, p) && l.y@[c] >= content_top(l, pn, p),
        None => false,
    }
}

/// A component with an allocated parent, neither of them absolutely
/// positioned, is either not laid out or placed at or after the top-left
/// corner of its parent's content area.
pub open spec fn within_parent(reg: &Registry, arrays: &Arrays, l: &ComputedLayout, c: int) -> bool {
    match arrays.core.parent_index.at(c) {
        Some(p) => reg.is_allocated_spec(p as int) && !is_absolute(arrays.flex.node_at(c)) && !is_absolute(
            arrays.flex.node_at(p as int),
        ) ==> (zero_box(l, c) || at_or_after_content(l, arrays.flex.node_at(p as int), p as int, c)),
        None => true,
    }
}

/// `within_parent`, where being placed also means the parent is among
/// those already laid out.
spec fn placed_so_far(reg: &Registry, arrays: &Arrays, l: &ComputedLayout, done: Seq<usize>, c: int) -> bool {
    match arrays.core.parent_index.at(c) {
        Some(p) => reg.is_allocated_spec(p as int) && !is_absolute(arrays.flex.node_at(c)) && !is_absolute(
            arrays.flex.node_at(p as int),
        ) ==> (zero_box(l, c) || (done.contains(p) && at_or_after_content(l, arrays.flex.node_at(p as int), p as int, c))),
        None => true,
    }
}

/// `n` zeros.
fn zeros16(n: usize) -> (v: Vec<u16>)
    ensures
        v@.len() == n,
        forall|k: int| 0 <= k < n ==> v@[k] == 0,
{
    let mut v: Vec<u16> = Vec::new();
    while v.len() < n
        invariant
            v@.len() <= n,
            forall|k: int| 0 <= k < v@.len() ==> v@[k] == 0,
        decreases n - v.len(),
    {
        v.push(0);
    }
    v
}

/// `n` zeros.
fn zeros8(n: usize) -> (v: Vec<u8>)
    ensures
        v@.len() == n,
        forall|k: int| 0 <= k < n ==> v@[k] == 0,
{
    let mut v: Vec<u8> = Vec::new();
    while v.len() < n
        invariant
            v@.len() <= n,
            forall|k: int| 0 <= k < v@.len() ==> v@[k] == 0,
        decreases n - v.len(),
    {
        v.push(0);
    }
    v
}

/// Height of a root: its explicit height, else the terminal height when
/// the height is constrained, else its intrinsic height `intrinsic_h` (at
/// least 1).
pub open spec fn root_height_ok(h: u16, node: FlexNode, th: u16, constrain: bool, intrinsic_h: u16) -> bool {
    let eh = resolve_dimension_spec(node.height, th);
    if eh > 0 {
        h == eh
    } else if constrain {
        h == th
    } else {
        h == if intrinsic_h > 1 { intrinsic_h } else { 1 }
    }
}

/// Whether the parent of `c` is a member of `done`.
spec fn parent_in(core: &CoreArrays, done: Seq<usize>, c: int) -> bool {
    match core.parent_index.at(c) {
        Some(p) => done.contains(p),
        None => false,
    }
}

/// Compute the layout of all allocated components for a terminal of the
/// given size; `constrain_height` holds roots to the terminal height
/// (fullscreen) and makes a root scroll its overflowing content.
///
/// The arrays have one entry per index up to the largest allocated one.
/// Each visible root (allocated, without an allocated parent) that has a
/// FlexNode and is not absolutely positioned is placed at the origin, as
/// wide as its explicit width or else the terminal, and as high as
/// `root_height_ok` says, its intrinsic height being the one the working
/// arrays hold. Every other component is placed at or after the top-left
/// corner of its parent's content area (`within_parent`). Every component
/// reached from a root along the child links (`reached`) holds its
/// intrinsic size (`intrinsic_measured`) and, unless positioned absolutely,
/// has its flow children sized and placed by flex layout inside its box,
/// with its scroll ranges (`children_placed`). The child links hold
/// exactly the visible allocated components under their allocated parents
/// (`linked_child`). The content size is the size of the first root, or of
/// index 0 when there is no root.
///
/// Parent cycles are allowed: components caught in one are never reached
/// from a root, and a component that is not a root, not absolutely
/// positioned and whose parent is not reached keeps a zero box. The search up the parent chain for the containing block of
/// each absolutely positioned component must stop (`absolute_walks_stop`),
/// as it does unless it runs into a cycle with no positioned member.
#[verifier::spinoff_prover]
pub fn compute_layout(
    reg: &Registry,
    arrays: &Arrays,
    ws: &mut TitanArrays,
    terminal_width: u16,
    terminal_height: u16,
    constrain_height: bool,
) -> (l: ComputedLayout)
    requires
        reg.wf(),
        absolute_walks_stop(reg, arrays),
    ensures
        out_sized(&l, l.x@.len()),
        reg.allocated_spec().len() == 0 ==> l.x@.len() == 0 && l.content_width == 0 && l.content_height == 0,
        forall|i: int| reg.is_allocated_spec(i) ==> i < l.x@.len(),
        l.x@.len() > 0 ==> reg.is_allocated_spec(l.x@.len() - 1),
        forall|r: int| #[trigger] is_layout_root(reg, &arrays.core, r) ==> match arrays.flex.node_at(r) {
            Some(node) => node.position != POS_ABSOLUTE ==> {
                let ew = resolve_dimension_spec(node.width, terminal_width);
                &&& l.x@[r] == 0
                &&& l.y@[r] == 0
                &&& l.width@[r] == (if ew > 0 { ew } else { terminal_width })
                &&& root_height_ok(l.height@[r], node, terminal_height, constrain_height, final(ws).intrinsic_height(r))
            },
            None => true,
        },
        forall|c: int| 0 <= c < l.x@.len() ==> #[trigger] within_parent(reg, arrays, &l, c),
        forall|c: int| 0 <= c < l.x@.len() && !is_layout_root(reg, &arrays.core, c) && !is_absolute(arrays.flex.node_at(c))
            && (match arrays.core.parent_index.at(c) {
                Some(p) => !reached(reg, arrays, &*final(ws), p as int, l.x@.len()),
                None => true,
            }) ==> #[trigger] zero_box(&l, c),
        final(ws).links_agree(&arrays.core, l.x@.len()),
        forall|p: int, c: int| 0 <= p < l.x@.len() && 0 <= c < l.x@.len() ==> (#[trigger] linked_child(&*final(ws), p, c, l.x@.len())
            <==> (reg.is_allocated_spec(p) && reg.is_allocated_spec(c) && arrays.core.visible.at(c) && arrays.core.parent_index.at(c)
            == Some(p as usize))),
        forall|p: int| 0 <= p < l.x@.len() && #[trigger] reached(reg, arrays, &*final(ws), p, l.x@.len()) ==> intrinsic_measured(
            &*final(ws),
            arrays,
            p as usize,
            l.x@.len(),
            terminal_width,
            terminal_height,
        ) && (!is_absolute(arrays.flex.node_at(p)) ==> children_placed(
            &l,
            &*final(ws),
            arrays,
            p as usize,
            l.x@.len(),
            constrain_height,
        )),
        reg.allocated_spec().len() > 0 ==> {
            ||| (exists|f: int| #![trigger l.width@[f]] is_layout_root(reg, &arrays.core, f)
                && (forall|r: int| #[trigger] is_layout_root(reg, &arrays.core, r) ==> f <= r)
                && l.content_width == l.width@[f] && l.content_height == l.height@[f])
            ||| ((forall|r: int| !(#[trigger] is_layout_root(reg, &arrays.core, r)))
                && l.content_width == l.width@[0] && l.content_height == l.height@[0])
        },
{
    let (indices, present, n) = present_indices(reg);
    if n == 0 {
        return ComputedLayout::new();
    }
    prepare(ws, n);
    let ghost wp = *ws;
    let mut out = ComputedLayout {
        x: zeros16(n),
        y: zeros16(n),
        width: zeros16(n),
        height: zeros16(n),
        scrollable: zeros8(n),
        max_scroll_x: zeros16(n),
        max_scroll_y: zeros16(n),
        content_width: 0,
        content_height: 0,
    };
    let roots = build_tree(ws, reg, &arrays.core, &indices, &present, n);
    let queue = bfs_order(ws, reg, &arrays.core, n, &roots);
    let ghost wb = *ws;
    proof {
        assert forall|a: int, b: int|
            0 <= a < queue@.len() && 0 <= b < queue@.len() && arrays.core.parent_index.at(#[trigger] queue@[b] as int)
                == Some(#[trigger] queue@[a]) implies a < b by {
            if b < roots@.len() {
                assert(queue@.take(roots@.len() as int)[b] == roots@[b]);
                assert(is_layout_root(reg, &arrays.core, roots@[b] as int));
                assert(reg.is_allocated_spec(queue@[a] as int));
            } else {
                assert(parent_earlier(&arrays.core, queue@, b));
                let j = choose|j: int| 0 <= j < b && arrays.core.parent_index.at(queue@[b] as int) == Some(#[trigger] queue@[j]);
                assert(queue@[j] == queue@[a]);
            }
        }
    }
    measure_intrinsic(ws, arrays, &queue, n, terminal_width, terminal_height);
    let ghost wm = *ws;
    let mut t: usize = 0;
    while t < roots.len()
        invariant
            t <= roots@.len(),
            ws.sized(n as nat),
            out_sized(&out, n as nat),
            forall|p: int| 0 <= p < n ==> #[trigger] no_scroll(&out, p),
            forall|k: int| 0 <= k < roots@.len() ==> (#[trigger] roots@[k]) < n && is_layout_root(reg, &arrays.core, roots@[k] as int),
            roots@.no_duplicates(),
            forall|j: int| 0 <= j < n && !is_layout_root(reg, &arrays.core, j) ==> #[trigger] zero_box(&out, j),
            forall|k: int| 0 <= k < t ==> match arrays.flex.node_at((#[trigger] roots@[k]) as int) {
                Some(node) => {
                    let r = roots@[k] as int;
                    let ew = resolve_dimension_spec(node.width, terminal_width);
                    &&& out.x@[r] == 0
                    &&& out.y@[r] == 0
                    &&& out.width@[r] == (if ew > 0 { ew } else { terminal_width })
                    &&& root_height_ok(out.height@[r], node, terminal_height, constrain_height, ws.intrinsic_h@[r])
                },
                None => true,
            },
        decreases roots.len() - t,
    {
        let r = roots[t];
        let ghost prev = out;
        if let Some(node) = get_flex_node(&arrays.flex, r) {
            let ew = resolve_dimension(node.width, terminal_width);
            let eh = resolve_dimension(node.height, terminal_height);
            out.x.set(r, 0);
            out.y.set(r, 0);
            out.width.set(r, if ew > 0 { ew } else { terminal_width });
            let h = if eh > 0 {
                eh
            } else if constrain_height {
                terminal_height
            } else {
                let ih = ws.intrinsic_h[r];
                if ih > 1 { ih } else { 1 }
            };
            out.height.set(r, h);
        }
        proof {
            assert forall|j: int| 0 <= j < n && !is_layout_root(reg, &arrays.core, j) implies #[trigger] zero_box(&out, j) by {
                assert(j != r);
                assert(zero_box(&prev, j));
            }
            assert forall|p: int| 0 <= p < n implies #[trigger] no_scroll(&out, p) by {
                assert(no_scroll(&prev, p));
            }
            assert forall|k: int| 0 <= k < t + 1 implies match arrays.flex.node_at((#[trigger] roots@[k]) as int) {
                Some(node) => {
                    let rr = roots@[k] as int;
                    let ew = resolve_dimension_spec(node.width, terminal_width);
                    &&& out.x@[rr] == 0
                    &&& out.y@[rr] == 0
                    &&& out.width@[rr] == (if ew > 0 { ew } else { terminal_width })
                    &&& root_height_ok(out.height@[rr], node, terminal_height, constrain_height, ws.intrinsic_h@[rr])
                },
                None => true,
            } by {
                if k < t {
                    assert(roots@[k] != r);
                }
            }
        }
        t = t + 1;
    }
    let ghost placed = out;
    proof {
        assert(queue@.take(0) =~= Seq::<usize>::empty());
        assert forall|c: int| 0 <= c < n && !is_layout_root(reg, &arrays.core, c) && !parent_in(&arrays.core, queue@.take(0), c)
            implies #[trigger] zero_box(&out, c) && ws.item_main@[c] == 0 && ws.item_cross@[c] == 0 by {
            assert(wp.intrinsic_w@[c] == 0);
            assert(wp.item_main@[c] == 0 && wp.item_cross@[c] == 0);
        }
    }
    let mut q: usize = 0;
    while q < queue.len()
        invariant
            q <= queue@.len(),
            ws.sized(n as nat),
            ws.links_agree(&arrays.core, n as nat),
            forall|i: int| 0 <= i < n && (#[trigger] ws.first_child@[i]) is Some ==> reg.is_allocated_spec(i),
            out_sized(&out, n as nat),
            forall|k: int| 0 <= k < queue@.len() ==> (#[trigger] queue@[k]) < n && reg.is_allocated_spec(queue@[k] as int),
            forall|r: int| 0 <= r < n && #[trigger] is_layout_root(reg, &arrays.core, r) ==> same_box(&out, &placed, r),
            queue@.no_duplicates(),
            queue@.len() >= roots@.len(),
            queue@.take(roots@.len() as int) == roots@,
            forall|k: int| 0 <= k < roots@.len() ==> is_layout_root(reg, &arrays.core, (#[trigger] roots@[k]) as int),
            forall|k: int| roots@.len() <= k < queue@.len() ==> #[trigger] parent_earlier(&arrays.core, queue@, k),
            absolute_walks_stop(reg, arrays),
            forall|c: int| 0 <= c < n ==> #[trigger] placed_so_far(reg, arrays, &out, queue@.take(q as int), c),
            ws.first_child@ == wm.first_child@,
            ws.next_sibling@ == wm.next_sibling@,
            ws.intrinsic_w@ == wm.intrinsic_w@,
            ws.intrinsic_h@ == wm.intrinsic_h@,
            forall|c: int| 0 <= c < n && !is_layout_root(reg, &arrays.core, c) && !parent_in(&arrays.core, queue@.take(q as int), c)
                ==> #[trigger] zero_box(&out, c) && ws.item_main@[c] == 0 && ws.item_cross@[c] == 0,
            forall|p: int| 0 <= p < n && !queue@.take(q as int).contains(p as usize) ==> #[trigger] no_scroll(&out, p),
            forall|k: int| 0 <= k < q ==> #[trigger] children_placed(&out, &*ws, arrays, queue@[k], n as nat, constrain_height),
        decreases queue.len() - q,
    {
        let parent = queue[q];
        let ghost before = out;
        let ghost wsb = *ws;
        let ghost fc = ws.first_child@;
        assert(fc[parent as int] is Some ==> reg.is_allocated_spec(parent as int));
        layout_children(ws, arrays, parent, n, constrain_height, &mut out);
        proof {
            assert forall|r: int| 0 <= r < n && is_layout_root(reg, &arrays.core, r) implies same_box(&out, &placed, r) by {
                if fc[parent as int] is Some {
                    assert(ws.first_child@[parent as int] is Some);
                    assert(reg.is_allocated_spec(parent as int));
                    assert(arrays.core.parent_index.at(r) != Some(parent));
                }
                assert(same_box(&out, &before, r));
                assert(same_box(&before, &placed, r));
            }
            assert(arrays.core.parent_index.at(parent as int) != Some(parent)) by {
                if arrays.core.parent_index.at(parent as int) == Some(parent) {
                    if q < roots@.len() {
                        assert(queue@.take(roots@.len() as int)[q as int] == roots@[q as int]);
                        assert(is_layout_root(reg, &arrays.core, roots@[q as int] as int));
                    } else {
                        assert(parent_earlier(&arrays.core, queue@, q as int));
                        let j = choose|j: int| 0 <= j < q && arrays.core.parent_index.at(queue@[q as int] as int) == Some(#[trigger] queue@[j]);
                        assert(queue@[j] == queue@[q as int]);
                    }
                }
            }
            assert(same_box(&out, &before, parent as int));
            let done = queue@.take(q as int);
            let done2 = queue@.take(q + 1);
            assert(!done.contains(parent)) by {
                if done.contains(parent) {
                    let w = choose|w: int| 0 <= w < done.len() && done[w] == parent;
                    assert(queue@[w] == queue@[q as int]);
                }
            }
            assert(done2.contains(parent)) by {
                assert(done2[q as int] == parent);
            }
            assert forall|c: int| 0 <= c < n implies #[trigger] placed_so_far(reg, arrays, &out, done2, c) by {
                assert(placed_so_far(reg, arrays, &before, done, c));
                if let Some(p) = arrays.core.parent_index.at(c) {
                    if reg.is_allocated_spec(p as int) && !is_absolute(arrays.flex.node_at(c)) && !is_absolute(
                        arrays.flex.node_at(p as int),
                    ) {
                        if p == parent {
                            if !same_box(&out, &before, c) {
                                assert(at_or_after_content(&out, arrays.flex.node_at(p as int), p as int, c));
                            }
                        } else {
                            assert(same_box(&out, &before, c));
                            if !zero_box(&before, c) {
                                assert(done.contains(p));
                                let j = choose|j: int| 0 <= j < done.len() && done[j] == p;
                                assert(queue@[j] == p);
                                assert(done2[j] == p);
                                if arrays.core.parent_index.at(p as int) == Some(parent) {
                                    if j < roots@.len() {
                                        assert(queue@.take(roots@.len() as int)[j] == roots@[j]);
                                        assert(is_layout_root(reg, &arrays.core, roots@[j] as int));
                                    } else {
                                        assert(parent_earlier(&arrays.core, queue@, j));
                                        let j2 = choose|j2: int| 0 <= j2 < j && arrays.core.parent_index.at(queue@[j] as int) == Some(queue@[j2]);
                                        assert(queue@[j2] == queue@[q as int]);
                                    }
                                }
                                assert(same_box(&out, &before, p as int));
                            }
                        }
                    }
                }
            }
        }
        proof {
            let done = queue@.take(q as int);
            let done2 = queue@.take(q + 1);
            assert(!done.contains(parent)) by {
                if done.contains(parent) {
                    let w = choose|w: int| 0 <= w < done.len() && done[w] == parent;
                    assert(queue@[w] == queue@[q as int]);
                }
            }
            assert(done2.contains(parent)) by {
                assert(done2[q as int] == parent);
            }
            assert forall|x: usize| done.contains(x) implies done2.contains(x) by {
                let w = choose|w: int| 0 <= w < done.len() && done[w] == x;
                assert(done2[w] == x);
            }
            assert forall|j: int| 0 <= j < n && arrays.core.parent_index.at(j) == Some(parent) implies #[trigger] zero_box(&before, j)
                && wsb.item_main@[j] == 0 && wsb.item_cross@[j] == 0 by {
                assert(reg.is_allocated_spec(parent as int));
                assert(!is_layout_root(reg, &arrays.core, j));
                assert(!parent_in(&arrays.core, done, j));
            }
            assert(no_scroll(&before, parent as int));
            lemma_laid_out_placed(&before, &out, &wsb, &*ws, arrays, parent, n as nat, constrain_height);
            assert forall|k: int| 0 <= k < q + 1 implies #[trigger] children_placed(&out, &*ws, arrays, queue@[k], n as nat, constrain_height) by {
                if k < q {
                    let p = queue@[k];
                    assert(children_placed(&before, &wsb, arrays, p, n as nat, constrain_height));
                    assert(p != parent);
                    assert(arrays.core.parent_index.at(p as int) != Some(parent)) by {
                        if arrays.core.parent_index.at(p as int) == Some(parent) {
                            if k < roots@.len() {
                                assert(queue@.take(roots@.len() as int)[k] == roots@[k]);
                                assert(is_layout_root(reg, &arrays.core, roots@[k] as int));
                                assert(reg.is_allocated_spec(parent as int));
                            } else {
                                assert(parent_earlier(&arrays.core, queue@, k));
                                let j = choose|j: int| 0 <= j < k && arrays.core.parent_index.at(queue@[k] as int) == Some(#[trigger] queue@[j]);
                                assert(queue@[j] == queue@[q as int]);
                            }
                        }
                    }
                    assert forall|j: int|
                        0 <= j < n && arrays.core.parent_index.at(j) == Some(p) && !is_absolute(arrays.flex.node_at(j))
                        implies #[trigger] same_box(&before, &out, j) && wsb.item_main@[j] == ws.item_main@[j]
                        && wsb.item_cross@[j] == ws.item_cross@[j] by {
                        assert(arrays.core.parent_index.at(j) != Some(parent));
                        assert(same_box(&out, &before, j));
                    }
                    lemma_children_placed_frame(&before, &out, &wsb, &*ws, arrays, p, n as nat, constrain_height);
                }
            }
            assert forall|c: int| 0 <= c < n && !is_layout_root(reg, &arrays.core, c) && !parent_in(&arrays.core, done2, c)
                implies #[trigger] zero_box(&out, c) && ws.item_main@[c] == 0 && ws.item_cross@[c] == 0 by {
                assert(!parent_in(&arrays.core, done, c));
                assert(zero_box(&before, c));
                assert(arrays.core.parent_index.at(c) != Some(parent));
                assert(same_box(&out, &before, c));
            }
            assert forall|p: int| 0 <= p < n && !done2.contains(p as usize) implies #[trigger] no_scroll(&out, p) by {
                assert(!done.contains(p as usize));
                assert(p != parent as int);
                assert(no_scroll(&before, p));
            }
        }
        q = q + 1;
    }
    assert forall|c: int| 0 <= c < n implies #[trigger] within_parent(reg, arrays, &out, c) by {
        assert(placed_so_far(reg, arrays, &out, queue@.take(queue@.len() as int), c));
    }
    assert(queue@.take(queue@.len() as int) =~= queue@);
    let mut k: usize = 0;
    while k < indices.len()
        invariant
            k <= indices@.len(),
            ws.sized(n as nat),
            present@.len() == n,
            absolute_walks_stop(reg, arrays),
            out_sized(&out, n as nat),
            forall|m: int| 0 <= m < indices@.len() ==> (#[trigger] indices@[m]) < n && reg.is_allocated_spec(indices@[m] as int),
            forall|m: int| 0 <= m < n ==> (present@[m] <==> reg.is_allocated_spec(m)),
            forall|r: int| 0 <= r < n && #[trigger] is_layout_root(reg, &arrays.core, r) && !(match arrays.flex.node_at(r) {
                Some(nd) => nd.position == POS_ABSOLUTE,
                None => false,
            }) ==> same_box(&out, &placed, r),
            forall|c: int| 0 <= c < n ==> #[trigger] within_parent(reg, arrays, &out, c),
            forall|c: int| 0 <= c < n && !is_layout_root(reg, &arrays.core, c) && !parent_in(&arrays.core, queue@, c)
                && !is_absolute(arrays.flex.node_at(c)) ==> #[trigger] zero_box(&out, c),
            forall|m: int| reg.is_allocated_spec(m) ==> m < n,
            ws.links_agree(&arrays.core, n as nat),
            forall|j: int| 0 <= j < queue@.len() ==> (#[trigger] queue@[j]) < n,
            forall|j: int| 0 <= j < queue@.len() && !is_absolute(arrays.flex.node_at(queue@[j] as int)) ==> #[trigger] children_placed(
                &out,
                &*ws,
                arrays,
                queue@[j],
                n as nat,
                constrain_height,
            ),
        decreases indices.len() - k,
    {
        let i = indices[k];
        let ghost before = out;
        if let Some(node) = get_flex_node(&arrays.flex, i) {
            if node.position == POS_ABSOLUTE {
                proof {
                    assert(reg.is_allocated_spec(i as int));
                    assert(is_absolute(arrays.flex.node_at(i as int)));
                    if let Some(p) = arrays.core.parent_index.at(i as int) {
                        let f = choose|f: nat| containing_walk_ends(reg, arrays, p, f);
                        lemma_walk_ends(reg, arrays, present@, n as nat, p, f);
                    }
                }
                layout_absolute(ws, arrays, i, &present, n, terminal_width, terminal_height, &mut out);
                proof {
                    assert forall|r: int| 0 <= r < n && is_layout_root(reg, &arrays.core, r) && !(match arrays.flex.node_at(r) {
                        Some(nd) => nd.position == POS_ABSOLUTE,
                        None => false,
                    }) implies same_box(&out, &placed, r) by {
                        assert(r != i);
                        assert(same_box(&out, &before, r));
                        assert(same_box(&before, &placed, r));
                    }
                    assert(is_absolute(arrays.flex.node_at(i as int)));
                    assert forall|c: int| 0 <= c < n && !is_layout_root(reg, &arrays.core, c) && !parent_in(&arrays.core, queue@, c)
                        && !is_absolute(arrays.flex.node_at(c)) implies #[trigger] zero_box(&out, c) by {
                        assert(c != i);
                        assert(same_box(&out, &before, c));
                        assert(zero_box(&before, c));
                    }
                    assert forall|c: int| 0 <= c < n implies #[trigger] within_parent(reg, arrays, &out, c) by {
                        assert(within_parent(reg, arrays, &before, c));
                        if let Some(p) = arrays.core.parent_index.at(c) {
                            if !is_absolute(arrays.flex.node_at(c)) && !is_absolute(arrays.flex.node_at(p as int)) {
                                assert(c != i);
                                assert(same_box(&out, &before, c));
                                if reg.is_allocated_spec(p as int) {
                                    assert(p < n);
                                    assert(p != i);
                                    assert(same_box(&out, &before, p as int));
                                }
                            }
                        }
                    }
                    assert forall|j: int| 0 <= j < queue@.len() && !is_absolute(arrays.flex.node_at(queue@[j] as int)) implies #[trigger] children_placed(
                        &out,
                        &*ws,
                        arrays,
                        queue@[j],
                        n as nat,
                        constrain_height,
                    ) by {
                        let p = queue@[j];
                        assert(children_placed(&before, &*ws, arrays, p, n as nat, constrain_height));
                        assert(p != i);
                        assert(same_box(&out, &before, p as int));
                        assert forall|c: int| 0 <= c < n && arrays.core.parent_index.at(c) == Some(p) && !is_absolute(arrays.flex.node_at(c))
                            implies #[trigger] same_box(&before, &out, c) by {
                            assert(c != i);
                            assert(same_box(&out, &before, c));
                        }
                        lemma_children_placed_frame(&before, &out, &*ws, &*ws, arrays, p, n as nat, constrain_height);
                    }
                }
            }
        }
        k = k + 1;
    }
    let first = if queue.len() > 0 { queue[0] } else { 0 };
    let ghost boxes = out;
    out.content_width = out.width[first];
    out.content_height = out.height[first];
    proof {
        let nn = n as nat;
        let z = Seq::new(nn, |k: int| 0u16);
        assert(wb.intrinsic_w@ =~= z && wb.intrinsic_h@ =~= z) by {
            assert(wb.intrinsic_w@ == wp.intrinsic_w@);
            assert(wb.intrinsic_h@ == wp.intrinsic_h@);
            assert forall|i: int| 0 <= i < nn implies wb.intrinsic_w@[i] == z[i] && wb.intrinsic_h@[i] == z[i] by {
                assert(wp.intrinsic_w@[i] == 0);
            }
        }
        assert forall|p: int, c: int| 0 <= p < nn && 0 <= c < nn implies (#[trigger] linked_child(&*ws, p, c, nn) <==> (
        reg.is_allocated_spec(p) && reg.is_allocated_spec(c) && arrays.core.visible.at(c) && arrays.core.parent_index.at(c) == Some(
            p as usize,
        ))) by {
            assert(children_spec(&*ws, p as usize, nn) == children_spec(&wb, p as usize, nn));
            if reg.is_allocated_spec(p) {
                lemma_kids_upto(&arrays.core, indices@, indices@.len() as int, p as usize);
                let kk = kids_upto(&arrays.core, indices@, indices@.len() as int, p as usize);
                assert(children_spec(&wb, p as usize, nn) == kk);
                if kk.contains(c as usize) {
                    let m = choose|m: int| 0 <= m < indices@.len() && indices@[m] == c as usize;
                    assert(reg.is_allocated_spec(indices@[m] as int));
                }
                if reg.is_allocated_spec(c) && arrays.core.visible.at(c) && arrays.core.parent_index.at(c) == Some(p as usize) {
                    assert(indices@.contains(c as usize));
                    let m = choose|m: int| 0 <= m < indices@.len() && indices@[m] == c as usize;
                    assert(exists|m: int| 0 <= m < indices@.len() && indices@[m] == c as usize);
                    assert(kk.contains(c as usize));
                }
            } else {
                assert(wb.first_child@[p] is None);
            }
        }
        assert forall|k: int, m: int| 0 <= k < queue@.len() && 0 <= m < children_spec(&*ws, queue@[k], nn).len()
            implies queue@.contains(#[trigger] children_spec(&*ws, queue@[k], nn)[m]) by {
            assert(children_spec(&*ws, queue@[k], nn) == children_spec(&wb, queue@[k], nn));
        }
        assert forall|p: int| 0 <= p < out.x@.len() && #[trigger] reached(reg, arrays, &*ws, p, out.x@.len()) implies intrinsic_measured(
            &*ws,
            arrays,
            p as usize,
            out.x@.len(),
            terminal_width,
            terminal_height,
        ) && (!is_absolute(arrays.flex.node_at(p)) ==> children_placed(&out, &*ws, arrays, p as usize, out.x@.len(), constrain_height)) by {
            let chain = choose|chain: Seq<usize>| #[trigger] root_chain(reg, arrays, &*ws, chain, nn) && chain.last() as int == p;
            lemma_chain_queued(reg, arrays, &*ws, queue@, roots@, chain, nn, chain.len() - 1);
            let w = choose|w: int| 0 <= w < queue@.len() && queue@[w] == p as usize;
            assert(intrinsic_done(arrays, &wm, wb.intrinsic_w@, wb.intrinsic_h@, queue@[w], nn, terminal_width, terminal_height));
            lemma_intrinsic_frame(arrays, &wm, &*ws, p as usize, nn, terminal_width, terminal_height);
            if !is_absolute(arrays.flex.node_at(p)) {
                assert(children_placed(&boxes, &*ws, arrays, queue@[w], nn, constrain_height));
                lemma_flow_bounds(&*ws, arrays, p as usize, nn);
                lemma_children_placed_frame(&boxes, &out, &*ws, &*ws, arrays, p as usize, nn, constrain_height);
            }
        }
        assert(ws.first_child@ == wb.first_child@ && ws.next_sibling@ == wb.next_sibling@);
        assert forall|c: int| 0 <= c < out.x@.len() && !is_layout_root(reg, &arrays.core, c) && !is_absolute(arrays.flex.node_at(c))
            && (match arrays.core.parent_index.at(c) {
                Some(p) => !reached(reg, arrays, &*ws, p as int, out.x@.len()),
                None => true,
            }) implies #[trigger] zero_box(&out, c) by {
            if parent_in(&arrays.core, queue@, c) {
                let p = arrays.core.parent_index.at(c).unwrap();
                let w = choose|w: int| 0 <= w < queue@.len() && queue@[w] == p;
                lemma_queued_reached(reg, arrays, &wb, &*ws, queue@, roots@, nn, w);
            }
            assert(zero_box(&boxes, c));
        }
        assert forall|c: int| 0 <= c < out.x@.len() implies #[trigger] within_parent(reg, arrays, &out, c) by {
            assert(within_parent(reg, arrays, &boxes, c));
            assert(out.x@ == boxes.x@ && out.y@ == boxes.y@);
            assert(out.width@ == boxes.width@ && out.height@ == boxes.height@);
        }
        assert forall|r: int| #[trigger] is_layout_root(reg, &arrays.core, r) implies match arrays.flex.node_at(r) {
            Some(node) => node.position != POS_ABSOLUTE ==> {
                let ew = resolve_dimension_spec(node.width, terminal_width);
                &&& out.x@[r] == 0
                &&& out.y@[r] == 0
                &&& out.width@[r] == (if ew > 0 { ew } else { terminal_width })
                &&& root_height_ok(out.height@[r], node, terminal_height, constrain_height, ws.intrinsic_h@[r])
            },
            None => true,
        } by {
            assert(roots@.contains(r as usize));
            let w = choose|w: int| 0 <= w < roots@.len() && roots@[w] == r as usize;
            assert(r < n);
            assert(roots@[w] as int == r);
            if let Some(node) = arrays.flex.node_at(r) {
                if node.position != POS_ABSOLUTE {
                    assert(same_box(&out, &placed, r));
                    assert(arrays.flex.node_at(roots@[w] as int) == Some(node));
                }
            }
        }
        if roots@.len() > 0 {
            assert(queue@.take(roots@.len() as int)[0] == roots@[0]);
            let f = roots@[0] as int;
            assert(is_layout_root(reg, &arrays.core, f));
            assert forall|r: int| #[trigger] is_layout_root(reg, &arrays.core, r) implies f <= r by {
                assert(roots@.contains(r as usize));
                let w = choose|w: int| 0 <= w < roots@.len() && roots@[w] == r as usize;
                if w > 0 {
                    assert(roots@[0] < roots@[w]);
                }
            }
            assert(queue@[0] == roots@[0]);
            assert(first == roots@[0]);
            assert(out.width@[f] == out.content_width);
            assert(out.height@[f] == out.content_height);
        } else {
            assert forall|r: int| !(#[trigger] is_layout_root(reg, &arrays.core, r)) by {
                if is_layout_root(reg, &arrays.core, r) {
                    assert(roots@.contains(r as usize));
                }
            }
        }
    }
    out
}


} // verus!
