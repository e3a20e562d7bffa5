//! Scrolling: per-component offsets (in the interaction arrays) clamped to
//! the bounds the layout computed, parent chaining for the wheel, keyboard
//! scrolling of the focused component, scroll-into-view and stick-to-bottom.

use vstd::prelude::*;
use crate::layout::computed::{ComputedLayout, u16_at_or, u16_get_or};
use crate::engine::arrays::interaction::{
    InteractionArrays,
    get_scroll_offset_x,
    get_scroll_offset_y,
    get_stick_to_bottom,
    get_prev_max_scroll_y,
    set_prev_max_scroll_y,
};
use crate::engine::arrays::interaction;
use crate::engine::arrays::core_arrays::{CoreArrays, get_parent_index, parents_acyclic, chain_finite, parent_chain_ends};
use crate::state::focus::{FocusState, get_focused_index};
use crate::state::mouse::{ScrollDirection, HitGrid, hit_test};

verus! {

/// Scroll step of the arrow keys, in lines.
pub const LINE_SCROLL: u16 = 1;

/// Scroll step of the mouse wheel, in lines.
pub const WHEEL_SCROLL: u16 = 3;

/// A page scroll moves this many tenths of the viewport height.
pub const PAGE_SCROLL_TENTHS: u16 = 9;

// =============================================================================
// State access
// =============================================================================

/// Whether a component scrolls (per the computed layout).
pub fn is_scrollable(layout: &ComputedLayout, index: usize) -> (b: bool)
    ensures
        b == layout.scrollable_at(index as int),
{
    index < layout.scrollable.len() && layout.scrollable[index] == 1
}

/// The scroll offset (x, y) of a component.
pub fn get_scroll_offset(inter: &InteractionArrays, index: usize) -> (r: (u16, u16))
    ensures
        r == (inter.scroll_offset_x.at(index as int), inter.scroll_offset_y.at(index as int)),
{
    (get_scroll_offset_x(inter, index), get_scroll_offset_y(inter, index))
}

/// The scroll bounds (max x, max y) of a component; (0, 0) past the layout.
pub fn get_max_scroll(layout: &ComputedLayout, index: usize) -> (r: (u16, u16))
    ensures
        r == (layout.max_x_at(index as int), layout.max_y_at(index as int)),
{
    (u16_get_or(&layout.max_scroll_x, index, 0), u16_get_or(&layout.max_scroll_y, index, 0))
}

// =============================================================================
// Scroll operations
// =============================================================================

/// `new` is `old` with the scroll offset of component `i` set to (x, y) and
/// nothing else changed.
pub open spec fn offsets_set(old: InteractionArrays, new: InteractionArrays, i: int, x: u16, y: u16) -> bool {
    &&& old.scroll_offset_x.written(new.scroll_offset_x, i, x)
    &&& old.scroll_offset_y.written(new.scroll_offset_y, i, y)
    &&& new == (InteractionArrays { scroll_offset_x: new.scroll_offset_x, scroll_offset_y: new.scroll_offset_y, ..old })
}

/// The smaller of two offsets.
pub open spec fn min_u16(a: u16, b: u16) -> u16 {
    if a <= b {
        a
    } else {
        b
    }
}

/// Set a component's scroll offset, clamped to its bounds; nothing happens
/// for a component that does not scroll.
pub fn set_scroll_offset(layout: &ComputedLayout, inter: &mut InteractionArrays, index: usize, x: u16, y: u16)
    ensures
        layout.scrollable_at(index as int) ==> offsets_set(
            *old(inter),
            *final(inter),
            index as int,
            min_u16(x, layout.max_x_at(index as int)),
            min_u16(y, layout.max_y_at(index as int)),
        ),
        !layout.scrollable_at(index as int) ==> *final(inter) == *old(inter),
{
    if !is_scrollable(layout, index) {
        return;
    }
    let (max_x, max_y) = get_max_scroll(layout, index);
    let clamped_x = if x <= max_x { x } else { max_x };
    let clamped_y = if y <= max_y { y } else { max_y };
    interaction::set_scroll_offset(inter, index, clamped_x, clamped_y);
}

/// `cur + delta` clamped to `0..=max`.
pub open spec fn clamp_offset(cur: u16, delta: int, max: u16) -> u16 {
    if cur + delta < 0 {
        0
    } else if cur + delta > max {
        max
    } else {
        (cur + delta) as u16
    }
}

/// Whether scrolling component `i` by (dx, dy) moves it.
pub open spec fn scroll_moves(layout: &ComputedLayout, inter: InteractionArrays, i: int, dx: int, dy: int) -> bool {
    &&& layout.scrollable_at(i)
    &&& (clamp_offset(inter.scroll_offset_x.at(i), dx, layout.max_x_at(i)) != inter.scroll_offset_x.at(i)
        || clamp_offset(inter.scroll_offset_y.at(i), dy, layout.max_y_at(i)) != inter.scroll_offset_y.at(i))
}

/// `new` is `old` scrolled by (dx, dy) at component `i`.
pub open spec fn scrolled_by(layout: &ComputedLayout, old: InteractionArrays, new: InteractionArrays, i: int, dx: int, dy: int) -> bool {
    offsets_set(
        old,
        new,
        i,
        clamp_offset(old.scroll_offset_x.at(i), dx, layout.max_x_at(i)),
        clamp_offset(old.scroll_offset_y.at(i), dy, layout.max_y_at(i)),
    )
}

/// Whether scrolling component `i` by (dx, dy) stays within `i32`: the sum
/// of a scrollable component's offset and the delta fits.
pub open spec fn delta_fits(layout: &ComputedLayout, inter: InteractionArrays, i: int, dx: int, dy: int) -> bool {
    layout.scrollable_at(i) ==> inter.scroll_offset_x.at(i) + dx <= i32::MAX && inter.scroll_offset_y.at(i) + dy <= i32::MAX
}

/// Scroll a component by a delta, clamping to its bounds. Returns whether
/// the offset changed; nothing changes for a component that does not scroll
/// or is already at the boundary.
pub fn scroll_by(layout: &ComputedLayout, inter: &mut InteractionArrays, index: usize, delta_x: i32, delta_y: i32) -> (r: bool)
    requires
        delta_fits(layout, *old(inter), index as int, delta_x as int, delta_y as int),
    ensures
        r == scroll_moves(layout, *old(inter), index as int, delta_x as int, delta_y as int),
        r ==> scrolled_by(layout, *old(inter), *final(inter), index as int, delta_x as int, delta_y as int),
        !r ==> *final(inter) == *old(inter),
{
    if !is_scrollable(layout, index) {
        return false;
    }
    let (current_x, current_y) = get_scroll_offset(inter, index);
    let (max_x, max_y) = get_max_scroll(layout, index);
    let sum_x = current_x as i32 + delta_x;
    let sum_y = current_y as i32 + delta_y;
    let new_x: u16 = if sum_x < 0 {
        0
    } else if sum_x > max_x as i32 {
        max_x
    } else {
        sum_x as u16
    };
    let new_y: u16 = if sum_y < 0 {
        0
    } else if sum_y > max_y as i32 {
        max_y
    } else {
        sum_y as u16
    };
    if new_x == current_x && new_y == current_y {
        return false;
    }
    interaction::set_scroll_offset(inter, index, new_x, new_y);
    true
}

/// Scroll to the top: y offset 0, x kept.
pub fn scroll_to_top(layout: &ComputedLayout, inter: &mut InteractionArrays, index: usize)
    ensures
        layout.scrollable_at(index as int) ==> offsets_set(
            *old(inter),
            *final(inter),
            index as int,
            min_u16(old(inter).scroll_offset_x.at(index as int), layout.max_x_at(index as int)),
            0,
        ),
        !layout.scrollable_at(index as int) ==> *final(inter) == *old(inter),
{
    let (current_x, _) = get_scroll_offset(inter, index);
    set_scroll_offset(layout, inter, index, current_x, 0);
}

/// Scroll to the bottom: y offset at its bound, x kept.
pub fn scroll_to_bottom(layout: &ComputedLayout, inter: &mut InteractionArrays, index: usize)
    ensures
        layout.scrollable_at(index as int) ==> offsets_set(
            *old(inter),
            *final(inter),
            index as int,
            min_u16(old(inter).scroll_offset_x.at(index as int), layout.max_x_at(index as int)),
            layout.max_y_at(index as int),
        ),
        !layout.scrollable_at(index as int) ==> *final(inter) == *old(inter),
{
    let (current_x, _) = get_scroll_offset(inter, index);
    let (_, max_y) = get_max_scroll(layout, index);
    set_scroll_offset(layout, inter, index, current_x, max_y);
}

/// Scroll to the start: x offset 0, y kept.
pub fn scroll_to_start(layout: &ComputedLayout, inter: &mut InteractionArrays, index: usize)
    ensures
        layout.scrollable_at(index as int) ==> offsets_set(
            *old(inter),
            *final(inter),
            index as int,
            0,
            min_u16(old(inter).scroll_offset_y.at(index as int), layout.max_y_at(index as int)),
        ),
        !layout.scrollable_at(index as int) ==> *final(inter) == *old(inter),
{
    let (_, current_y) = get_scroll_offset(inter, index);
    set_scroll_offset(layout, inter, index, 0, current_y);
}

/// Scroll to the end: x offset at its bound, y kept.
pub fn scroll_to_end(layout: &ComputedLayout, inter: &mut InteractionArrays, index: usize)
    ensures
        layout.scrollable_at(index as int) ==> offsets_set(
            *old(inter),
            *final(inter),
            index as int,
            layout.max_x_at(index as int),
            min_u16(old(inter).scroll_offset_y.at(index as int), layout.max_y_at(index as int)),
        ),
        !layout.scrollable_at(index as int) ==> *final(inter) == *old(inter),
{
    let (_, current_y) = get_scroll_offset(inter, index);
    let (max_x, _) = get_max_scroll(layout, index);
    set_scroll_offset(layout, inter, index, max_x, current_y);
}

} // verus!

verus! {

// =============================================================================
// Chaining
// =============================================================================

/// The component a chained scroll moves, starting at `i` and passing on to
/// the parent (while it scrolls) when `i` is at its boundary; None when
/// nothing moves. `fuel` bounds the walk up the parents.
pub open spec fn chain_target(
    layout: &ComputedLayout,
    inter: InteractionArrays,
    core: &CoreArrays,
    i: usize,
    dx: int,
    dy: int,
    fuel: nat,
) -> Option<usize>
    decreases fuel,
{
    if scroll_moves(layout, inter, i as int, dx, dy) {
        Some(i)
    } else {
        match core.parent_index.at(i as int) {
            Some(p) => if layout.scrollable_at(p as int) && fuel > 0 {
                chain_target(layout, inter, core, p, dx, dy, (fuel - 1) as nat)
            } else {
                None
            },
            None => None,
        }
    }
}

/// The chained target, with enough fuel to reach a root.
pub open spec fn chained_target(
    layout: &ComputedLayout,
    inter: InteractionArrays,
    core: &CoreArrays,
    i: usize,
    dx: int,
    dy: int,
) -> Option<usize> {
    chain_target(layout, inter, core, i, dx, dy, choose|n: nat| parent_chain_ends(core, i, n))
}

/// Scroll with parent chaining (the mouse wheel): when the component is at
/// its boundary, its parent scrolls instead, while parents scroll. Returns
/// whether anything scrolled.
pub fn scroll_by_with_chaining(
    layout: &ComputedLayout,
    inter: &mut InteractionArrays,
    core: &CoreArrays,
    index: usize,
    delta_x: i32,
    delta_y: i32,
) -> (r: bool)
    requires
        parents_acyclic(core),
        forall|i: int| #[trigger] delta_fits(layout, *old(inter), i, delta_x as int, delta_y as int),
    ensures
        ({
            let t = chained_target(layout, *old(inter), core, index, delta_x as int, delta_y as int);
            &&& r == t is Some
            &&& t matches Some(c) ==> scrolled_by(layout, *old(inter), *final(inter), c as int, delta_x as int, delta_y as int)
            &&& t is None ==> *final(inter) == *old(inter)
        }),
{
    assert(chain_finite(core, index));
    let ghost n0: nat = choose|n: nat| parent_chain_ends(core, index, n);
    let ghost mut fuel: nat = n0;
    let ghost inter0 = *inter;
    let mut current = index;
    loop
        invariant
            *inter == inter0,
            inter0 == *old(inter),
            parents_acyclic(core),
            forall|i: int| #[trigger] delta_fits(layout, inter0, i, delta_x as int, delta_y as int),
            parent_chain_ends(core, current, fuel),
            chain_target(layout, inter0, core, current, delta_x as int, delta_y as int, fuel) == chain_target(
                layout,
                inter0,
                core,
                index,
                delta_x as int,
                delta_y as int,
                n0,
            ),
            n0 == choose|n: nat| parent_chain_ends(core, index, n),
        decreases fuel,
    {
        if scroll_by(layout, inter, current, delta_x, delta_y) {
            return true;
        }
        match get_parent_index(core, current) {
            Some(p) => {
                if is_scrollable(layout, p) {
                    current = p;
                    proof {
                        fuel = (fuel - 1) as nat;
                    }
                } else {
                    return false;
                }
            },
            None => {
                return false;
            },
        }
    }
}

// =============================================================================
// Keyboard and wheel handlers
// =============================================================================

/// The focused component if it scrolls, else -1.
pub fn get_focused_scrollable<F: Fn()>(layout: &ComputedLayout, focus: &FocusState<F>) -> (r: i32)
    ensures
        r == if focus.focused_spec() >= 0 && layout.scrollable_at(focus.focused_spec()) {
            focus.focused_spec()
        } else {
            -1
        },
{
    let focused = get_focused_index(focus);
    if focused >= 0 && is_scrollable(layout, focused as usize) {
        focused
    } else {
        -1
    }
}

/// Scroll deltas (x, y) for a direction and step.
pub open spec fn direction_delta(direction: ScrollDirection, step: int) -> (int, int) {
    match direction {
        ScrollDirection::Up => (0, -step),
        ScrollDirection::Down => (0, step),
        ScrollDirection::Left => (-step, 0),
        ScrollDirection::Right => (step, 0),
    }
}

/// Scrolling the focused component `f` by a line in `direction`: nothing
/// happens unless `f` is a scrollable component; then `r` says whether the
/// offsets moved, and they moved as `scrolled_by` says.
pub open spec fn arrow_scroll_done(
    layout: &ComputedLayout,
    f: int,
    before: InteractionArrays,
    after: InteractionArrays,
    direction: ScrollDirection,
    r: bool,
) -> bool {
    let d = direction_delta(direction, LINE_SCROLL as int);
    &&& !(f >= 0 && layout.scrollable_at(f)) ==> !r && after == before
    &&& (f >= 0 && layout.scrollable_at(f)) ==> r == scroll_moves(layout, before, f, d.0, d.1) && (r ==> scrolled_by(
        layout,
        before,
        after,
        f,
        d.0,
        d.1,
    )) && (!r ==> after == before)
}

/// Scrolling the focused component `f` by a page (its height times the
/// page factor, at least one line) up or down: nothing happens unless `f`
/// is scrollable and the direction vertical; then as for a line.
pub open spec fn page_scroll_done(
    layout: &ComputedLayout,
    f: int,
    before: InteractionArrays,
    after: InteractionArrays,
    direction: ScrollDirection,
    r: bool,
) -> bool {
    let page = page_amount(u16_at_or(layout.height@, f, 10));
    let vertical = direction == ScrollDirection::Up || direction == ScrollDirection::Down;
    let d = direction_delta(direction, page);
    &&& !(f >= 0 && layout.scrollable_at(f) && vertical) ==> !r && after == before
    &&& (f >= 0 && layout.scrollable_at(f) && vertical) ==> r == scroll_moves(layout, before, f, d.0, d.1) && (r
        ==> scrolled_by(layout, before, after, f, d.0, d.1)) && (!r ==> after == before)
}

/// Page Up moves the focused component's view up and Page Down moves it
/// down, by at most a page (`page_amount` of its height), the horizontal
/// offset kept, when its offsets were within range; a horizontal page
/// scroll and a scroll that reports no move change nothing.
pub proof fn lemma_page_scroll_direction(
    layout: &ComputedLayout,
    f: int,
    before: InteractionArrays,
    after: InteractionArrays,
    direction: ScrollDirection,
    r: bool,
)
    requires
        page_scroll_done(layout, f, before, after, direction, r),
        before.scroll_offset_x.at(f) <= layout.max_x_at(f),
        before.scroll_offset_y.at(f) <= layout.max_y_at(f),
    ensures
        !r ==> after == before,
        (direction == ScrollDirection::Left || direction == ScrollDirection::Right) ==> !r,
        r ==> after.scroll_offset_x.at(f) == before.scroll_offset_x.at(f),
        r && direction == ScrollDirection::Up ==> {
            let page = page_amount(u16_at_or(layout.height@, f, 10));
            &&& after.scroll_offset_y.at(f) < before.scroll_offset_y.at(f)
            &&& after.scroll_offset_y.at(f) >= before.scroll_offset_y.at(f) - page
        },
        r && direction == ScrollDirection::Down ==> {
            let page = page_amount(u16_at_or(layout.height@, f, 10));
            &&& after.scroll_offset_y.at(f) > before.scroll_offset_y.at(f)
            &&& after.scroll_offset_y.at(f) <= before.scroll_offset_y.at(f) + page
        },
{
}

/// Scrolling the focused component `f` to the top (`to_top`) or the
/// bottom: done exactly when `f` is scrollable, the horizontal offset kept
/// within range.
pub open spec fn home_end_done(
    layout: &ComputedLayout,
    f: int,
    before: InteractionArrays,
    after: InteractionArrays,
    to_top: bool,
    r: bool,
) -> bool {
    &&& r == (f >= 0 && layout.scrollable_at(f))
    &&& !r ==> after == before
    &&& r ==> offsets_set(
        before,
        after,
        f,
        min_u16(before.scroll_offset_x.at(f), layout.max_x_at(f)),
        if to_top { 0 } else { layout.max_y_at(f) },
    )
}

/// Arrow-key scroll of the focused component by one line (no chaining).
/// Returns whether it scrolled.
pub fn handle_arrow_scroll<F: Fn()>(
    layout: &ComputedLayout,
    focus: &FocusState<F>,
    inter: &mut InteractionArrays,
    direction: ScrollDirection,
) -> (r: bool)
    ensures
        arrow_scroll_done(layout, focus.focused_spec(), *old(inter), *final(inter), direction, r),
{
    let scrollable = get_focused_scrollable(layout, focus);
    if scrollable < 0 {
        return false;
    }
    let idx = scrollable as usize;
    let step = LINE_SCROLL as i32;
    match direction {
        ScrollDirection::Up => scroll_by(layout, inter, idx, 0, -step),
        ScrollDirection::Down => scroll_by(layout, inter, idx, 0, step),
        ScrollDirection::Left => scroll_by(layout, inter, idx, -step, 0),
        ScrollDirection::Right => scroll_by(layout, inter, idx, step, 0),
    }
}

/// The page step for a viewport height: nine tenths of it, at least 1.
pub open spec fn page_amount(viewport_height: u16) -> int {
    let a = viewport_height * PAGE_SCROLL_TENTHS / 10;
    if a < 1 {
        1
    } else {
        a
    }
}

/// Page Up / Page Down scroll of the focused component by nine tenths of its
/// height (10 rows when the layout has none), at least one line. Horizontal
/// directions do nothing. Returns whether it scrolled.
pub fn handle_page_scroll<F: Fn()>(
    layout: &ComputedLayout,
    focus: &FocusState<F>,
    inter: &mut InteractionArrays,
    direction: ScrollDirection,
) -> (r: bool)
    ensures
        page_scroll_done(layout, focus.focused_spec(), *old(inter), *final(inter), direction, r),
{
    let scrollable = get_focused_scrollable(layout, focus);
    if scrollable < 0 {
        return false;
    }
    let idx = scrollable as usize;
    let viewport_height = u16_get_or(&layout.height, idx, 10);
    let scaled = viewport_height as i32 * PAGE_SCROLL_TENTHS as i32 / 10;
    let page = if scaled < 1 { 1 } else { scaled };
    match direction {
        ScrollDirection::Up => scroll_by(layout, inter, idx, 0, -page),
        ScrollDirection::Down => scroll_by(layout, inter, idx, 0, page),
        _ => false,
    }
}

/// Ctrl+Home / Ctrl+End: scroll the focused component to the top or bottom.
/// Returns whether a scrollable component was focused.
pub fn handle_home_end<F: Fn()>(
    layout: &ComputedLayout,
    focus: &FocusState<F>,
    inter: &mut InteractionArrays,
    to_top: bool,
) -> (r: bool)
    ensures
        home_end_done(layout, focus.focused_spec(), *old(inter), *final(inter), to_top, r),
{
    let scrollable = get_focused_scrollable(layout, focus);
    if scrollable < 0 {
        return false;
    }
    let idx = scrollable as usize;
    if to_top {
        scroll_to_top(layout, inter, idx);
    } else {
        scroll_to_bottom(layout, inter, idx);
    }
    true
}

/// The wheel deltas for a direction.
fn wheel_delta(direction: ScrollDirection) -> (d: (i32, i32))
    ensures
        (d.0 as int, d.1 as int) == direction_delta(direction, WHEEL_SCROLL as int),
{
    let step = WHEEL_SCROLL as i32;
    match direction {
        ScrollDirection::Up => (0, -step),
        ScrollDirection::Down => (0, step),
        ScrollDirection::Left => (-step, 0),
        ScrollDirection::Right => (step, 0),
    }
}

/// Mouse wheel at (x, y): the scrollable component under the pointer scrolls
/// with chaining; otherwise the focused scrollable component does, with
/// chaining too. Returns whether anything scrolled.
pub fn handle_wheel_scroll<F: Fn()>(
    layout: &ComputedLayout,
    focus: &FocusState<F>,
    inter: &mut InteractionArrays,
    core: &CoreArrays,
    grid: &HitGrid,
    x: u16,
    y: u16,
    direction: ScrollDirection,
) -> (r: bool)
    requires
        parents_acyclic(core),
    ensures
        ({
            let d = direction_delta(direction, WHEEL_SCROLL as int);
            let f = focus.focused_spec();
            let start: Option<usize> = match grid.cell(x as int, y as int) {
                Some(c) => if layout.scrollable_at(c as int) {
                    Some(c)
                } else if f >= 0 && layout.scrollable_at(f) {
                    Some(f as usize)
                } else {
                    None
                },
                None => if f >= 0 && layout.scrollable_at(f) {
                    Some(f as usize)
                } else {
                    None
                },
            };
            let t = match start {
                Some(s) => chained_target(layout, *old(inter), core, s, d.0, d.1),
                None => None,
            };
            &&& r == t is Some
            &&& t matches Some(c) ==> scrolled_by(layout, *old(inter), *final(inter), c as int, d.0, d.1)
            &&& t is None ==> *final(inter) == *old(inter)
        }),
{
    let component_at = hit_test(grid, x, y);
    match component_at {
        Some(idx) => {
            if is_scrollable(layout, idx) {
                let (dx, dy) = wheel_delta(direction);
                return scroll_by_with_chaining(layout, inter, core, idx, dx, dy);
            }
        },
        None => {},
    }
    let scrollable = get_focused_scrollable(layout, focus);
    if scrollable >= 0 {
        let (dx, dy) = wheel_delta(direction);
        scroll_by_with_chaining(layout, inter, core, scrollable as usize, dx, dy)
    } else {
        false
    }
}

} // verus!

verus! {

// =============================================================================
// Scroll into view
// =============================================================================

/// The nearest scrollable proper ancestor reachable within `fuel` steps.
pub open spec fn scrollable_ancestor_within(layout: &ComputedLayout, core: &CoreArrays, i: usize, fuel: nat) -> Option<
    usize,
>
    decreases fuel,
{
    match core.parent_index.at(i as int) {
        None => None,
        Some(p) => if layout.scrollable_at(p as int) {
            Some(p)
        } else if fuel > 0 {
            scrollable_ancestor_within(layout, core, p, (fuel - 1) as nat)
        } else {
            None
        },
    }
}

/// The nearest scrollable proper ancestor of `i`.
pub open spec fn scrollable_ancestor(layout: &ComputedLayout, core: &CoreArrays, i: usize) -> Option<usize> {
    scrollable_ancestor_within(layout, core, i, choose|n: nat| parent_chain_ends(core, i, n))
}

/// Find the nearest scrollable ancestor of a component (not itself).
pub fn find_scrollable_ancestor(layout: &ComputedLayout, core: &CoreArrays, index: usize) -> (r: Option<usize>)
    requires
        parents_acyclic(core),
    ensures
        r == scrollable_ancestor(layout, core, index),
{
    assert(chain_finite(core, index));
    let ghost n0: nat = choose|n: nat| parent_chain_ends(core, index, n);
    let ghost mut fuel: nat = n0;
    let mut current = index;
    loop
        invariant
            parent_chain_ends(core, current, fuel),
            scrollable_ancestor_within(layout, core, current, fuel) == scrollable_ancestor_within(
                layout,
                core,
                index,
                n0,
            ),
            n0 == choose|n: nat| parent_chain_ends(core, index, n),
        decreases fuel,
    {
        match get_parent_index(core, current) {
            None => {
                return None;
            },
            Some(p) => {
                if is_scrollable(layout, p) {
                    return Some(p);
                }
                current = p;
                proof {
                    fuel = (fuel - 1) as nat;
                }
            },
        }
    }
}

/// Saturating u16 subtraction.
pub open spec fn sat_sub(a: u16, b: u16) -> u16 {
    if a >= b {
        (a - b) as u16
    } else {
        0
    }
}

/// Saturating u16 addition.
pub open spec fn sat_add(a: u16, b: u16) -> u16 {
    if a + b > u16::MAX {
        u16::MAX
    } else {
        (a + b) as u16
    }
}

/// The y offset that shows a child (top `child_y`, height `child_height`)
/// in a viewport of height `viewport_height` scrolled to `current_y`: None
/// when it is already visible, else the smallest move that shows it.
pub open spec fn into_view_target(current_y: u16, child_y: u16, child_height: u16, viewport_height: u16) -> Option<u16> {
    let viewport_bottom = sat_add(current_y, viewport_height);
    let child_bottom = sat_add(child_y, child_height);
    if child_y >= current_y && child_bottom <= viewport_bottom {
        None
    } else if child_y < current_y {
        Some(child_y)
    } else if child_bottom > viewport_bottom {
        Some(sat_sub(child_bottom, viewport_height))
    } else {
        None
    }
}

/// Scroll a scrollable component so that a child at `child_y` (relative to
/// it) of height `child_height` is visible, moving as little as possible.
pub fn scroll_into_view(
    layout: &ComputedLayout,
    inter: &mut InteractionArrays,
    scrollable_index: usize,
    child_y: u16,
    child_height: u16,
    viewport_height: u16,
)
    ensures
        ({
            let i = scrollable_index as int;
            let t = into_view_target(old(inter).scroll_offset_y.at(i), child_y, child_height, viewport_height);
            &&& (layout.scrollable_at(i) && t is Some) ==> offsets_set(
                *old(inter),
                *final(inter),
                i,
                min_u16(old(inter).scroll_offset_x.at(i), layout.max_x_at(i)),
                min_u16(t->0, layout.max_y_at(i)),
            )
            &&& !(layout.scrollable_at(i) && t is Some) ==> *final(inter) == *old(inter)
        }),
{
    if !is_scrollable(layout, scrollable_index) {
        return;
    }
    let (_, current_y) = get_scroll_offset(inter, scrollable_index);
    let viewport_top = current_y;
    let viewport_bottom = viewport_top.saturating_add(viewport_height);
    let child_top = child_y;
    let child_bottom = child_y.saturating_add(child_height);
    if child_top >= viewport_top && child_bottom <= viewport_bottom {
        return;
    }
    let (current_x, _) = get_scroll_offset(inter, scrollable_index);
    if child_top < viewport_top {
        set_scroll_offset(layout, inter, scrollable_index, current_x, child_top);
    } else if child_bottom > viewport_bottom {
        let new_y = child_bottom.saturating_sub(viewport_height);
        set_scroll_offset(layout, inter, scrollable_index, current_x, new_y);
    }
}

/// Scroll the nearest scrollable ancestor of the focused component so that
/// the component is visible, using the layout's positions.
pub fn scroll_focused_into_view(
    layout: &ComputedLayout,
    inter: &mut InteractionArrays,
    core: &CoreArrays,
    focused_index: usize,
)
    requires
        parents_acyclic(core),
    ensures
        ({
            let a = scrollable_ancestor(layout, core, focused_index);
            &&& a is None ==> *final(inter) == *old(inter)
            &&& a matches Some(s) ==> {
                let i = s as int;
                let rel = sat_sub(u16_at_or(layout.y@, focused_index as int, 0), u16_at_or(layout.y@, i, 0));
                let t = into_view_target(
                    old(inter).scroll_offset_y.at(i),
                    rel,
                    u16_at_or(layout.height@, focused_index as int, 0),
                    u16_at_or(layout.height@, i, 0),
                );
                &&& (layout.scrollable_at(i) && t is Some) ==> offsets_set(
                    *old(inter),
                    *final(inter),
                    i,
                    min_u16(old(inter).scroll_offset_x.at(i), layout.max_x_at(i)),
                    min_u16(t->0, layout.max_y_at(i)),
                )
                &&& !(layout.scrollable_at(i) && t is Some) ==> *final(inter) == *old(inter)
            }
        }),
{
    let scrollable = match find_scrollable_ancestor(layout, core, focused_index) {
        Some(idx) => idx,
        None => {
            return;
        },
    };
    let child_y = u16_get_or(&layout.y, focused_index, 0);
    let child_height = u16_get_or(&layout.height, focused_index, 0);
    let scrollable_y = u16_get_or(&layout.y, scrollable, 0);
    let viewport_height = u16_get_or(&layout.height, scrollable, 0);
    let relative_y = child_y.saturating_sub(scrollable_y);
    scroll_into_view(layout, inter, scrollable, relative_y, child_height, viewport_height);
}

// =============================================================================
// Stick to bottom
// =============================================================================

/// Whether a y offset counts as at the bottom: within one line of the bound.
pub open spec fn at_bottom_spec(current_y: u16, max_y: u16) -> bool {
    current_y >= sat_sub(max_y, LINE_SCROLL)
}

/// After layout: when stick-to-bottom is on and the content grew while the
/// view was at the previous bottom, scroll to the new bottom; the bound is
/// remembered for next time. Nothing happens when stick-to-bottom is off or
/// the component does not scroll.
pub fn handle_stick_to_bottom(layout: &ComputedLayout, inter: &mut InteractionArrays, index: usize)
    ensures
        ({
            let i = index as int;
            let active = old(inter).stick_to_bottom.at(i) && layout.scrollable_at(i);
            let max_y = layout.max_y_at(i);
            let prev = old(inter).prev_max_scroll_y.at(i);
            let follow = max_y > prev && at_bottom_spec(old(inter).scroll_offset_y.at(i), prev);
            &&& !active ==> *final(inter) == *old(inter)
            &&& active && !follow ==> old(inter).prev_max_scroll_y.written(final(inter).prev_max_scroll_y, i, max_y)
                && *final(inter) == (InteractionArrays { prev_max_scroll_y: final(inter).prev_max_scroll_y, ..*old(inter) })
            &&& active && follow ==> exists|mid: InteractionArrays|
                offsets_set(
                    *old(inter),
                    mid,
                    i,
                    min_u16(old(inter).scroll_offset_x.at(i), layout.max_x_at(i)),
                    max_y,
                ) && mid.prev_max_scroll_y.written(final(inter).prev_max_scroll_y, i, max_y) && *final(inter) == (
                InteractionArrays { prev_max_scroll_y: final(inter).prev_max_scroll_y, ..mid })
        }),
{
    if !get_stick_to_bottom(inter, index) {
        return;
    }
    if !is_scrollable(layout, index) {
        return;
    }
    let (_, current_y) = get_scroll_offset(inter, index);
    let (_, max_y) = get_max_scroll(layout, index);
    let prev_max_y = get_prev_max_scroll_y(inter, index);
    if max_y > prev_max_y {
        let was_at_bottom = current_y >= prev_max_y.saturating_sub(LINE_SCROLL);
        if was_at_bottom {
            scroll_to_bottom(layout, inter, index);
        }
    }
    let ghost mid = *inter;
    set_prev_max_scroll_y(inter, index, max_y);
    assert(offsets_set(
        *old(inter),
        mid,
        index as int,
        min_u16(old(inter).scroll_offset_x.at(index as int), layout.max_x_at(index as int)),
        max_y,
    ) ==> exists|m: InteractionArrays|
        offsets_set(
            *old(inter),
            m,
            index as int,
            min_u16(old(inter).scroll_offset_x.at(index as int), layout.max_x_at(index as int)),
            max_y,
        ) && m.prev_max_scroll_y.written(inter.prev_max_scroll_y, index as int, max_y) && *inter == (
        InteractionArrays { prev_max_scroll_y: inter.prev_max_scroll_y, ..m }));
}

/// After a user scroll: when stick-to-bottom is on and the view is at the
/// bottom, the current bound is remembered, so growth follows again.
pub fn update_stick_to_bottom_on_scroll(layout: &ComputedLayout, inter: &mut InteractionArrays, index: usize)
    ensures
        ({
            let i = index as int;
            let update = old(inter).stick_to_bottom.at(i) && layout.scrollable_at(i) && at_bottom_spec(
                old(inter).scroll_offset_y.at(i),
                layout.max_y_at(i),
            );
            &&& !update ==> *final(inter) == *old(inter)
            &&& update ==> old(inter).prev_max_scroll_y.written(final(inter).prev_max_scroll_y, i, layout.max_y_at(i))
                && *final(inter) == (InteractionArrays { prev_max_scroll_y: final(inter).prev_max_scroll_y, ..*old(inter) })
        }),
{
    if !get_stick_to_bottom(inter, index) {
        return;
    }
    if !is_scrollable(layout, index) {
        return;
    }
    let (_, current_y) = get_scroll_offset(inter, index);
    let (_, max_y) = get_max_scroll(layout, index);
    let at_bottom = current_y >= max_y.saturating_sub(LINE_SCROLL);
    if at_bottom {
        set_prev_max_scroll_y(inter, index, max_y);
    }
}

/// Whether a component is at its bottom (within one line); a component that
/// does not scroll always is.
pub fn is_at_bottom(layout: &ComputedLayout, inter: &InteractionArrays, index: usize) -> (b: bool)
    ensures
        b == (!layout.scrollable_at(index as int) || at_bottom_spec(
            inter.scroll_offset_y.at(index as int),
            layout.max_y_at(index as int),
        )),
{
    if !is_scrollable(layout, index) {
        return true;
    }
    let (_, current_y) = get_scroll_offset(inter, index);
    let (_, max_y) = get_max_scroll(layout, index);
    current_y >= max_y.saturating_sub(LINE_SCROLL)
}

/// Scrolling never leaves the bounds: a clamped offset lies in `0..=max`.
pub proof fn lemma_scroll_stays_in_bounds(cur: u16, delta: int, max: u16)
    ensures
        clamp_offset(cur, delta, max) <= max,
        min_u16(cur, max) <= max,
{
}

} // verus!
