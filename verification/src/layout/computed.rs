//! The computed layout: per-component positions, sizes and scroll bounds.

use vstd::prelude::*;

verus! {

/// The value at `i`, or `d` past the end.
pub open spec fn u16_at_or(s: Seq<u16>, i: int, d: u16) -> u16 {
    if 0 <= i < s.len() {
        s[i]
    } else {
        d
    }
}

/// Layout results, indexed by component index.
pub struct ComputedLayout {
    pub x: Vec<u16>,
    pub y: Vec<u16>,
    pub width: Vec<u16>,
    pub height: Vec<u16>,
    /// 1 where the component scrolls (its content overflows), else 0.
    pub scrollable: Vec<u8>,
    pub max_scroll_x: Vec<u16>,
    pub max_scroll_y: Vec<u16>,
    /// Size of the root's content.
    pub content_width: u16,
    pub content_height: u16,
}

impl ComputedLayout {
    /// Whether component `i` scrolls.
    pub open spec fn scrollable_at(&self, i: int) -> bool {
        0 <= i < self.scrollable@.len() && self.scrollable@[i] == 1
    }

    /// Horizontal scroll bound of component `i` (0 past the end).
    pub open spec fn max_x_at(&self, i: int) -> u16 {
        u16_at_or(self.max_scroll_x@, i, 0)
    }

    /// Vertical scroll bound of component `i` (0 past the end).
    pub open spec fn max_y_at(&self, i: int) -> u16 {
        u16_at_or(self.max_scroll_y@, i, 0)
    }

    /// An empty layout.
    pub fn new() -> (l: ComputedLayout)
        ensures
            l.x@.len() == 0,
            l.y@.len() == 0,
            l.width@.len() == 0,
            l.height@.len() == 0,
            l.scrollable@.len() == 0,
            l.max_scroll_x@.len() == 0,
            l.max_scroll_y@.len() == 0,
            l.content_width == 0,
            l.content_height == 0,
    {
        ComputedLayout {
            x: Vec::new(),
            y: Vec::new(),
            width: Vec::new(),
            height: Vec::new(),
            scrollable: Vec::new(),
            max_scroll_x: Vec::new(),
            max_scroll_y: Vec::new(),
            content_width: 0,
            content_height: 0,
        }
    }
}

impl Default for ComputedLayout {
    fn default() -> (l: ComputedLayout)
        ensures
            l.x@.len() == 0,
            l.y@.len() == 0,
            l.width@.len() == 0,
            l.height@.len() == 0,
            l.scrollable@.len() == 0,
            l.max_scroll_x@.len() == 0,
            l.max_scroll_y@.len() == 0,
            l.content_width == 0,
            l.content_height == 0,
    {
        ComputedLayout::new()
    }
}

/// The value at `i`, or `d` past the end.
pub fn u16_get_or(v: &Vec<u16>, i: usize, d: u16) -> (r: u16)
    ensures
        r == u16_at_or(v@, i as int, d),
{
    if i < v.len() {
        v[i]
    } else {
        d
    }
}

} // verus!
