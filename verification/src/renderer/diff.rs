//! Diff rendering: which cells of a frame differ from the previous frame.
//! Writing the changed cells to the terminal is the caller's part.

use vstd::prelude::*;
use crate::types::Cell;
use crate::renderer::buffer::{FrameBuffer, frame_cell};

verus! {

/// Whether two cells look the same: character, attributes and colors.
pub fn cells_equal(a: &Cell, b: &Cell) -> (r: bool)
    ensures
        r == (*a == *b),
{
    a.char == b.char && a.attrs == b.attrs && a.fg == b.fg && a.bg == b.bg
}

/// Whether cell (x, y) of `frame` must be drawn after `previous`: always
/// without a previous frame of the same size, else when the cell changed.
pub open spec fn cell_changed(previous: Option<(u16, u16, Seq<Cell>)>, frame: (u16, u16, Seq<Cell>), x: int, y: int) -> bool {
    match previous {
        Some(p) => if p.0 == frame.0 && p.1 == frame.1 {
            frame_cell(p, x, y) != frame_cell(frame, x, y)
        } else {
            true
        },
        None => true,
    }
}

/// Row-major order of positions.
pub open spec fn row_major_before(a: (u16, u16), b: (u16, u16)) -> bool {
    a.1 < b.1 || (a.1 == b.1 && a.0 < b.0)
}

/// `cells` lists, in row-major order, exactly the positions of a `w` by `h`
/// grid that satisfy `pick`.
pub open spec fn lists_positions(cells: Seq<(u16, u16)>, w: u16, h: u16, pick: spec_fn(int, int) -> bool) -> bool {
    &&& forall|k: int| 0 <= k < cells.len() ==> (#[trigger] cells[k]).0 < w && cells[k].1 < h && pick(
        cells[k].0 as int,
        cells[k].1 as int,
    )
    &&& forall|j: int, k: int| 0 <= j < k < cells.len() ==> row_major_before(#[trigger] cells[j], #[trigger] cells[k])
    &&& forall|x: u16, y: u16| x < w && y < h && pick(x as int, y as int) ==> #[trigger] cells.contains((x, y))
}

/// The diff renderer: remembers the last frame drawn.
pub struct DiffRenderer {
    previous: Option<FrameBuffer>,
}

impl DiffRenderer {
    /// The last frame drawn, as plain values.
    pub closed spec fn previous_frame(&self) -> Option<(u16, u16, Seq<Cell>)> {
        match self.previous {
            Some(b) => Some(b.frame()),
            None => None,
        }
    }

    /// The remembered frame is well formed.
    pub closed spec fn wf(&self) -> bool {
        self.previous matches Some(p) ==> p.wf()
    }

    /// No previous frame.
    pub fn new() -> (r: DiffRenderer)
        ensures
            r.wf(),
            r.previous_frame() is None,
    {
        DiffRenderer { previous: None }
    }

    /// The positions to draw for a frame, in row-major order: those that
    /// changed since the previous frame (all of them after a size change or
    /// with no previous frame). The frame becomes the previous one.
    pub fn render(&mut self, buffer: &FrameBuffer) -> (cells: Vec<(u16, u16)>)
        requires
            old(self).wf(),
            buffer.wf(),
        ensures
            final(self).wf(),
            lists_positions(
                cells@,
                buffer.width_spec(),
                buffer.height_spec(),
                |x: int, y: int| cell_changed(old(self).previous_frame(), buffer.frame(), x, y),
            ),
            final(self).previous_frame() == Some(buffer.frame()),
    {
        let ghost prev = self.previous_frame();
        let ghost pick = |x: int, y: int| cell_changed(prev, buffer.frame(), x, y);
        let width = buffer.width();
        let height = buffer.height();
        let same_size = match &self.previous {
            Some(p) => p.width() == width && p.height() == height,
            None => false,
        };
        let mut cells: Vec<(u16, u16)> = Vec::new();
        let mut y: u16 = 0;
        while y < height
            invariant
                buffer.wf(),
                width == buffer.width_spec(),
                height == buffer.height_spec(),
                y <= height,
                prev == self.previous_frame(),
                pick == (|x: int, y: int| cell_changed(prev, buffer.frame(), x, y)),
                same_size == (prev matches Some(p) && p.0 == width && p.1 == height),
                self.previous matches Some(p) ==> p.wf(),
                forall|k: int| 0 <= k < cells@.len() ==> (#[trigger] cells@[k]).0 < width && cells@[k].1 < y && pick(
                    cells@[k].0 as int,
                    cells@[k].1 as int,
                ),
                forall|j: int, k: int| 0 <= j < k < cells@.len() ==> row_major_before(#[trigger] cells@[j], #[trigger] cells@[k]),
                forall|px: u16, py: u16| px < width && py < y && pick(px as int, py as int) ==> #[trigger] cells@.contains((px, py)),
            decreases height - y,
        {
            let mut x: u16 = 0;
            while x < width
                invariant
                    buffer.wf(),
                    width == buffer.width_spec(),
                    height == buffer.height_spec(),
                    y < height,
                    x <= width,
                    prev == self.previous_frame(),
                    pick == (|x: int, y: int| cell_changed(prev, buffer.frame(), x, y)),
                    same_size == (prev matches Some(p) && p.0 == width && p.1 == height),
                    self.previous matches Some(p) ==> p.wf(),
                    forall|k: int| 0 <= k < cells@.len() ==> (#[trigger] cells@[k]).0 < width && (cells@[k].1 < y
                        || (cells@[k].1 == y && cells@[k].0 < x)) && pick(cells@[k].0 as int, cells@[k].1 as int),
                    forall|j: int, k: int| 0 <= j < k < cells@.len() ==> row_major_before(#[trigger] cells@[j], #[trigger] cells@[k]),
                    forall|px: u16, py: u16| px < width && (py < y || (py == y && px < x)) && pick(px as int, py as int)
                        ==> #[trigger] cells@.contains((px, py)),
                decreases width - x,
            {
                let cell = buffer.get(x, y).unwrap();
                let changed = if same_size {
                    match &self.previous {
                        Some(p) => match p.get(x, y) {
                            Some(prev_cell) => !cells_equal(&cell, &prev_cell),
                            None => true,
                        },
                        None => true,
                    }
                } else {
                    true
                };
                assert(changed == pick(x as int, y as int));
                if changed {
                    let ghost before = cells@;
                    cells.push((x, y));
                    proof {
                        assert forall|px: u16, py: u16| px < width && (py < y || (py == y && px < x + 1)) && pick(
                            px as int,
                            py as int,
                        ) implies #[trigger] cells@.contains((px, py)) by {
                            if px == x && py == y {
                                assert(cells@[before.len() as int] == (x, y));
                            } else {
                                assert(before.contains((px, py)));
                                let m = choose|m: int| 0 <= m < before.len() && before[m] == (px, py);
                                assert(cells@[m] == (px, py));
                            }
                        }
                    }
                }
                x = x + 1;
            }
            y = y + 1;
        }
        self.previous = Some(buffer.duplicate());
        cells
    }

    /// Every position of a frame, in row-major order; the frame becomes the
    /// previous one.
    pub fn render_full(&mut self, buffer: &FrameBuffer) -> (cells: Vec<(u16, u16)>)
        requires
            old(self).wf(),
            buffer.wf(),
        ensures
            final(self).wf(),
            lists_positions(cells@, buffer.width_spec(), buffer.height_spec(), |x: int, y: int| true),
            final(self).previous_frame() == Some(buffer.frame()),
    {
        self.previous = None;
        let cells = self.render(buffer);
        cells
    }

    /// Forget the previous frame, so the next render draws everything.
    pub fn invalidate(&mut self)
        ensures
            final(self).wf(),
            final(self).previous_frame() is None,
    {
        self.previous = None;
    }

    /// Whether a previous frame is remembered.
    pub fn has_previous(&self) -> (b: bool)
        ensures
            b == self.previous_frame() is Some,
    {
        self.previous.is_some()
    }
}

impl Default for DiffRenderer {
    fn default() -> (r: DiffRenderer)
        ensures
            r.wf(),
            r.previous_frame() is None,
    {
        DiffRenderer::new()
    }
}


/// Only changed cells are drawn: drawing a frame over the same frame lists
/// no cell.
pub proof fn lemma_redraw_same_frame_is_empty(frame: (u16, u16, Seq<Cell>), cells: Seq<(u16, u16)>)
    requires
        lists_positions(cells, frame.0, frame.1, |x: int, y: int| cell_changed(Some(frame), frame, x, y)),
    ensures
        cells.len() == 0,
{
    if cells.len() > 0 {
        let c = cells[0];
        assert(!cell_changed(Some(frame), frame, c.0 as int, c.1 as int));
    }
}

} // verus!
