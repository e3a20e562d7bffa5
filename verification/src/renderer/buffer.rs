//! A frame buffer: a grid of terminal cells.

use vstd::prelude::*;
use crate::types::{Cell, Rgba, Attr, rgba, ClipRect};
use crate::state::mouse::{grid_index, lemma_grid_index};

verus! {

/// A blank cell: a space in the terminal's default colors.
pub open spec fn blank_cell() -> Cell {
    Cell { char: 32, fg: rgba(-1, -1, -1, -1), bg: rgba(-1, -1, -1, -1), attrs: Attr { bits: 0 } }
}

/// The cell at (x, y) of a frame.
pub open spec fn frame_cell(f: (u16, u16, Seq<Cell>), x: int, y: int) -> Cell {
    f.2[grid_index(f.0 as int, x, y)]
}

/// A grid of cells, row by row.
#[derive(Debug, Clone)]
pub struct FrameBuffer {
    width: u16,
    height: u16,
    cells: Vec<Cell>,
}

impl FrameBuffer {
    /// Grid width.
    pub open spec fn width_spec(&self) -> u16 {
        self.frame().0
    }

    /// Grid height.
    pub open spec fn height_spec(&self) -> u16 {
        self.frame().1
    }

    /// The buffer as plain values: width, height and cells row by row.
    pub closed spec fn frame(&self) -> (u16, u16, Seq<Cell>) {
        (self.width, self.height, self.cells@)
    }

    /// A copy of the buffer.
    pub fn duplicate(&self) -> (b: FrameBuffer)
        ensures
            b.frame() == self.frame(),
            b.wf() == self.wf(),
    {
        let mut cells: Vec<Cell> = Vec::new();
        let mut k: usize = 0;
        while k < self.cells.len()
            invariant
                k <= self.cells@.len(),
                cells@ == self.cells@.take(k as int),
            decreases self.cells.len() - k,
        {
            cells.push(self.cells[k]);
            assert(self.cells@.take(k + 1) =~= self.cells@.take(k as int).push(self.cells@[k as int]));
            k = k + 1;
        }
        assert(self.cells@.take(self.cells@.len() as int) =~= self.cells@);
        FrameBuffer { width: self.width, height: self.height, cells }
    }

    /// The cell at (x, y), inside the grid.
    pub open spec fn cell(&self, x: int, y: int) -> Cell {
        frame_cell(self.frame(), x, y)
    }

    /// The cells fill the grid.
    pub closed spec fn wf(&self) -> bool {
        self.cells@.len() == self.width as int * self.height as int
    }

    /// A blank buffer of the given size.
    pub fn new(width: u16, height: u16) -> (b: FrameBuffer)
        ensures
            b.wf(),
            b.width_spec() == width,
            b.height_spec() == height,
            forall|x: int, y: int| 0 <= x < width && 0 <= y < height ==> #[trigger] b.cell(x, y) == blank_cell(),
    {
        assert((width as int) * (height as int) <= 0xFFFE_0001) by (nonlinear_arith)
            requires
                width <= 0xFFFF,
                height <= 0xFFFF,
        ;
        let size = width as usize * height as usize;
        let mut cells: Vec<Cell> = Vec::new();
        let mut k: usize = 0;
        while k < size
            invariant
                k <= size,
                cells@.len() == k,
                forall|j: int| 0 <= j < k ==> #[trigger] cells@[j] == blank_cell(),
            decreases size - k,
        {
            cells.push(Cell::default());
            k = k + 1;
        }
        let b = FrameBuffer { width, height, cells };
        assert forall|x: int, y: int| 0 <= x < width && 0 <= y < height implies #[trigger] b.cell(x, y) == blank_cell() by {
            lemma_grid_index(width as int, height as int, x, y, x, y);
        }
        b
    }

    /// Grid width.
    pub fn width(&self) -> (w: u16)
        ensures
            w == self.width_spec(),
            w == self.frame().0,
    {
        self.width
    }

    /// Grid height.
    pub fn height(&self) -> (h: u16)
        ensures
            h == self.height_spec(),
            h == self.frame().1,
    {
        self.height
    }

    /// The cell at (x, y); None outside the grid.
    pub fn get(&self, x: u16, y: u16) -> (c: Option<Cell>)
        requires
            self.wf(),
        ensures
            x < self.width_spec() && y < self.height_spec() ==> c == Some(self.cell(x as int, y as int)),
            !(x < self.width_spec() && y < self.height_spec()) ==> c is None,
    {
        if x >= self.width || y >= self.height {
            return None;
        }
        proof {
            lemma_grid_index(self.width as int, self.height as int, x as int, y as int, x as int, y as int);
        }
        assert((self.width as int) * (self.height as int) <= 0xFFFE_0001) by (nonlinear_arith)
            requires
                self.width <= 0xFFFF,
                self.height <= 0xFFFF,
        ;
        assert(0 <= (y as int) * (self.width as int)) by (nonlinear_arith) requires y >= 0, self.width >= 0;
        let idx = y as usize * self.width as usize + x as usize;
        Some(self.cells[idx])
    }

    /// Set the cell at (x, y); a position outside the grid is ignored.
    pub fn set(&mut self, x: u16, y: u16, cell: Cell)
        requires
            old(self).wf(),
        ensures
            final(self).wf(),
            final(self).width_spec() == old(self).width_spec(),
            final(self).height_spec() == old(self).height_spec(),
            forall|px: int, py: int|
                0 <= px < old(self).width_spec() && 0 <= py < old(self).height_spec() ==> #[trigger] final(self).cell(
                    px,
                    py,
                ) == if px == x && py == y {
                    cell
                } else {
                    old(self).cell(px, py)
                },
    {
        if x >= self.width || y >= self.height {
            return;
        }
        proof {
            lemma_grid_index(self.width as int, self.height as int, x as int, y as int, x as int, y as int);
        }
        assert((self.width as int) * (self.height as int) <= 0xFFFE_0001) by (nonlinear_arith)
            requires
                self.width <= 0xFFFF,
                self.height <= 0xFFFF,
        ;
        assert(0 <= (y as int) * (self.width as int)) by (nonlinear_arith) requires y >= 0, self.width >= 0;
        let idx = y as usize * self.width as usize + x as usize;
        self.cells.set(idx, cell);
        proof {
            assert forall|px: int, py: int|
                0 <= px < old(self).width_spec() && 0 <= py < old(self).height_spec() implies #[trigger] self.cell(
                    px,
                    py,
                ) == if px == x && py == y {
                    cell
                } else {
                    old(self).cell(px, py)
                } by {
                lemma_grid_index(self.width as int, self.height as int, px, py, x as int, y as int);
            }
        }
    }

    /// Give every cell of `rect` inside the grid the background `bg`,
    /// keeping its character, foreground and attributes.
    pub fn fill_bg(&mut self, rect: ClipRect, bg: Rgba)
        requires
            old(self).wf(),
            rect.x + rect.width <= u16::MAX,
            rect.y + rect.height <= u16::MAX,
        ensures
            final(self).wf(),
            final(self).width_spec() == old(self).width_spec(),
            final(self).height_spec() == old(self).height_spec(),
            forall|px: int, py: int|
                0 <= px < old(self).width_spec() && 0 <= py < old(self).height_spec() ==> #[trigger] final(self).cell(px, py)
                    == if rect.contains_spec(px, py) {
                    Cell { bg, ..old(self).cell(px, py) }
                } else {
                    old(self).cell(px, py)
                },
    {
        let ghost start = *self;
        let mut dy: u16 = 0;
        while dy < rect.height
            invariant
                self.wf(),
                rect.x + rect.width <= u16::MAX,
                rect.y + rect.height <= u16::MAX,
                dy <= rect.height,
                self.width_spec() == start.width_spec(),
                self.height_spec() == start.height_spec(),
                forall|px: int, py: int|
                    0 <= px < start.width_spec() && 0 <= py < start.height_spec() ==> #[trigger] self.cell(px, py) == if rect.contains_spec(px, py)
                        && py < rect.y + dy {
                        Cell { bg, ..start.cell(px, py) }
                    } else {
                        start.cell(px, py)
                    },
            decreases rect.height - dy,
        {
            let y = rect.y + dy;
            let mut dx: u16 = 0;
            while dx < rect.width
                invariant
                    self.wf(),
                    rect.x + rect.width <= u16::MAX,
                    rect.y + rect.height <= u16::MAX,
                    dy < rect.height,
                    y == rect.y + dy,
                    dx <= rect.width,
                    self.width_spec() == start.width_spec(),
                    self.height_spec() == start.height_spec(),
                    forall|px: int, py: int|
                        0 <= px < start.width_spec() && 0 <= py < start.height_spec() ==> #[trigger] self.cell(px, py) == if rect.contains_spec(px, py)
                            && (py < y || (py == y && px < rect.x + dx)) {
                            Cell { bg, ..start.cell(px, py) }
                        } else {
                            start.cell(px, py)
                        },
                decreases rect.width - dx,
            {
                let x = rect.x + dx;
                match self.get(x, y) {
                    Some(c) => {
                        self.set(x, y, Cell { bg, ..c });
                    },
                    None => {},
                }
                dx = dx + 1;
            }
            dy = dy + 1;
        }
    }

    /// Write character `ch` in `fg` with `attrs` at (x, y) when it lies in
    /// `clip` and the grid, keeping the cell's background.
    pub fn put_char(&mut self, x: u16, y: u16, ch: u32, fg: Rgba, attrs: Attr, clip: ClipRect)
        requires
            old(self).wf(),
        ensures
            final(self).wf(),
            final(self).width_spec() == old(self).width_spec(),
            final(self).height_spec() == old(self).height_spec(),
            forall|px: int, py: int|
                0 <= px < old(self).width_spec() && 0 <= py < old(self).height_spec() ==> #[trigger] final(self).cell(px, py)
                    == if px == x && py == y && clip.contains_spec(px, py) {
                    Cell { char: ch, fg, attrs, ..old(self).cell(px, py) }
                } else {
                    old(self).cell(px, py)
                },
    {
        if clip.contains(x, y) {
            match self.get(x, y) {
                Some(c) => {
                    self.set(x, y, Cell { char: ch, fg, attrs, ..c });
                },
                None => {},
            }
        }
    }
}

} // verus!
