//! Mouse state: the hit grid that maps screen cells to components, the
//! pointer state, and mouse handlers with their dispatch.

use vstd::prelude::*;
use crate::state::keyboard::Modifiers;
use crate::engine::arrays::interaction::{InteractionArrays, set_hovered, set_pressed};
use crate::engine::arrays::core_arrays::{CoreArrays, get_parent_index, parents_acyclic, chain_finite, parent_chain_ends};
use crate::handler_list::{lookup, find_key, not_id, remove_id, lemma_filter_keeps};
use crate::engine::slot::SlotArray;
use crate::engine::arrays::Arrays;
use crate::engine::registry::Registry;
use crate::state::focus::{FocusState, focus, focus_done, can_focus};

verus! {

// =============================================================================
// Types
// =============================================================================

/// Mouse action.
#[derive(Debug, Clone, Copy, PartialEq, Eq, Structural)]
pub enum MouseAction {
    Down,
    Up,
    Move,
    Drag,
    Scroll,
}

/// Mouse button; `NoButton` for moves and scrolls.
#[derive(Debug, Clone, Copy, PartialEq, Eq, Structural)]
pub enum MouseButton {
    Left,
    Middle,
    Right,
    NoButton,
}

impl Default for MouseButton {
    fn default() -> (b: MouseButton)
        ensures
            b == MouseButton::NoButton,
    {
        MouseButton::NoButton
    }
}

/// Scroll direction.
#[derive(Debug, Clone, Copy, PartialEq, Eq, Structural)]
pub enum ScrollDirection {
    Up,
    Down,
    Left,
    Right,
}

/// Scroll information of a scroll event.
#[derive(Debug, Clone, Copy, PartialEq, Eq, Structural)]
pub struct ScrollInfo {
    pub direction: ScrollDirection,
    pub delta: u16,
}

/// A mouse event.
#[derive(Debug, Clone, Copy, PartialEq, Eq, Structural)]
pub struct MouseEvent {
    pub action: MouseAction,
    pub button: MouseButton,
    /// Column, from 0.
    pub x: u16,
    /// Row, from 0.
    pub y: u16,
    pub modifiers: Modifiers,
    /// Present on scroll events.
    pub scroll: Option<ScrollInfo>,
    /// The component under the pointer, filled in by dispatch.
    pub component_index: Option<usize>,
}

impl MouseEvent {
    /// An event without modifiers, scroll information or component.
    pub fn new(action: MouseAction, button: MouseButton, x: u16, y: u16) -> (e: MouseEvent)
        ensures
            e == (MouseEvent {
                action,
                button,
                x,
                y,
                modifiers: Modifiers::none_spec(),
                scroll: None,
                component_index: None,
            }),
    {
        MouseEvent { action, button, x, y, modifiers: Modifiers::none(), scroll: None, component_index: None }
    }

    /// A scroll event.
    pub fn scroll(x: u16, y: u16, direction: ScrollDirection, delta: u16) -> (e: MouseEvent)
        ensures
            e == (MouseEvent {
                action: MouseAction::Scroll,
                button: MouseButton::NoButton,
                x,
                y,
                modifiers: Modifiers::none_spec(),
                scroll: Some(ScrollInfo { direction, delta }),
                component_index: None,
            }),
    {
        MouseEvent {
            action: MouseAction::Scroll,
            button: MouseButton::NoButton,
            x,
            y,
            modifiers: Modifiers::none(),
            scroll: Some(ScrollInfo { direction, delta }),
            component_index: None,
        }
    }

    /// A button press.
    pub fn down(button: MouseButton, x: u16, y: u16) -> (e: MouseEvent)
        ensures
            e == (MouseEvent {
                action: MouseAction::Down,
                button,
                x,
                y,
                modifiers: Modifiers::none_spec(),
                scroll: None,
                component_index: None,
            }),
    {
        MouseEvent::new(MouseAction::Down, button, x, y)
    }

    /// A button release.
    pub fn up(button: MouseButton, x: u16, y: u16) -> (e: MouseEvent)
        ensures
            e == (MouseEvent {
                action: MouseAction::Up,
                button,
                x,
                y,
                modifiers: Modifiers::none_spec(),
                scroll: None,
                component_index: None,
            }),
    {
        MouseEvent::new(MouseAction::Up, button, x, y)
    }

    /// A pointer move.
    pub fn move_to(x: u16, y: u16) -> (e: MouseEvent)
        ensures
            e == (MouseEvent {
                action: MouseAction::Move,
                button: MouseButton::NoButton,
                x,
                y,
                modifiers: Modifiers::none_spec(),
                scroll: None,
                component_index: None,
            }),
    {
        MouseEvent::new(MouseAction::Move, MouseButton::NoButton, x, y)
    }
}

// =============================================================================
// Hit grid
// =============================================================================

/// Cell index of column `x`, row `y` in a grid `w` wide.
pub open spec fn grid_index(w: int, x: int, y: int) -> int {
    y * w + x
}

/// Cells of a `w` by `h` grid map to distinct indices below `w * h`.
pub proof fn lemma_grid_index(w: int, h: int, x1: int, y1: int, x2: int, y2: int)
    requires
        0 <= x1 < w,
        0 <= y1 < h,
        0 <= x2 < w,
        0 <= y2 < h,
    ensures
        0 <= grid_index(w, x1, y1) < w * h,
        (x1 != x2 || y1 != y2) ==> grid_index(w, x1, y1) != grid_index(w, x2, y2),
{
    assert(0 <= y1 * w) by (nonlinear_arith) requires 0 <= y1, 0 <= w;
    assert(y1 * w + x1 < w * h) by (nonlinear_arith) requires 0 <= x1 < w, 0 <= y1 < h;
    if y1 != y2 {
        if y1 < y2 {
            assert(y1 * w + x1 < y2 * w + x2) by (nonlinear_arith) requires 0 <= x1 < w, 0 <= x2, y1 < y2;
        } else {
            assert(y2 * w + x2 < y1 * w + x1) by (nonlinear_arith) requires 0 <= x2 < w, 0 <= x1, y2 < y1;
        }
    }
}

/// The component in cell (x, y) of a `w` by `h` grid stored row by row.
spec fn cell_of(cells: Seq<usize>, w: int, h: int, x: int, y: int) -> Option<usize> {
    if 0 <= x < w && 0 <= y < h && cells[grid_index(w, x, y)] != empty_cell() {
        Some(cells[grid_index(w, x, y)])
    } else {
        None
    }
}

/// What a cell holds after `index` was written to it.
pub open spec fn written_cell(index: usize) -> Option<usize> {
    if index == empty_cell() {
        None
    } else {
        Some(index)
    }
}

/// Whether (px, py) lies in the rectangle at (x, y) of size w by h.
pub open spec fn in_rect(x: int, y: int, w: int, h: int, px: int, py: int) -> bool {
    x <= px < x + w && y <= py < y + h
}

/// A grid mapping screen cells to the component drawn there.
pub struct HitGrid {
    width: u16,
    height: u16,
    cells: Vec<usize>,
}

/// The marker of an empty cell.
pub open spec fn empty_cell() -> usize {
    usize::MAX
}

impl HitGrid {
    /// One cell per position of the grid.
    #[verifier::type_invariant]
    spec fn cells_fit(&self) -> bool {
        self.cells@.len() == self.width as int * self.height as int
    }

    /// Grid width.
    pub closed spec fn width_spec(&self) -> u16 {
        self.width
    }

    /// Grid height.
    pub closed spec fn height_spec(&self) -> u16 {
        self.height
    }

    /// The component at column x, row y: None outside the grid or on an
    /// empty cell.
    pub closed spec fn cell(&self, x: int, y: int) -> Option<usize> {
        cell_of(self.cells@, self.width as int, self.height as int, x, y)
    }

    /// An empty grid of the given size.
    pub fn new(width: u16, height: u16) -> (g: HitGrid)
        ensures
            g.width_spec() == width,
            g.height_spec() == height,
            forall|x: int, y: int| #[trigger] g.cell(x, y) is None,
    {
        assert((width as int) * (height as int) <= 0xFFFE_0001) by (nonlinear_arith)
            requires
                width <= 0xFFFF,
                height <= 0xFFFF,
        ;
        let size = width as usize * height as usize;
        let cells = vec![usize::MAX; size];
        let g = HitGrid { width, height, cells };
        assert forall|x: int, y: int| #[trigger] g.cell(x, y) is None by {
            if 0 <= x < width && 0 <= y < height {
                lemma_grid_index(width as int, height as int, x, y, x, y);
            }
        }
        g
    }

    /// Grid width.
    pub fn width(&self) -> (w: u16)
        ensures
            w == self.width_spec(),
    {
        self.width
    }

    /// Grid height.
    pub fn height(&self) -> (h: u16)
        ensures
            h == self.height_spec(),
    {
        self.height
    }

    /// Resize the grid; every cell becomes empty.
    pub fn resize(&mut self, width: u16, height: u16)
        ensures
            final(self).width_spec() == width,
            final(self).height_spec() == height,
            forall|x: int, y: int| #[trigger] final(self).cell(x, y) is None,
    {
        *self = HitGrid::new(width, height);
    }

    /// Empty every cell.
    pub fn clear(&mut self)
        ensures
            final(self).width_spec() == old(self).width_spec(),
            final(self).height_spec() == old(self).height_spec(),
            forall|x: int, y: int| #[trigger] final(self).cell(x, y) is None,
    {
        proof {
            use_type_invariant(&*self);
        }
        let w = self.width;
        let h = self.height;
        *self = HitGrid::new(w, h);
    }

    /// Set one cell; a position outside the grid is ignored.
    pub fn set(&mut self, x: u16, y: u16, index: usize)
        ensures
            final(self).width_spec() == old(self).width_spec(),
            final(self).height_spec() == old(self).height_spec(),
            forall|px: int, py: int|
                #[trigger] final(self).cell(px, py) == if px == x && py == y && x < old(self).width_spec()
                    && y < old(self).height_spec() {
                    written_cell(index)
                } else {
                    old(self).cell(px, py)
                },
    {
        proof {
            use_type_invariant(&*self);
        }
        if x >= self.width || y >= self.height {
            return;
        }
        proof {
            lemma_grid_index(self.width as int, self.height as int, x as int, y as int, x as int, y as int);
        }
        assert((self.width as int) * (self.height as int) <= 0xFFFE_0001) by (nonlinear_arith)
            requires
                self.width <= 0xFFFF,
                self.height <= 0xFFFF,
        ;
        assert(0 <= (y as int) * (self.width as int)) by (nonlinear_arith) requires y >= 0, self.width >= 0;
        let idx = y as usize * self.width as usize + x as usize;
        let ghost before = *self;
        let mut taken = HitGrid::new(0, 0);
        std::mem::swap(self, &mut taken);
        let HitGrid { width, height, mut cells } = taken;
        cells.set(idx, index);
        *self = HitGrid { width, height, cells };
        proof {
            assert forall|px: int, py: int| #[trigger] self.cell(px, py) == if px == x && py == y {
                written_cell(index)
            } else {
                before.cell(px, py)
            } by {
                if 0 <= px < self.width && 0 <= py < self.height {
                    lemma_grid_index(self.width as int, self.height as int, px, py, x as int, y as int);
                }
            }
        }
    }

    /// Fill a rectangle with a component index; the part outside the grid is
    /// ignored.
    pub fn fill_rect(&mut self, x: u16, y: u16, width: u16, height: u16, index: usize)
        ensures
            final(self).width_spec() == old(self).width_spec(),
            final(self).height_spec() == old(self).height_spec(),
            forall|px: int, py: int|
                #[trigger] final(self).cell(px, py) == if in_rect(x as int, y as int, width as int, height as int, px, py)
                    && px < old(self).width_spec() && py < old(self).height_spec() {
                    written_cell(index)
                } else {
                    old(self).cell(px, py)
                },
    {
        proof {
            use_type_invariant(&*self);
        }
        let ghost before = *self;
        let mut taken = HitGrid::new(0, 0);
        std::mem::swap(self, &mut taken);
        let HitGrid { width: gw, height: gh, mut cells } = taken;
        let ghost w = gw as int;
        let ghost h = gh as int;
        assert((gw as int) * (gh as int) <= 0xFFFE_0001) by (nonlinear_arith)
            requires
                gw <= 0xFFFF,
                gh <= 0xFFFF,
        ;
        let mut dy: u16 = 0;
        while dy < height
            invariant
                w == gw,
                h == gh,
                before.width == gw,
                before.height == gh,
                cells@.len() == w * h,
                w * h <= 0xFFFE_0001,
                dy <= height,
                dy > 0 ==> y + dy <= h,
                forall|px: int, py: int|
                    #[trigger] cell_of(cells@, w, h, px, py) == if in_rect(
                        x as int,
                        y as int,
                        width as int,
                        dy as int,
                        px,
                        py,
                    ) && px < w && py < h {
                        written_cell(index)
                    } else {
                        cell_of(before.cells@, w, h, px, py)
                    },
            ensures
                w == gw,
                h == gh,
                cells@.len() == w * h,
                dy <= height,
                dy == height || y + dy >= h,
                forall|px: int, py: int|
                    #[trigger] cell_of(cells@, w, h, px, py) == if in_rect(
                        x as int,
                        y as int,
                        width as int,
                        dy as int,
                        px,
                        py,
                    ) && px < w && py < h {
                        written_cell(index)
                    } else {
                        cell_of(before.cells@, w, h, px, py)
                    },
            decreases height - dy,
        {
            let cy = y + dy;
            if cy >= gh {
                break;
            }
            let mut dx: u16 = 0;
            while dx < width
                invariant
                    w == gw,
                    h == gh,
                    cells@.len() == w * h,
                    w * h <= 0xFFFE_0001,
                    cy == y + dy,
                    cy < h,
                    dy < height,
                    dx <= width,
                    dx > 0 ==> x + dx <= w,
                    forall|px: int, py: int|
                        #[trigger] cell_of(cells@, w, h, px, py) == if (in_rect(
                            x as int,
                            y as int,
                            width as int,
                            dy as int,
                            px,
                            py,
                        ) || (py == cy && x <= px < x + dx)) && px < w && py < h {
                            written_cell(index)
                        } else {
                            cell_of(before.cells@, w, h, px, py)
                        },
                ensures
                    cells@.len() == w * h,
                    dx <= width,
                    dx == width || x + dx >= w,
                    forall|px: int, py: int|
                        #[trigger] cell_of(cells@, w, h, px, py) == if (in_rect(
                            x as int,
                            y as int,
                            width as int,
                            dy as int,
                            px,
                            py,
                        ) || (py == cy && x <= px < x + dx)) && px < w && py < h {
                            written_cell(index)
                        } else {
                            cell_of(before.cells@, w, h, px, py)
                        },
                decreases width - dx,
            {
                let cx = x + dx;
                if cx >= gw {
                    break;
                }
                proof {
                    lemma_grid_index(w, h, cx as int, cy as int, cx as int, cy as int);
                    assert(0 <= (cy as int) * w) by (nonlinear_arith) requires cy >= 0, w >= 0;
                }
                let idx = cy as usize * gw as usize + cx as usize;
                let ghost prev = cells@;
                cells.set(idx, index);
                proof {
                    assert forall|px: int, py: int|
                        #[trigger] cell_of(cells@, w, h, px, py) == if (in_rect(
                            x as int,
                            y as int,
                            width as int,
                            dy as int,
                            px,
                            py,
                        ) || (py == cy && x <= px < x + dx + 1)) && px < w && py < h {
                            written_cell(index)
                        } else {
                            cell_of(before.cells@, w, h, px, py)
                        } by {
                        if 0 <= px < w && 0 <= py < h {
                            lemma_grid_index(w, h, px, py, cx as int, cy as int);
                            assert(cell_of(prev, w, h, px, py) == if (in_rect(
                                x as int,
                                y as int,
                                width as int,
                                dy as int,
                                px,
                                py,
                            ) || (py == cy && x <= px < x + dx)) && px < w && py < h {
                                written_cell(index)
                            } else {
                                cell_of(before.cells@, w, h, px, py)
                            });
                        }
                    }
                }
                dx = dx + 1;
            }
            proof {
                assert forall|px: int, py: int|
                    #[trigger] cell_of(cells@, w, h, px, py) == if in_rect(
                        x as int,
                        y as int,
                        width as int,
                        dy + 1,
                        px,
                        py,
                    ) && px < w && py < h {
                        written_cell(index)
                    } else {
                        cell_of(before.cells@, w, h, px, py)
                    } by {
                    if py == cy && x <= px < x + width && px >= w {
                    }
                }
            }
            dy = dy + 1;
        }
        *self = HitGrid { width: gw, height: gh, cells };
        proof {
            assert forall|px: int, py: int|
                #[trigger] self.cell(px, py) == if in_rect(x as int, y as int, width as int, height as int, px, py)
                    && px < before.width && py < before.height {
                    written_cell(index)
                } else {
                    before.cell(px, py)
                } by {
                assert(self.cell(px, py) == cell_of(cells@, w, h, px, py));
                assert(before.cell(px, py) == cell_of(before.cells@, w, h, px, py));
                if in_rect(x as int, y as int, width as int, height as int, px, py) && px < w && py < h {
                    if py >= y + dy {
                        assert(y + dy >= h);
                    }
                }
            }
        }
    }

    /// The component at a position; None outside the grid or on an empty cell.
    pub fn get(&self, x: u16, y: u16) -> (r: Option<usize>)
        ensures
            r == self.cell(x as int, y as int),
    {
        proof {
            use_type_invariant(self);
        }
        if x >= self.width || y >= self.height {
            return None;
        }
        proof {
            lemma_grid_index(self.width as int, self.height as int, x as int, y as int, x as int, y as int);
        }
        assert((self.width as int) * (self.height as int) <= 0xFFFE_0001) by (nonlinear_arith)
            requires
                self.width <= 0xFFFF,
                self.height <= 0xFFFF,
        ;
        assert(0 <= (y as int) * (self.width as int)) by (nonlinear_arith) requires y >= 0, self.width >= 0;
        let idx = y as usize * self.width as usize + x as usize;
        let value = self.cells[idx];
        if value == usize::MAX {
            None
        } else {
            Some(value)
        }
    }
}

} // verus!

verus! {

/// Resize a hit grid (every cell becomes empty).
pub fn resize_hit_grid(grid: &mut HitGrid, width: u16, height: u16)
    ensures
        final(grid).width_spec() == width,
        final(grid).height_spec() == height,
        forall|x: int, y: int| #[trigger] final(grid).cell(x, y) is None,
{
    grid.resize(width, height);
}

/// Empty every cell of a hit grid.
pub fn clear_hit_grid(grid: &mut HitGrid)
    ensures
        final(grid).width_spec() == old(grid).width_spec(),
        final(grid).height_spec() == old(grid).height_spec(),
        forall|x: int, y: int| #[trigger] final(grid).cell(x, y) is None,
{
    grid.clear();
}

/// Fill a rectangle of a hit grid with a component index.
pub fn fill_hit_rect(grid: &mut HitGrid, x: u16, y: u16, width: u16, height: u16, index: usize)
    ensures
        final(grid).width_spec() == old(grid).width_spec(),
        final(grid).height_spec() == old(grid).height_spec(),
        forall|px: int, py: int|
            #[trigger] final(grid).cell(px, py) == if in_rect(x as int, y as int, width as int, height as int, px, py)
                && px < old(grid).width_spec() && py < old(grid).height_spec() {
                written_cell(index)
            } else {
                old(grid).cell(px, py)
            },
{
    grid.fill_rect(x, y, width, height, index);
}

/// The component at a position of a hit grid.
pub fn hit_test(grid: &HitGrid, x: u16, y: u16) -> (r: Option<usize>)
    ensures
        r == grid.cell(x as int, y as int),
{
    grid.get(x, y)
}

/// The size of a hit grid: (width, height).
pub fn hit_grid_size(grid: &HitGrid) -> (r: (u16, u16))
    ensures
        r == (grid.width_spec(), grid.height_spec()),
{
    (grid.width(), grid.height())
}

} // verus!

verus! {

// =============================================================================
// Pointer state and handlers
// =============================================================================

/// Pointer state: the last event, position, button state and the hovered
/// and pressed components.
#[derive(Debug, Clone, Copy, PartialEq, Eq, Structural)]
pub struct PointerState {
    pub last: Option<MouseEvent>,
    pub x: u16,
    pub y: u16,
    pub down: bool,
    pub hovered: Option<usize>,
    pub pressed: Option<usize>,
    pub pressed_button: MouseButton,
}

impl PointerState {
    /// No event seen yet.
    pub open spec fn initial() -> PointerState {
        PointerState {
            last: None,
            x: 0,
            y: 0,
            down: false,
            hovered: None,
            pressed: None,
            pressed_button: MouseButton::NoButton,
        }
    }
}

/// The pointer state after dispatching `e` (whose component is filled in).
pub open spec fn pointer_after(p: PointerState, e: MouseEvent) -> PointerState {
    PointerState {
        last: Some(e),
        x: e.x,
        y: e.y,
        down: match e.action {
            MouseAction::Down => true,
            MouseAction::Up => false,
            _ => p.down,
        },
        hovered: e.component_index,
        pressed: match e.action {
            MouseAction::Down => e.component_index,
            MouseAction::Up => None,
            _ => p.pressed,
        },
        pressed_button: match e.action {
            MouseAction::Down => e.button,
            MouseAction::Up => MouseButton::NoButton,
            _ => p.pressed_button,
        },
    }
}

/// Handlers of one component. `V` observes an event; `H` may consume it.
/// A component with `focus_on_click` takes clicks as one with a click
/// handler does, and a click it takes focuses it (see `click_focus_target`).
pub struct MouseHandlers<V, H> {
    pub on_mouse_down: Option<V>,
    pub on_mouse_up: Option<V>,
    pub on_click: Option<V>,
    pub on_mouse_enter: Option<V>,
    pub on_mouse_leave: Option<V>,
    pub on_scroll: Option<H>,
    pub focus_on_click: bool,
}

/// An optional observer may be called on any event.
pub open spec fn observer_callable<V: Fn(&MouseEvent)>(f: Option<V>) -> bool {
    f matches Some(g) ==> forall|e: &MouseEvent| #[trigger] call_requires(g, (e,))
}

impl<V: Fn(&MouseEvent), H: Fn(&MouseEvent) -> bool> MouseHandlers<V, H> {
    /// No handlers.
    pub fn none() -> (h: MouseHandlers<V, H>)
        ensures
            h.on_mouse_down is None,
            h.on_mouse_up is None,
            h.on_click is None,
            h.on_mouse_enter is None,
            h.on_mouse_leave is None,
            h.on_scroll is None,
            !h.focus_on_click,
    {
        MouseHandlers {
            on_mouse_down: None,
            on_mouse_up: None,
            on_click: None,
            on_mouse_enter: None,
            on_mouse_leave: None,
            on_scroll: None,
            focus_on_click: false,
        }
    }

    /// Every handler may be called on any event.
    pub open spec fn callable(&self) -> bool {
        &&& observer_callable(self.on_mouse_down)
        &&& observer_callable(self.on_mouse_up)
        &&& observer_callable(self.on_click)
        &&& observer_callable(self.on_mouse_enter)
        &&& observer_callable(self.on_mouse_leave)
        &&& self.on_scroll matches Some(g) ==> forall|e: &MouseEvent| #[trigger] call_requires(g, (e,))
    }
}

impl<V: Fn(&MouseEvent), H: Fn(&MouseEvent) -> bool> Default for MouseHandlers<V, H> {
    fn default() -> (h: MouseHandlers<V, H>)
        ensures
            h.on_mouse_down is None,
            h.on_mouse_up is None,
            h.on_click is None,
            h.on_mouse_enter is None,
            h.on_mouse_leave is None,
            h.on_scroll is None,
            !h.focus_on_click,
    {
        MouseHandlers::none()
    }
}

/// Mouse state: pointer state, component handlers (one set per component)
/// and global handlers for down, up, click and scroll.
pub struct MouseState<V, H> {
    pointer: PointerState,
    components: Vec<(usize, MouseHandlers<V, H>)>,
    down_handlers: Vec<(usize, H)>,
    up_handlers: Vec<(usize, H)>,
    click_handlers: Vec<(usize, H)>,
    scroll_handlers: Vec<(usize, H)>,
    next_id: usize,
}

/// Every handler of a global list may be called on any event.
pub open spec fn list_callable<H: Fn(&MouseEvent) -> bool>(s: Seq<(usize, H)>) -> bool {
    forall|k: int, e: &MouseEvent| 0 <= k < s.len() ==> #[trigger] call_requires(s[k].1, (e,))
}

impl<V: Fn(&MouseEvent), H: Fn(&MouseEvent) -> bool> MouseState<V, H> {
    /// The pointer state.
    pub closed spec fn pointer_spec(&self) -> PointerState {
        self.pointer
    }

    /// Component handlers: (component index, handlers).
    pub closed spec fn components_spec(&self) -> Seq<(usize, MouseHandlers<V, H>)> {
        self.components@
    }

    /// Global mouse-down handlers: (id, handler).
    pub closed spec fn down_spec(&self) -> Seq<(usize, H)> {
        self.down_handlers@
    }

    /// Global mouse-up handlers: (id, handler).
    pub closed spec fn up_spec(&self) -> Seq<(usize, H)> {
        self.up_handlers@
    }

    /// Global click handlers: (id, handler).
    pub closed spec fn click_spec(&self) -> Seq<(usize, H)> {
        self.click_handlers@
    }

    /// Global scroll handlers: (id, handler).
    pub closed spec fn scroll_spec(&self) -> Seq<(usize, H)> {
        self.scroll_handlers@
    }

    /// The id the next global registration gets.
    pub closed spec fn next_id_spec(&self) -> usize {
        self.next_id
    }

    /// Every registered handler may be called on any event.
    pub open spec fn wf(&self) -> bool {
        &&& forall|k: int|
            0 <= k < self.components_spec().len() ==> (#[trigger] self.components_spec()[k]).1.callable()
        &&& list_callable(self.down_spec())
        &&& list_callable(self.up_spec())
        &&& list_callable(self.click_spec())
        &&& list_callable(self.scroll_spec())
    }

    /// No event seen, no handlers.
    pub fn new() -> (s: MouseState<V, H>)
        ensures
            s.wf(),
            s.pointer_spec() == PointerState::initial(),
            s.components_spec().len() == 0,
            s.down_spec().len() == 0,
            s.up_spec().len() == 0,
            s.click_spec().len() == 0,
            s.scroll_spec().len() == 0,
            s.next_id_spec() == 0,
    {
        MouseState {
            pointer: PointerState {
                last: None,
                x: 0,
                y: 0,
                down: false,
                hovered: None,
                pressed: None,
                pressed_button: MouseButton::NoButton,
            },
            components: Vec::new(),
            down_handlers: Vec::new(),
            up_handlers: Vec::new(),
            click_handlers: Vec::new(),
            scroll_handlers: Vec::new(),
            next_id: 0,
        }
    }
}

// =============================================================================
// Pointer state access
// =============================================================================

/// The pointer state.
pub fn pointer_state<V: Fn(&MouseEvent), H: Fn(&MouseEvent) -> bool>(state: &MouseState<V, H>) -> (r: PointerState)
    ensures
        r == state.pointer_spec(),
{
    state.pointer
}

/// The last mouse event.
pub fn last_event<V: Fn(&MouseEvent), H: Fn(&MouseEvent) -> bool>(state: &MouseState<V, H>) -> (r: Option<MouseEvent>)
    ensures
        r == state.pointer_spec().last,
{
    state.pointer.last
}

/// Pointer column.
pub fn mouse_x<V: Fn(&MouseEvent), H: Fn(&MouseEvent) -> bool>(state: &MouseState<V, H>) -> (r: u16)
    ensures
        r == state.pointer_spec().x,
{
    state.pointer.x
}

/// Pointer row.
pub fn mouse_y<V: Fn(&MouseEvent), H: Fn(&MouseEvent) -> bool>(state: &MouseState<V, H>) -> (r: u16)
    ensures
        r == state.pointer_spec().y,
{
    state.pointer.y
}

/// Whether a button is held.
pub fn is_mouse_down<V: Fn(&MouseEvent), H: Fn(&MouseEvent) -> bool>(state: &MouseState<V, H>) -> (r: bool)
    ensures
        r == state.pointer_spec().down,
{
    state.pointer.down
}

/// The component under the pointer.
pub fn hovered_component<V: Fn(&MouseEvent), H: Fn(&MouseEvent) -> bool>(state: &MouseState<V, H>) -> (r: Option<usize>)
    ensures
        r == state.pointer_spec().hovered,
{
    state.pointer.hovered
}

/// The component a button was pressed on.
pub fn pressed_component<V: Fn(&MouseEvent), H: Fn(&MouseEvent) -> bool>(state: &MouseState<V, H>) -> (r: Option<usize>)
    ensures
        r == state.pointer_spec().pressed,
{
    state.pointer.pressed
}

} // verus!

verus! {

// =============================================================================
// Registration
// =============================================================================

/// Register the handlers of a component, replacing any it had.
pub fn on_component<V: Fn(&MouseEvent), H: Fn(&MouseEvent) -> bool>(
    state: &mut MouseState<V, H>,
    index: usize,
    handlers: MouseHandlers<V, H>,
)
    requires
        old(state).wf(),
        handlers.callable(),
    ensures
        final(state).wf(),
        final(state).components_spec() == old(state).components_spec().filter(
            not_id::<MouseHandlers<V, H>>(index),
        ).push((index, handlers)),
        final(state).pointer_spec() == old(state).pointer_spec(),
        final(state).down_spec() == old(state).down_spec(),
        final(state).up_spec() == old(state).up_spec(),
        final(state).click_spec() == old(state).click_spec(),
        final(state).scroll_spec() == old(state).scroll_spec(),
        final(state).next_id_spec() == old(state).next_id_spec(),
{
    remove_component_handlers(state, index);
    state.components.push((index, handlers));
    proof {
        let s = state.components@;
        assert forall|k: int| 0 <= k < s.len() implies (#[trigger] s[k]).1.callable() by {
            if k < s.len() - 1 {
                assert(s[k] == old(state).components@.filter(not_id::<MouseHandlers<V, H>>(index))[k]);
            }
        }
    }
}

/// Drop the handlers of a component.
pub fn remove_component_handlers<V: Fn(&MouseEvent), H: Fn(&MouseEvent) -> bool>(
    state: &mut MouseState<V, H>,
    index: usize,
)
    requires
        old(state).wf(),
    ensures
        final(state).wf(),
        final(state).components_spec() == old(state).components_spec().filter(not_id::<MouseHandlers<V, H>>(index)),
        final(state).pointer_spec() == old(state).pointer_spec(),
        final(state).down_spec() == old(state).down_spec(),
        final(state).up_spec() == old(state).up_spec(),
        final(state).click_spec() == old(state).click_spec(),
        final(state).scroll_spec() == old(state).scroll_spec(),
        final(state).next_id_spec() == old(state).next_id_spec(),
{
    remove_id(&mut state.components, index);
    proof {
        let p = not_id::<MouseHandlers<V, H>>(index);
        lemma_filter_keeps(old(state).components@, p);
        let s = state.components@;
        assert forall|k: int| 0 <= k < s.len() implies (#[trigger] s[k]).1.callable() by {
            assert(old(state).components@.contains(s[k]));
            let m = choose|m: int| 0 <= m < old(state).components@.len() && old(state).components@[m] == s[k];
            assert(old(state).components_spec()[m].1.callable());
        }
    }
}

/// Which global list a registration goes to.
#[derive(Debug, Clone, Copy, PartialEq, Eq, Structural)]
pub enum GlobalKind {
    Down,
    Up,
    Click,
    Scroll,
}

/// Appending a callable handler keeps a list callable.
proof fn lemma_push_callable<H: Fn(&MouseEvent) -> bool>(s: Seq<(usize, H)>, id: usize, handler: H)
    requires
        list_callable(s),
        forall|e: &MouseEvent| #[trigger] call_requires(handler, (e,)),
    ensures
        list_callable(s.push((id, handler))),
{
    let t = s.push((id, handler));
    assert forall|k: int, e: &MouseEvent| 0 <= k < t.len() implies #[trigger] call_requires(t[k].1, (e,)) by {
        if k < s.len() {
            assert(t[k] == s[k]);
            assert(call_requires(s[k].1, (e,)));
        } else {
            assert(call_requires(handler, (e,)));
        }
    }
}

/// Register a global handler of the given kind; returns its id.
fn register_global<V: Fn(&MouseEvent), H: Fn(&MouseEvent) -> bool>(
    state: &mut MouseState<V, H>,
    kind: GlobalKind,
    handler: H,
) -> (id: usize)
    requires
        old(state).wf(),
        old(state).next_id_spec() < usize::MAX,
        forall|e: &MouseEvent| #[trigger] call_requires(handler, (e,)),
    ensures
        final(state).wf(),
        id == old(state).next_id_spec(),
        final(state).next_id_spec() == id + 1,
        final(state).down_spec() == if kind == GlobalKind::Down {
            old(state).down_spec().push((id, handler))
        } else {
            old(state).down_spec()
        },
        final(state).up_spec() == if kind == GlobalKind::Up {
            old(state).up_spec().push((id, handler))
        } else {
            old(state).up_spec()
        },
        final(state).click_spec() == if kind == GlobalKind::Click {
            old(state).click_spec().push((id, handler))
        } else {
            old(state).click_spec()
        },
        final(state).scroll_spec() == if kind == GlobalKind::Scroll {
            old(state).scroll_spec().push((id, handler))
        } else {
            old(state).scroll_spec()
        },
        final(state).components_spec() == old(state).components_spec(),
        final(state).pointer_spec() == old(state).pointer_spec(),
{
    let id = state.next_id;
    state.next_id = id + 1;
    match kind {
        GlobalKind::Down => state.down_handlers.push((id, handler)),
        GlobalKind::Up => state.up_handlers.push((id, handler)),
        GlobalKind::Click => state.click_handlers.push((id, handler)),
        GlobalKind::Scroll => state.scroll_handlers.push((id, handler)),
    }
    proof {
        lemma_push_callable(old(state).down_handlers@, id, handler);
        lemma_push_callable(old(state).up_handlers@, id, handler);
        lemma_push_callable(old(state).click_handlers@, id, handler);
        lemma_push_callable(old(state).scroll_handlers@, id, handler);
        assert(list_callable(state.down_spec()));
        assert(list_callable(state.up_spec()));
        assert(list_callable(state.click_spec()));
        assert(list_callable(state.scroll_spec()));
        assert(state.components_spec() == old(state).components_spec());
    }
    id
}

/// Register a global mouse-down handler (true consumes); returns its id.
pub fn on_mouse_down<V: Fn(&MouseEvent), H: Fn(&MouseEvent) -> bool>(state: &mut MouseState<V, H>, handler: H) -> (id: usize)
    requires
        old(state).wf(),
        old(state).next_id_spec() < usize::MAX,
        forall|e: &MouseEvent| #[trigger] call_requires(handler, (e,)),
    ensures
        final(state).wf(),
        id == old(state).next_id_spec(),
        final(state).next_id_spec() == id + 1,
        final(state).down_spec() == old(state).down_spec().push((id, handler)),
        final(state).up_spec() == old(state).up_spec(),
        final(state).click_spec() == old(state).click_spec(),
        final(state).scroll_spec() == old(state).scroll_spec(),
        final(state).components_spec() == old(state).components_spec(),
        final(state).pointer_spec() == old(state).pointer_spec(),
{
    register_global(state, GlobalKind::Down, handler)
}

/// Register a global mouse-up handler (true consumes); returns its id.
pub fn on_mouse_up<V: Fn(&MouseEvent), H: Fn(&MouseEvent) -> bool>(state: &mut MouseState<V, H>, handler: H) -> (id: usize)
    requires
        old(state).wf(),
        old(state).next_id_spec() < usize::MAX,
        forall|e: &MouseEvent| #[trigger] call_requires(handler, (e,)),
    ensures
        final(state).wf(),
        id == old(state).next_id_spec(),
        final(state).next_id_spec() == id + 1,
        final(state).up_spec() == old(state).up_spec().push((id, handler)),
        final(state).down_spec() == old(state).down_spec(),
        final(state).click_spec() == old(state).click_spec(),
        final(state).scroll_spec() == old(state).scroll_spec(),
        final(state).components_spec() == old(state).components_spec(),
        final(state).pointer_spec() == old(state).pointer_spec(),
{
    register_global(state, GlobalKind::Up, handler)
}

/// Register a global click handler (true consumes); returns its id.
pub fn on_click<V: Fn(&MouseEvent), H: Fn(&MouseEvent) -> bool>(state: &mut MouseState<V, H>, handler: H) -> (id: usize)
    requires
        old(state).wf(),
        old(state).next_id_spec() < usize::MAX,
        forall|e: &MouseEvent| #[trigger] call_requires(handler, (e,)),
    ensures
        final(state).wf(),
        id == old(state).next_id_spec(),
        final(state).next_id_spec() == id + 1,
        final(state).click_spec() == old(state).click_spec().push((id, handler)),
        final(state).down_spec() == old(state).down_spec(),
        final(state).up_spec() == old(state).up_spec(),
        final(state).scroll_spec() == old(state).scroll_spec(),
        final(state).components_spec() == old(state).components_spec(),
        final(state).pointer_spec() == old(state).pointer_spec(),
{
    register_global(state, GlobalKind::Click, handler)
}

/// Register a global scroll handler (true consumes); returns its id.
pub fn on_scroll<V: Fn(&MouseEvent), H: Fn(&MouseEvent) -> bool>(state: &mut MouseState<V, H>, handler: H) -> (id: usize)
    requires
        old(state).wf(),
        old(state).next_id_spec() < usize::MAX,
        forall|e: &MouseEvent| #[trigger] call_requires(handler, (e,)),
    ensures
        final(state).wf(),
        id == old(state).next_id_spec(),
        final(state).next_id_spec() == id + 1,
        final(state).scroll_spec() == old(state).scroll_spec().push((id, handler)),
        final(state).down_spec() == old(state).down_spec(),
        final(state).up_spec() == old(state).up_spec(),
        final(state).click_spec() == old(state).click_spec(),
        final(state).components_spec() == old(state).components_spec(),
        final(state).pointer_spec() == old(state).pointer_spec(),
{
    register_global(state, GlobalKind::Scroll, handler)
}

/// Remove the global handler with the given id.
pub fn unsubscribe<V: Fn(&MouseEvent), H: Fn(&MouseEvent) -> bool>(state: &mut MouseState<V, H>, id: usize)
    requires
        old(state).wf(),
    ensures
        final(state).wf(),
        final(state).down_spec() == old(state).down_spec().filter(not_id::<H>(id)),
        final(state).up_spec() == old(state).up_spec().filter(not_id::<H>(id)),
        final(state).click_spec() == old(state).click_spec().filter(not_id::<H>(id)),
        final(state).scroll_spec() == old(state).scroll_spec().filter(not_id::<H>(id)),
        final(state).components_spec() == old(state).components_spec(),
        final(state).pointer_spec() == old(state).pointer_spec(),
        final(state).next_id_spec() == old(state).next_id_spec(),
{
    remove_id(&mut state.down_handlers, id);
    remove_id(&mut state.up_handlers, id);
    remove_id(&mut state.click_handlers, id);
    remove_id(&mut state.scroll_handlers, id);
    proof {
        lemma_list_filter_callable(old(state).down_handlers@, id);
        lemma_list_filter_callable(old(state).up_handlers@, id);
        lemma_list_filter_callable(old(state).click_handlers@, id);
        lemma_list_filter_callable(old(state).scroll_handlers@, id);
        assert(list_callable(state.down_spec()));
        assert(list_callable(state.up_spec()));
        assert(list_callable(state.click_spec()));
        assert(list_callable(state.scroll_spec()));
        assert(state.components_spec() == old(state).components_spec());
    }
}

/// Filtering keeps a list callable.
proof fn lemma_list_filter_callable<H: Fn(&MouseEvent) -> bool>(s: Seq<(usize, H)>, id: usize)
    requires
        list_callable(s),
    ensures
        list_callable(s.filter(not_id::<H>(id))),
{
    let f = s.filter(not_id::<H>(id));
    lemma_filter_keeps(s, not_id::<H>(id));
    assert forall|k: int, e: &MouseEvent| 0 <= k < f.len() implies #[trigger] call_requires(f[k].1, (e,)) by {
        assert(s.contains(f[k]));
        let m = choose|m: int| 0 <= m < s.len() && s[m] == f[k];
        assert(call_requires(s[m].1, (e,)));
    }
}

} // verus!

verus! {

// =============================================================================
// Dispatch
// =============================================================================

/// `new` reads as `old` except that the slot `on` (if any) reads true and
/// the slot `off` (if any, and not `on`) reads false.
pub open spec fn flags_updated(old: SlotArray<bool>, new: SlotArray<bool>, on: Option<usize>, off: Option<usize>) -> bool {
    &&& new.default_spec() == old.default_spec()
    &&& forall|j: int|
        #[trigger] new.at(j) == if on matches Some(c) && j == c {
            true
        } else if off matches Some(c) && j == c {
            false
        } else {
            old.at(j)
        }
}

/// What running a list of handlers in order, stopping at the first that
/// consumes, promises: consumed means some handler returned true after
/// every earlier one returned false; not consumed means every handler
/// returned false.
pub open spec fn list_outcome<H: Fn(&MouseEvent) -> bool>(s: Seq<(usize, H)>, e: MouseEvent, r: bool) -> bool {
    &&& r ==> exists|k: int|
        0 <= k < s.len() && #[trigger] call_ensures(s[k].1, (&e,), true) && forall|j: int|
            0 <= j < k ==> call_ensures(s[j].1, (&e,), false)
    &&& !r ==> forall|k: int| 0 <= k < s.len() ==> #[trigger] call_ensures(s[k].1, (&e,), false)
}

/// Call the handlers of a list in order until one consumes the event.
fn run_list<H: Fn(&MouseEvent) -> bool>(list: &Vec<(usize, H)>, e: &MouseEvent) -> (r: bool)
    requires
        list_callable(list@),
    ensures
        list_outcome(list@, *e, r),
{
    let mut k: usize = 0;
    while k < list.len()
        invariant
            k <= list@.len(),
            list_callable(list@),
            forall|j: int| 0 <= j < k ==> #[trigger] call_ensures(list@[j].1, (e,), false),
        decreases list.len() - k,
    {
        assert(call_requires(list@[k as int].1, (e,)));
        let consumed = (list[k].1)(e);
        if consumed {
            assert(call_ensures(list@[k as int].1, (e,), true));
            return true;
        }
        k = k + 1;
    }
    false
}

/// Call an optional observer.
fn fire<V: Fn(&MouseEvent)>(f: &Option<V>, e: &MouseEvent)
    requires
        observer_callable(*f),
    ensures
        *f matches Some(g) ==> call_ensures(g, (e,), ()),
{
    match f {
        Some(g) => {
            assert(call_requires(*g, (e,)));
            g(e);
        },
        None => {},
    }
}

/// The handlers of component `index`, if registered.
fn component_handlers<'a, V: Fn(&MouseEvent), H: Fn(&MouseEvent) -> bool>(
    state: &'a MouseState<V, H>,
    index: usize,
) -> (r: Option<&'a MouseHandlers<V, H>>)
    requires
        state.wf(),
    ensures
        match r {
            Some(h) => lookup(state.components_spec(), index) == Some(*h) && h.callable(),
            None => lookup(state.components_spec(), index) is None,
        },
{
    match find_key(&state.components, index) {
        Some(p) => {
            assert(state.components_spec()[p as int].1.callable());
            Some(&state.components[p].1)
        },
        None => None,
    }
}

/// The event as handlers see it: with the component under the pointer.
pub open spec fn located(grid: &HitGrid, event: MouseEvent) -> MouseEvent {
    MouseEvent { component_index: grid.cell(event.x as int, event.y as int), ..event }
}

/// Whether a release completes a click: same component and button as the
/// press.
pub open spec fn completes_click(p: PointerState, e: MouseEvent) -> bool {
    p.pressed == e.component_index && p.pressed_button == e.button
}

/// Whether the component's scroll handler consumed the event.
pub open spec fn component_consumed_scroll<V: Fn(&MouseEvent), H: Fn(&MouseEvent) -> bool>(
    comps: Seq<(usize, MouseHandlers<V, H>)>,
    e: MouseEvent,
) -> bool {
    e.component_index matches Some(c) && lookup(comps, c) matches Some(h) && h.on_scroll matches Some(f)
        && call_ensures(f, (&e,), true)
}

/// Whether a component's handlers take a click: a click handler, or focus
/// on click.
pub open spec fn takes_click<V: Fn(&MouseEvent), H: Fn(&MouseEvent) -> bool>(h: Option<MouseHandlers<V, H>>) -> bool {
    h matches Some(x) && (x.on_click is Some || x.focus_on_click)
}

/// The component a click on `c` reaches within `n` steps up the parent
/// chain: the nearest one that takes clicks.
pub open spec fn click_receiver_within<V: Fn(&MouseEvent), H: Fn(&MouseEvent) -> bool>(
    comps: Seq<(usize, MouseHandlers<V, H>)>,
    core: &CoreArrays,
    c: usize,
    n: nat,
) -> Option<usize>
    decreases n,
{
    if takes_click(lookup(comps, c)) {
        Some(c)
    } else {
        match core.parent_index.at(c as int) {
            Some(p) => if n > 0 {
                click_receiver_within(comps, core, p, (n - 1) as nat)
            } else {
                None
            },
            None => None,
        }
    }
}

/// Steps enough to walk the parent chain from `c` to its root.
pub open spec fn chain_fuel(core: &CoreArrays, c: usize) -> nat {
    choose|n: nat| parent_chain_ends(core, c, n)
}

/// The component a click on `c` reaches: the nearest one up the parent
/// chain that takes clicks, if any.
pub open spec fn click_receiver<V: Fn(&MouseEvent), H: Fn(&MouseEvent) -> bool>(
    comps: Seq<(usize, MouseHandlers<V, H>)>,
    core: &CoreArrays,
    c: usize,
) -> Option<usize> {
    click_receiver_within(comps, core, c, chain_fuel(core, c))
}

/// The component a dispatched event focuses: when a release completes a
/// click on a component, the component the click reaches, if that one
/// focuses on click.
pub open spec fn click_focus_target<V: Fn(&MouseEvent), H: Fn(&MouseEvent) -> bool>(
    comps: Seq<(usize, MouseHandlers<V, H>)>,
    core: &CoreArrays,
    p: PointerState,
    e: MouseEvent,
) -> Option<usize> {
    if e.action == MouseAction::Up && completes_click(p, e) {
        match e.component_index {
            Some(c) => match click_receiver(comps, core, c) {
                Some(r) => match lookup(comps, r) {
                    Some(h) => if h.focus_on_click {
                        Some(r)
                    } else {
                        None
                    },
                    None => None,
                },
                None => None,
            },
            None => None,
        }
    } else {
        None
    }
}

/// The component a click on `start` reaches (see `click_receiver`).
pub fn find_click_receiver<V: Fn(&MouseEvent), H: Fn(&MouseEvent) -> bool>(
    state: &MouseState<V, H>,
    core: &CoreArrays,
    start: usize,
) -> (r: Option<usize>)
    requires
        state.wf(),
        parents_acyclic(core),
    ensures
        r == click_receiver(state.components_spec(), core, start),
{
    assert(chain_finite(core, start));
    let ghost total: nat = chain_fuel(core, start);
    let ghost mut fuel: nat = total;
    let mut current = start;
    loop
        invariant
            state.wf(),
            total == chain_fuel(core, start),
            parent_chain_ends(core, current, fuel),
            click_receiver_within(state.components_spec(), core, start, total) == click_receiver_within(
                state.components_spec(),
                core,
                current,
                fuel,
            ),
        decreases fuel,
    {
        match component_handlers(state, current) {
            Some(h) => {
                if h.on_click.is_some() || h.focus_on_click {
                    return Some(current);
                }
            },
            None => {},
        }
        match get_parent_index(core, current) {
            Some(p) => {
                current = p;
                proof {
                    fuel = (fuel - 1) as nat;
                }
            },
            None => {
                return None;
            },
        }
    }
}

/// Fire the click handler of the component or, bubbling up, of its nearest
/// ancestor that takes clicks (see `click_receiver`).
fn bubble_click<V: Fn(&MouseEvent), H: Fn(&MouseEvent) -> bool>(
    state: &MouseState<V, H>,
    core: &CoreArrays,
    start: usize,
    e: &MouseEvent,
)
    requires
        state.wf(),
        parents_acyclic(core),
    ensures
        click_receiver(state.components_spec(), core, start) matches Some(rc) ==> (lookup(state.components_spec(), rc) matches Some(
            h,
        ) ==> (h.on_click matches Some(g) ==> call_ensures(g, (e,), ()))),
{
    assert(chain_finite(core, start));
    let ghost total: nat = chain_fuel(core, start);
    let ghost mut fuel: nat = total;
    let mut current = start;
    loop
        invariant
            state.wf(),
            total == chain_fuel(core, start),
            parent_chain_ends(core, current, fuel),
            click_receiver_within(state.components_spec(), core, start, total) == click_receiver_within(
                state.components_spec(),
                core,
                current,
                fuel,
            ),
        decreases fuel,
    {
        match component_handlers(state, current) {
            Some(h) => {
                if h.on_click.is_some() || h.focus_on_click {
                    fire(&h.on_click, e);
                    return;
                }
            },
            None => {},
        }
        match get_parent_index(core, current) {
            Some(p) => {
                current = p;
                proof {
                    fuel = (fuel - 1) as nat;
                }
            },
            None => {
                return;
            },
        }
    }
}

/// Dispatch a mouse event. The component under the pointer is looked up in
/// the hit grid; pointer state, hover and pressed flags are updated; enter
/// and leave handlers fire on a hover change; then the action is handled:
/// scroll goes to the component's scroll handler then the global ones; down
/// fires the component's down handler then the global ones; up fires the
/// component's up handler and the global ones, and a release on the pressed
/// component with the pressed button is a click, which fires the nearest
/// click handler up the parent chain and the global click handlers. Returns
/// whether a handler consumed the event.
pub fn dispatch<V: Fn(&MouseEvent), H: Fn(&MouseEvent) -> bool>(
    state: &mut MouseState<V, H>,
    grid: &HitGrid,
    inter: &mut InteractionArrays,
    core: &CoreArrays,
    event: MouseEvent,
) -> (r: bool)
    requires
        old(state).wf(),
        parents_acyclic(core),
    ensures
        ({
            let e = located(grid, event);
            let p = old(state).pointer_spec();
            let hover_change = p.hovered != e.component_index;
            &&& final(state).pointer_spec() == pointer_after(p, e)
            &&& flags_updated(
                old(inter).hovered,
                final(inter).hovered,
                if hover_change { e.component_index } else { None },
                if hover_change { p.hovered } else { None },
            )
            &&& flags_updated(
                old(inter).pressed,
                final(inter).pressed,
                if e.action == MouseAction::Down { e.component_index } else { None },
                if e.action == MouseAction::Up { p.pressed } else { None },
            )
            &&& e.action == MouseAction::Scroll ==> (r ==> component_consumed_scroll(old(state).components_spec(), e)
                || list_outcome(old(state).scroll_spec(), e, true)) && (!r ==> list_outcome(
                old(state).scroll_spec(),
                e,
                false,
            ))
            &&& e.action == MouseAction::Down ==> list_outcome(old(state).down_spec(), e, r)
            &&& e.action == MouseAction::Up ==> (r ==> list_outcome(old(state).up_spec(), e, true) || (
            completes_click(p, e) && list_outcome(old(state).click_spec(), e, true))) && (!r ==> list_outcome(
                old(state).up_spec(),
                e,
                false,
            ) && (completes_click(p, e) ==> list_outcome(old(state).click_spec(), e, false)))
            &&& (e.action == MouseAction::Move || e.action == MouseAction::Drag) ==> !r
        }),
        ({
            let e = located(grid, event);
            let p = old(state).pointer_spec();
            let comps = old(state).components_spec();
            &&& p.hovered != e.component_index ==> (e.component_index matches Some(c) ==> (lookup(comps, c) matches Some(
                h,
            ) ==> (h.on_mouse_enter matches Some(g) ==> call_ensures(g, (&e,), ()))))
            &&& p.hovered != e.component_index ==> (p.hovered matches Some(pi) ==> (lookup(comps, pi) matches Some(h) ==> (
            h.on_mouse_leave matches Some(g) ==> call_ensures(g, (&MouseEvent { component_index: Some(pi), ..e },), ()))))
            &&& (e.action == MouseAction::Up && completes_click(p, e)) ==> (e.component_index matches Some(c) ==> (
            click_receiver(comps, core, c) matches Some(rc) ==> (lookup(comps, rc) matches Some(h) ==> (h.on_click matches Some(
                g,
            ) ==> call_ensures(g, (&e,), ())))))
        }),
        *final(inter) == (InteractionArrays { hovered: final(inter).hovered, pressed: final(inter).pressed, ..*old(inter) }),
        final(state).wf(),
        final(state).components_spec() == old(state).components_spec(),
        final(state).down_spec() == old(state).down_spec(),
        final(state).up_spec() == old(state).up_spec(),
        final(state).click_spec() == old(state).click_spec(),
        final(state).scroll_spec() == old(state).scroll_spec(),
        final(state).next_id_spec() == old(state).next_id_spec(),
{
    let mut e = event;
    e.component_index = grid.get(event.x, event.y);
    let ci = e.component_index;
    let prev = state.pointer.hovered;
    let prev_pressed = state.pointer.pressed;
    let prev_button = state.pointer.pressed_button;
    let ghost inter0 = *inter;
    // Hover: leave the previous component, enter the new one.
    if ci != prev {
        match prev {
            Some(pi) => {
                match component_handlers(state, pi) {
                    Some(h) => {
                        let mut leave = e;
                        leave.component_index = Some(pi);
                        fire(&h.on_mouse_leave, &leave);
                    },
                    None => {},
                }
                set_hovered(inter, pi, false);
            },
            None => {},
        }
        match ci {
            Some(c) => {
                match component_handlers(state, c) {
                    Some(h) => {
                        fire(&h.on_mouse_enter, &e);
                    },
                    None => {},
                }
                set_hovered(inter, c, true);
            },
            None => {},
        }
    }
    let ghost inter1 = *inter;
    assert(flags_updated(
        inter0.hovered,
        inter1.hovered,
        if ci != prev { ci } else { None },
        if ci != prev { prev } else { None },
    ));
    // Pressed flags.
    if e.action == MouseAction::Down {
        match ci {
            Some(c) => {
                set_pressed(inter, c, true);
            },
            None => {},
        }
    } else if e.action == MouseAction::Up {
        match prev_pressed {
            Some(pp) => {
                set_pressed(inter, pp, false);
            },
            None => {},
        }
    }
    state.pointer = PointerState {
        last: Some(e),
        x: e.x,
        y: e.y,
        down: match e.action {
            MouseAction::Down => true,
            MouseAction::Up => false,
            _ => state.pointer.down,
        },
        hovered: ci,
        pressed: match e.action {
            MouseAction::Down => ci,
            MouseAction::Up => None,
            _ => prev_pressed,
        },
        pressed_button: match e.action {
            MouseAction::Down => e.button,
            MouseAction::Up => MouseButton::NoButton,
            _ => prev_button,
        },
    };
    assert(list_callable(state.down_spec()));
    assert(list_callable(state.up_spec()));
    assert(list_callable(state.click_spec()));
    assert(list_callable(state.scroll_spec()));
    assert(state.components_spec() == old(state).components_spec());
    match e.action {
        MouseAction::Scroll => {
            match ci {
                Some(c) => {
                    match component_handlers(state, c) {
                        Some(h) => {
                            match &h.on_scroll {
                                Some(f) => {
                                    assert(call_requires(*f, (&e,)));
                                    if f(&e) {
                                        return true;
                                    }
                                },
                                None => {},
                            }
                        },
                        None => {},
                    }
                },
                None => {},
            }
            run_list(&state.scroll_handlers, &e)
        },
        MouseAction::Down => {
            match ci {
                Some(c) => {
                    match component_handlers(state, c) {
                        Some(h) => {
                            fire(&h.on_mouse_down, &e);
                        },
                        None => {},
                    }
                },
                None => {},
            }
            run_list(&state.down_handlers, &e)
        },
        MouseAction::Up => {
            match ci {
                Some(c) => {
                    match component_handlers(state, c) {
                        Some(h) => {
                            fire(&h.on_mouse_up, &e);
                        },
                        None => {},
                    }
                },
                None => {},
            }
            let mut consumed = run_list(&state.up_handlers, &e);
            if prev_pressed == ci && prev_button == e.button {
                match ci {
                    Some(c) => {
                        bubble_click(state, core, c, &e);
                    },
                    None => {},
                }
                let global_consumed = run_list(&state.click_handlers, &e);
                if global_consumed {
                    consumed = true;
                }
            }
            consumed
        },
        _ => false,
    }
}


/// After an event is dispatched, focus the component its click reached
/// when that component focuses on click (see `click_focus_target`);
/// `before` is the pointer state from before the event. Returns the
/// component focused, if any.
pub fn focus_clicked<V: Fn(&MouseEvent), H: Fn(&MouseEvent) -> bool, F: Fn()>(
    state: &MouseState<V, H>,
    grid: &HitGrid,
    focus_state: &mut FocusState<F>,
    reg: &Registry,
    arrays: &Arrays,
    before: PointerState,
    event: MouseEvent,
) -> (r: Option<usize>)
    requires
        state.wf(),
        parents_acyclic(&arrays.core),
        old(focus_state).wf(),
    ensures
        final(focus_state).wf(),
        match click_focus_target(state.components_spec(), &arrays.core, before, located(grid, event)) {
            Some(t) => focus_done(*old(focus_state), *final(focus_state), reg, arrays, t) && r == (if can_focus(
                arrays,
                t,
            ) {
                Some(t)
            } else {
                None
            }),
            None => *final(focus_state) == *old(focus_state) && r is None,
        },
{
    let ci = grid.get(event.x, event.y);
    if !(event.action == MouseAction::Up && before.pressed == ci && before.pressed_button == event.button) {
        return None;
    }
    match ci {
        Some(c) => match find_click_receiver(state, &arrays.core, c) {
            Some(t) => {
                let focuses = match component_handlers(state, t) {
                    Some(h) => h.focus_on_click,
                    None => false,
                };
                if focuses {
                    if focus(focus_state, reg, arrays, t) {
                        Some(t)
                    } else {
                        None
                    }
                } else {
                    None
                }
            },
            None => None,
        },
        None => None,
    }
}
} // verus!

verus! {

// =============================================================================
// Cleanup
// =============================================================================

/// Drop a released component's handlers; it stops being hovered or pressed.
pub fn cleanup_index<V: Fn(&MouseEvent), H: Fn(&MouseEvent) -> bool>(state: &mut MouseState<V, H>, index: usize)
    requires
        old(state).wf(),
    ensures
        final(state).wf(),
        final(state).components_spec() == old(state).components_spec().filter(not_id::<MouseHandlers<V, H>>(index)),
        final(state).pointer_spec() == (PointerState {
            hovered: if old(state).pointer_spec().hovered == Some(index) {
                None
            } else {
                old(state).pointer_spec().hovered
            },
            pressed: if old(state).pointer_spec().pressed == Some(index) {
                None
            } else {
                old(state).pointer_spec().pressed
            },
            pressed_button: if old(state).pointer_spec().pressed == Some(index) {
                MouseButton::NoButton
            } else {
                old(state).pointer_spec().pressed_button
            },
            ..old(state).pointer_spec()
        }),
        final(state).down_spec() == old(state).down_spec(),
        final(state).up_spec() == old(state).up_spec(),
        final(state).click_spec() == old(state).click_spec(),
        final(state).scroll_spec() == old(state).scroll_spec(),
        final(state).next_id_spec() == old(state).next_id_spec(),
{
    remove_component_handlers(state, index);
    if state.pointer.hovered == Some(index) {
        state.pointer.hovered = None;
    }
    if state.pointer.pressed == Some(index) {
        state.pointer.pressed = None;
        state.pointer.pressed_button = MouseButton::NoButton;
    }
    assert(list_callable(state.down_spec()));
    assert(list_callable(state.up_spec()));
    assert(list_callable(state.click_spec()));
    assert(list_callable(state.scroll_spec()));
}

/// Drop every handler, reset the pointer state and empty the hit grid.
pub fn cleanup<V: Fn(&MouseEvent), H: Fn(&MouseEvent) -> bool>(state: &mut MouseState<V, H>, grid: &mut HitGrid)
    ensures
        final(state).wf(),
        final(state).pointer_spec() == PointerState::initial(),
        final(state).components_spec().len() == 0,
        final(state).down_spec().len() == 0,
        final(state).up_spec().len() == 0,
        final(state).click_spec().len() == 0,
        final(state).scroll_spec().len() == 0,
        final(state).next_id_spec() == old(state).next_id_spec(),
        final(grid).width_spec() == old(grid).width_spec(),
        final(grid).height_spec() == old(grid).height_spec(),
        forall|x: int, y: int| #[trigger] final(grid).cell(x, y) is None,
{
    state.components.clear();
    state.down_handlers.clear();
    state.up_handlers.clear();
    state.click_handlers.clear();
    state.scroll_handlers.clear();
    state.pointer = PointerState {
        last: None,
        x: 0,
        y: 0,
        down: false,
        hovered: None,
        pressed: None,
        pressed_button: MouseButton::NoButton,
    };
    grid.clear();
}

/// Reset mouse state: as `cleanup`, ids start again at 0, and the hit grid
/// is 80 by 24 and empty.
pub fn reset_mouse_state<V: Fn(&MouseEvent), H: Fn(&MouseEvent) -> bool>(state: &mut MouseState<V, H>, grid: &mut HitGrid)
    ensures
        final(state).wf(),
        final(state).pointer_spec() == PointerState::initial(),
        final(state).components_spec().len() == 0,
        final(state).down_spec().len() == 0,
        final(state).up_spec().len() == 0,
        final(state).click_spec().len() == 0,
        final(state).scroll_spec().len() == 0,
        final(state).next_id_spec() == 0,
        final(grid).width_spec() == 80,
        final(grid).height_spec() == 24,
        forall|x: int, y: int| #[trigger] final(grid).cell(x, y) is None,
{
    cleanup(state, grid);
    state.next_id = 0;
    grid.resize(80, 24);
}

} // verus!
