//! Terminal cursor state: visibility, shape, blinking and position. Writing
//! the matching escape sequences is the caller's part.

use vstd::prelude::*;

verus! {

/// Cursor shape.
#[derive(Debug, Clone, Copy, PartialEq, Eq, Structural)]
pub enum CursorShape {
    Block,
    Underline,
    Bar,
}

/// The terminal cursor as last set.
#[derive(Debug, Clone, Copy, PartialEq, Eq, Structural)]
pub struct CursorState {
    pub visible: bool,
    pub shape: CursorShape,
    pub blinking: bool,
    pub x: u16,
    pub y: u16,
}

impl CursorState {
    /// The initial cursor: visible, steady block at (0, 0).
    pub open spec fn initial() -> CursorState {
        CursorState { visible: true, shape: CursorShape::Block, blinking: false, x: 0, y: 0 }
    }

    /// The initial cursor.
    pub fn new() -> (s: CursorState)
        ensures
            s == CursorState::initial(),
    {
        CursorState { visible: true, shape: CursorShape::Block, blinking: false, x: 0, y: 0 }
    }

    /// Record the cursor as shown.
    pub fn mark_shown(&mut self)
        ensures
            *final(self) == (CursorState { visible: true, ..*old(self) }),
    {
        self.visible = true;
    }

    /// Record the cursor as hidden.
    pub fn mark_hidden(&mut self)
        ensures
            *final(self) == (CursorState { visible: false, ..*old(self) }),
    {
        self.visible = false;
    }

    /// Record a move to (x, y).
    pub fn move_to(&mut self, x: u16, y: u16)
        ensures
            *final(self) == (CursorState { x, y, ..*old(self) }),
    {
        self.x = x;
        self.y = y;
    }

    /// Record a shape and blinking mode.
    pub fn set_shape(&mut self, shape: CursorShape, blinking: bool)
        ensures
            *final(self) == (CursorState { shape, blinking, ..*old(self) }),
    {
        self.shape = shape;
        self.blinking = blinking;
    }
}

impl Default for CursorState {
    fn default() -> (s: CursorState)
        ensures
            s == CursorState::initial(),
    {
        CursorState::new()
    }
}

/// Whether the cursor is visible.
pub fn cursor_is_visible(state: &CursorState) -> (b: bool)
    ensures
        b == state.visible,
{
    state.visible
}

/// The cursor position (x, y).
pub fn cursor_position(state: &CursorState) -> (p: (u16, u16))
    ensures
        p == (state.x, state.y),
{
    (state.x, state.y)
}

/// The cursor shape.
pub fn cursor_shape(state: &CursorState) -> (s: CursorShape)
    ensures
        s == state.shape,
{
    state.shape
}

/// Whether the cursor blinks.
pub fn cursor_is_blinking(state: &CursorState) -> (b: bool)
    ensures
        b == state.blinking,
{
    state.blinking
}

/// Reset to the initial cursor.
pub fn reset_cursor_state(state: &mut CursorState)
    ensures
        *final(state) == CursorState::initial(),
{
    *state = CursorState::new();
}

} // verus!
