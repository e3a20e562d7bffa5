//! Input events and their routing to the keyboard and mouse state.

use vstd::prelude::*;
use crate::state::keyboard::{KeyboardEvent, KeyboardState, KeyState, Modifiers, dispatch as keyboard_dispatch, handlers_outcome};
use crate::state::mouse::{
    MouseEvent, MouseState, MouseAction, MouseButton, ScrollDirection, ScrollInfo, HitGrid, PointerState, pointer_after,
    located, dispatch as mouse_dispatch,
};
use crate::engine::registry::{decimal_spec, push_decimal};
use crate::chars::push_char;
use crate::engine::arrays::interaction::InteractionArrays;
use crate::engine::arrays::core_arrays::{CoreArrays, parents_acyclic};

verus! {

broadcast use vstd::string::group_string_axioms;

// =============================================================================
// Terminal events as plain values
// =============================================================================

/// A key code as the terminal reports it.
#[derive(Debug, Clone, Copy, PartialEq, Eq, Structural)]
pub enum TermKeyCode {
    Char(char),
    Enter,
    Tab,
    Backspace,
    Delete,
    Esc,
    Up,
    Down,
    Left,
    Right,
    Home,
    End,
    PageUp,
    PageDown,
    F(u8),
    Insert,
    Null,
    /// Any other key.
    Other,
}

/// The key name of a key code: the character itself, a name such as
/// "Enter" or "ArrowUp", "F" and the number for function keys, or empty.
pub open spec fn key_name_spec(code: TermKeyCode) -> Seq<char> {
    match code {
        TermKeyCode::Char(c) => seq![c],
        TermKeyCode::Enter => "Enter"@,
        TermKeyCode::Tab => "Tab"@,
        TermKeyCode::Backspace => "Backspace"@,
        TermKeyCode::Delete => "Delete"@,
        TermKeyCode::Esc => "Escape"@,
        TermKeyCode::Up => "ArrowUp"@,
        TermKeyCode::Down => "ArrowDown"@,
        TermKeyCode::Left => "ArrowLeft"@,
        TermKeyCode::Right => "ArrowRight"@,
        TermKeyCode::Home => "Home"@,
        TermKeyCode::End => "End"@,
        TermKeyCode::PageUp => "PageUp"@,
        TermKeyCode::PageDown => "PageDown"@,
        TermKeyCode::F(n) => seq!['F'] + decimal_spec(n as nat),
        TermKeyCode::Insert => "Insert"@,
        TermKeyCode::Null => Seq::empty(),
        TermKeyCode::Other => Seq::empty(),
    }
}

/// The key name of a key code.
pub fn key_name(code: TermKeyCode) -> (s: String)
    ensures
        s@ == key_name_spec(code),
{
    match code {
        TermKeyCode::Char(c) => {
            let mut s = String::new();
            push_char(&mut s, c);
            s
        },
        TermKeyCode::Enter => "Enter".to_string(),
        TermKeyCode::Tab => "Tab".to_string(),
        TermKeyCode::Backspace => "Backspace".to_string(),
        TermKeyCode::Delete => "Delete".to_string(),
        TermKeyCode::Esc => "Escape".to_string(),
        TermKeyCode::Up => "ArrowUp".to_string(),
        TermKeyCode::Down => "ArrowDown".to_string(),
        TermKeyCode::Left => "ArrowLeft".to_string(),
        TermKeyCode::Right => "ArrowRight".to_string(),
        TermKeyCode::Home => "Home".to_string(),
        TermKeyCode::End => "End".to_string(),
        TermKeyCode::PageUp => "PageUp".to_string(),
        TermKeyCode::PageDown => "PageDown".to_string(),
        TermKeyCode::F(n) => {
            let mut s = String::new();
            push_char(&mut s, 'F');
            push_decimal(&mut s, n as usize);
            assert(s@ =~= seq!['F'] + decimal_spec(n as nat));
            s
        },
        TermKeyCode::Insert => "Insert".to_string(),
        TermKeyCode::Null => String::new(),
        TermKeyCode::Other => String::new(),
    }
}

/// A keyboard event from what the terminal reports: the key's name, the
/// modifiers and the press state, with no raw sequence.
pub fn key_event_from(code: TermKeyCode, modifiers: Modifiers, state: KeyState) -> (e: KeyboardEvent)
    ensures
        e.key@ == key_name_spec(code),
        e.modifiers == modifiers,
        e.state == state,
        e.raw is None,
{
    KeyboardEvent { key: key_name(code), modifiers, state, raw: None }
}

/// A mouse event kind as the terminal reports it.
#[derive(Debug, Clone, Copy, PartialEq, Eq, Structural)]
pub enum TermMouseKind {
    Down(MouseButton),
    Up(MouseButton),
    Drag(MouseButton),
    Moved,
    ScrollUp,
    ScrollDown,
    ScrollLeft,
    ScrollRight,
}

/// The mouse event for what the terminal reports: presses, releases and
/// drags keep their button; moves and scrolls have none; a scroll carries
/// its direction with a delta of 1; no component is attached yet.
pub open spec fn mouse_event_spec(kind: TermMouseKind, column: u16, row: u16, modifiers: Modifiers) -> MouseEvent {
    let (action, button, scroll) = match kind {
        TermMouseKind::Down(b) => (MouseAction::Down, b, None),
        TermMouseKind::Up(b) => (MouseAction::Up, b, None),
        TermMouseKind::Drag(b) => (MouseAction::Drag, b, None),
        TermMouseKind::Moved => (MouseAction::Move, MouseButton::NoButton, None),
        TermMouseKind::ScrollUp => (MouseAction::Scroll, MouseButton::NoButton, Some(ScrollInfo { direction: ScrollDirection::Up, delta: 1 })),
        TermMouseKind::ScrollDown => (MouseAction::Scroll, MouseButton::NoButton, Some(ScrollInfo { direction: ScrollDirection::Down, delta: 1 })),
        TermMouseKind::ScrollLeft => (MouseAction::Scroll, MouseButton::NoButton, Some(ScrollInfo { direction: ScrollDirection::Left, delta: 1 })),
        TermMouseKind::ScrollRight => (MouseAction::Scroll, MouseButton::NoButton, Some(ScrollInfo { direction: ScrollDirection::Right, delta: 1 })),
    };
    MouseEvent { action, button, x: column, y: row, modifiers, scroll, component_index: None }
}

/// A mouse event from what the terminal reports.
pub fn mouse_event_from(kind: TermMouseKind, column: u16, row: u16, modifiers: Modifiers) -> (e: MouseEvent)
    ensures
        e == mouse_event_spec(kind, column, row, modifiers),
{
    let (action, button, scroll) = match kind {
        TermMouseKind::Down(b) => (MouseAction::Down, b, None),
        TermMouseKind::Up(b) => (MouseAction::Up, b, None),
        TermMouseKind::Drag(b) => (MouseAction::Drag, b, None),
        TermMouseKind::Moved => (MouseAction::Move, MouseButton::NoButton, None),
        TermMouseKind::ScrollUp => (MouseAction::Scroll, MouseButton::NoButton, Some(ScrollInfo { direction: ScrollDirection::Up, delta: 1 })),
        TermMouseKind::ScrollDown => (MouseAction::Scroll, MouseButton::NoButton, Some(ScrollInfo { direction: ScrollDirection::Down, delta: 1 })),
        TermMouseKind::ScrollLeft => (MouseAction::Scroll, MouseButton::NoButton, Some(ScrollInfo { direction: ScrollDirection::Left, delta: 1 })),
        TermMouseKind::ScrollRight => (MouseAction::Scroll, MouseButton::NoButton, Some(ScrollInfo { direction: ScrollDirection::Right, delta: 1 })),
    };
    MouseEvent { action, button, x: column, y: row, modifiers, scroll, component_index: None }
}

/// An input event.
#[derive(Debug, Clone)]
pub enum InputEvent {
    Mouse(MouseEvent),
    Key(KeyboardEvent),
    /// The terminal was resized to (width, height).
    Resize(u16, u16),
    /// Nothing to handle.
    NoEvent,
}

/// Route an event: mouse events to the mouse state, key events to the
/// keyboard state, a resize records the terminal size. Returns whether a
/// handler consumed the event.
pub fn route_event<
    G: Fn(&KeyboardEvent) -> bool,
    K: Fn() -> bool,
    V: Fn(&MouseEvent),
    H: Fn(&MouseEvent) -> bool,
>(
    keyboard: &mut KeyboardState<G, K>,
    mouse: &mut MouseState<V, H>,
    grid: &HitGrid,
    inter: &mut InteractionArrays,
    core: &CoreArrays,
    terminal_size: &mut (u16, u16),
    event: InputEvent,
) -> (r: bool)
    requires
        old(keyboard).wf(),
        old(mouse).wf(),
        parents_acyclic(core),
    ensures
        final(keyboard).wf(),
        final(mouse).wf(),
        match event {
            InputEvent::Mouse(m) => final(mouse).pointer_spec() == pointer_after(old(mouse).pointer_spec(), located(grid, m))
                && *final(keyboard) == *old(keyboard) && *final(terminal_size) == *old(terminal_size),
            InputEvent::Key(k) => final(keyboard).last_spec() == Some(k.view_tuple()) && (k.state == KeyState::Press
                ==> handlers_outcome(old(keyboard).keys_spec(), old(keyboard).global_spec(), &k, r)) && (k.state
                != KeyState::Press ==> !r) && final(mouse).pointer_spec() == old(mouse).pointer_spec()
                && *final(inter) == *old(inter) && *final(terminal_size) == *old(terminal_size),
            InputEvent::Resize(w, h) => !r && *final(terminal_size) == (w, h) && *final(keyboard) == *old(keyboard)
                && final(mouse).pointer_spec() == old(mouse).pointer_spec() && *final(inter) == *old(inter),
            InputEvent::NoEvent => !r && *final(terminal_size) == *old(terminal_size) && *final(keyboard) == *old(
                keyboard,
            ) && final(mouse).pointer_spec() == old(mouse).pointer_spec() && *final(inter) == *old(inter),
        },
{
    match event {
        InputEvent::Mouse(m) => mouse_dispatch(mouse, grid, inter, core, m),
        InputEvent::Key(k) => keyboard_dispatch(keyboard, k),
        InputEvent::Resize(w, h) => {
            *terminal_size = (w, h);
            false
        },
        InputEvent::NoEvent => false,
    }
}

} // verus!
