use spark_tui::state::input::{key_event_from, key_name, mouse_event_from, TermKeyCode, TermMouseKind};
use spark_tui::state::keyboard::{KeyState, Modifiers};
use spark_tui::state::mouse::{MouseAction, MouseButton, ScrollDirection};

fn no_mods() -> Modifiers {
    Modifiers { ctrl: false, alt: false, shift: false, meta: false }
}

#[test]
fn test_convert_mouse_down() {
    let event = mouse_event_from(TermMouseKind::Down(MouseButton::Left), 10, 5, no_mods());
    assert_eq!(event.action, MouseAction::Down);
    assert_eq!(event.button, MouseButton::Left);
    assert_eq!(event.x, 10);
    assert_eq!(event.y, 5);
    assert!(!event.modifiers.ctrl);
    assert!(event.scroll.is_none());
}

#[test]
fn test_convert_mouse_up() {
    let event = mouse_event_from(TermMouseKind::Up(MouseButton::Right), 20, 15, no_mods());
    assert_eq!(event.action, MouseAction::Up);
    assert_eq!(event.button, MouseButton::Right);
    assert_eq!(event.x, 20);
    assert_eq!(event.y, 15);
}

#[test]
fn test_convert_mouse_scroll() {
    let event = mouse_event_from(TermMouseKind::ScrollDown, 0, 0, no_mods());
    assert_eq!(event.action, MouseAction::Scroll);
    assert!(event.scroll.is_some());
    let scroll = event.scroll.unwrap();
    assert_eq!(scroll.direction, ScrollDirection::Down);
    assert_eq!(scroll.delta, 1);
}

#[test]
fn test_convert_mouse_scroll_directions() {
    let directions = [
        (TermMouseKind::ScrollUp, ScrollDirection::Up),
        (TermMouseKind::ScrollDown, ScrollDirection::Down),
        (TermMouseKind::ScrollLeft, ScrollDirection::Left),
        (TermMouseKind::ScrollRight, ScrollDirection::Right),
    ];
    for (kind, expected_dir) in directions {
        let event = mouse_event_from(kind, 0, 0, no_mods());
        assert_eq!(event.action, MouseAction::Scroll);
        let scroll = event.scroll.unwrap();
        assert_eq!(scroll.direction, expected_dir);
    }
}

#[test]
fn test_convert_mouse_with_modifiers() {
    let mods = Modifiers { ctrl: true, alt: false, shift: true, meta: false };
    let event = mouse_event_from(TermMouseKind::Down(MouseButton::Left), 0, 0, mods);
    assert!(event.modifiers.ctrl);
    assert!(event.modifiers.shift);
    assert!(!event.modifiers.alt);
    assert!(!event.modifiers.meta);
}

#[test]
fn test_convert_mouse_drag() {
    let event = mouse_event_from(TermMouseKind::Drag(MouseButton::Left), 5, 5, no_mods());
    assert_eq!(event.action, MouseAction::Drag);
    assert_eq!(event.button, MouseButton::Left);
}

#[test]
fn test_convert_mouse_move() {
    let event = mouse_event_from(TermMouseKind::Moved, 30, 20, no_mods());
    assert_eq!(event.action, MouseAction::Move);
    assert_eq!(event.button, MouseButton::NoButton);
    assert_eq!(event.x, 30);
    assert_eq!(event.y, 20);
    assert!(event.component_index.is_none());
}

#[test]
fn test_convert_key_char() {
    let event = key_event_from(TermKeyCode::Char('a'), no_mods(), KeyState::Press);
    assert_eq!(event.key, "a");
    assert_eq!(event.state, KeyState::Press);
    assert!(!event.modifiers.ctrl);
    assert!(event.raw.is_none());
}

#[test]
fn test_convert_key_special() {
    assert_eq!(key_event_from(TermKeyCode::Enter, no_mods(), KeyState::Press).key, "Enter");
    assert_eq!(key_event_from(TermKeyCode::Up, no_mods(), KeyState::Press).key, "ArrowUp");
}

#[test]
fn test_convert_key_all_arrows() {
    let arrows = [
        (TermKeyCode::Up, "ArrowUp"),
        (TermKeyCode::Down, "ArrowDown"),
        (TermKeyCode::Left, "ArrowLeft"),
        (TermKeyCode::Right, "ArrowRight"),
    ];
    for (code, expected) in arrows {
        assert_eq!(key_event_from(code, no_mods(), KeyState::Press).key, expected);
    }
}

#[test]
fn test_convert_key_navigation() {
    let nav_keys = [
        (TermKeyCode::Home, "Home"),
        (TermKeyCode::End, "End"),
        (TermKeyCode::PageUp, "PageUp"),
        (TermKeyCode::PageDown, "PageDown"),
        (TermKeyCode::Insert, "Insert"),
        (TermKeyCode::Delete, "Delete"),
        (TermKeyCode::Backspace, "Backspace"),
        (TermKeyCode::Tab, "Tab"),
        (TermKeyCode::Esc, "Escape"),
    ];
    for (code, expected) in nav_keys {
        assert_eq!(key_event_from(code, no_mods(), KeyState::Press).key, expected);
    }
}

#[test]
fn test_convert_key_function_keys() {
    for n in 1..=12u8 {
        let event = key_event_from(TermKeyCode::F(n), no_mods(), KeyState::Press);
        assert_eq!(event.key, format!("F{}", n));
    }
    assert_eq!(key_name(TermKeyCode::F(255)), "F255");
}

#[test]
fn test_convert_key_with_ctrl() {
    let mods = Modifiers { ctrl: true, alt: false, shift: false, meta: false };
    let event = key_event_from(TermKeyCode::Char('c'), mods, KeyState::Press);
    assert_eq!(event.key, "c");
    assert!(event.modifiers.ctrl);
    assert!(!event.modifiers.alt);
    assert!(!event.modifiers.shift);
}

#[test]
fn test_convert_key_with_all_modifiers() {
    let mods = Modifiers { ctrl: true, alt: true, shift: true, meta: false };
    let event = key_event_from(TermKeyCode::Char('x'), mods, KeyState::Press);
    assert!(event.modifiers.ctrl);
    assert!(event.modifiers.alt);
    assert!(event.modifiers.shift);
    assert!(!event.modifiers.meta);
}

#[test]
fn test_convert_key_states() {
    for expected in [KeyState::Press, KeyState::Repeat, KeyState::Release] {
        let event = key_event_from(TermKeyCode::Char('a'), no_mods(), expected);
        assert_eq!(event.state, expected);
    }
}

#[test]
fn test_all_mouse_buttons() {
    for b in [MouseButton::Left, MouseButton::Right, MouseButton::Middle] {
        assert_eq!(mouse_event_from(TermMouseKind::Down(b), 0, 0, no_mods()).button, b);
    }
}

#[test]
fn unknown_keys_have_empty_names() {
    assert_eq!(key_name(TermKeyCode::Null), "");
    assert_eq!(key_name(TermKeyCode::Other), "");
}
