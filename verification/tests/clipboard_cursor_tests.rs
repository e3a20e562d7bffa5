use spark_tui::state::clipboard::{clear, content_length, copy, cut, has_content, paste, Clipboard};
use spark_tui::state::cursor::{
    cursor_is_blinking, cursor_is_visible, cursor_position, cursor_shape, reset_cursor_state, CursorShape,
    CursorState,
};

#[test]
fn test_copy_paste() {
    let mut c = Clipboard::new();
    assert!(paste(&c).is_none());
    assert!(!has_content(&c));
    copy(&mut c, "Hello");
    assert_eq!(paste(&c), Some("Hello".to_string()));
    assert!(has_content(&c));
    assert_eq!(content_length(&c), 5);
    assert_eq!(paste(&c), Some("Hello".to_string()));
}

#[test]
fn test_copy_overwrites() {
    let mut c = Clipboard::new();
    copy(&mut c, "First");
    assert_eq!(paste(&c), Some("First".to_string()));
    copy(&mut c, "Second");
    assert_eq!(paste(&c), Some("Second".to_string()));
}

#[test]
fn test_copy_empty_ignored() {
    let mut c = Clipboard::new();
    copy(&mut c, "Something");
    copy(&mut c, "");
    assert_eq!(paste(&c), Some("Something".to_string()));
}

#[test]
fn test_cut() {
    let mut c = Clipboard::new();
    let result = cut(&mut c, "Cut me");
    assert_eq!(result, Some("Cut me".to_string()));
    assert_eq!(paste(&c), Some("Cut me".to_string()));
}

#[test]
fn test_cut_empty() {
    let mut c = Clipboard::new();
    copy(&mut c, "Existing");
    let result = cut(&mut c, "");
    assert!(result.is_none());
    assert_eq!(paste(&c), Some("Existing".to_string()));
}

#[test]
fn test_clear() {
    let mut c = Clipboard::new();
    copy(&mut c, "Something");
    assert!(has_content(&c));
    clear(&mut c);
    assert!(!has_content(&c));
    assert!(paste(&c).is_none());
    assert_eq!(content_length(&c), 0);
}

#[test]
fn test_unicode() {
    let mut c = Clipboard::new();
    copy(&mut c, "Hello 世界 🚀");
    assert_eq!(paste(&c), Some("Hello 世界 🚀".to_string()));
    assert!(content_length(&c) > 10);
}

#[test]
fn test_multiline() {
    let mut c = Clipboard::new();
    let multiline = "Line 1\nLine 2\nLine 3";
    copy(&mut c, multiline);
    assert_eq!(paste(&c), Some(multiline.to_string()));
}

#[test]
fn content_length_counts_utf8_bytes() {
    let mut c = Clipboard::new();
    copy(&mut c, "é世🚀");
    assert_eq!(content_length(&c), 2 + 3 + 4);
}

#[test]
fn test_cursor_show_hide() {
    let mut s = CursorState::new();
    assert!(cursor_is_visible(&s));
    s.mark_hidden();
    assert!(!cursor_is_visible(&s));
    s.mark_shown();
    assert!(cursor_is_visible(&s));
}

#[test]
fn test_cursor_move_to() {
    let mut s = CursorState::new();
    assert_eq!(cursor_position(&s), (0, 0));
    s.move_to(10, 20);
    assert_eq!(cursor_position(&s), (10, 20));
    s.move_to(5, 15);
    assert_eq!(cursor_position(&s), (5, 15));
}

#[test]
fn test_cursor_shape() {
    let mut s = CursorState::new();
    assert_eq!(cursor_shape(&s), CursorShape::Block);
    assert!(!cursor_is_blinking(&s));
    s.set_shape(CursorShape::Bar, true);
    assert_eq!(cursor_shape(&s), CursorShape::Bar);
    assert!(cursor_is_blinking(&s));
    s.set_shape(CursorShape::Underline, false);
    assert_eq!(cursor_shape(&s), CursorShape::Underline);
    assert!(!cursor_is_blinking(&s));
}

#[test]
fn test_reset_cursor_state() {
    let mut s = CursorState::new();
    s.mark_hidden();
    s.set_shape(CursorShape::Bar, true);
    s.move_to(50, 100);
    assert!(!cursor_is_visible(&s));
    assert_eq!(cursor_shape(&s), CursorShape::Bar);
    reset_cursor_state(&mut s);
    assert!(cursor_is_visible(&s));
    assert_eq!(cursor_shape(&s), CursorShape::Block);
    assert!(!cursor_is_blinking(&s));
    assert_eq!(cursor_position(&s), (0, 0));
}

#[test]
fn test_cursor_save_restore_is_noop_for_state() {
    let mut s = CursorState::new();
    s.move_to(25, 30);
    let pos_before = cursor_position(&s);
    s.move_to(50, 60);
    let pos_after = cursor_position(&s);
    assert_eq!(pos_before, (25, 30));
    assert_eq!(pos_after, (50, 60));
}
