use spark_tui::primitives::input::{
    find_word_end, find_word_start, input_cursor_position, input_display_text, input_handle_key, InputNotice,
};
use spark_tui::state::keyboard::{KeyboardEvent, Modifiers};

fn key(k: &str) -> KeyboardEvent {
    KeyboardEvent::new(k)
}

fn ctrl(k: &str) -> KeyboardEvent {
    KeyboardEvent::with_modifiers(k, Modifiers::ctrl())
}

#[test]
fn word_start_skips_punctuation_then_word() {
    assert_eq!(find_word_start("hello world", 11), 6);
    assert_eq!(find_word_start("hello world", 6), 0);
    assert_eq!(find_word_start("hello, world", 7), 0);
    assert_eq!(find_word_start("abc", 0), 0);
}

#[test]
fn word_end_skips_punctuation_then_word() {
    assert_eq!(find_word_end("hello world", 0), 5);
    assert_eq!(find_word_end("hello world", 5), 11);
    assert_eq!(find_word_end("abc", 3), 3);
    assert_eq!(find_word_end("abc", 10), 3);
}

#[test]
fn display_value_placeholder_and_mask() {
    assert_eq!(input_display_text("Hello", None, false, '•'), "Hello");
    assert_eq!(input_display_text("", Some("Enter text..."), false, '•'), "Enter text...");
    assert_eq!(input_display_text("Hi", Some("Enter text..."), false, '•'), "Hi");
    assert_eq!(input_display_text("secret", None, true, '•'), "••••••");
    assert_eq!(input_display_text("abc", None, true, '*'), "***");
    assert_eq!(input_display_text("", None, true, '*'), "");
}

#[test]
fn cursor_position_is_clamped() {
    assert_eq!(input_cursor_position("abc", 1), 1);
    assert_eq!(input_cursor_position("abc", 9), 3);
}

#[test]
fn typing_inserts_at_cursor() {
    let r = input_handle_key("ac", 1, &key("b"), 0);
    assert!(r.handled);
    assert_eq!(r.value, "abc");
    assert_eq!(r.cursor, 2);
    assert_eq!(r.notice, InputNotice::Changed);
}

#[test]
fn typing_respects_max_length() {
    let r = input_handle_key("abc", 3, &key("d"), 3);
    assert!(r.handled);
    assert_eq!(r.value, "abc");
    assert_eq!(r.cursor, 3);
    assert_eq!(r.notice, InputNotice::Quiet);
}

#[test]
fn backspace_and_delete() {
    let r = input_handle_key("abc", 2, &key("Backspace"), 0);
    assert_eq!(r.value, "ac");
    assert_eq!(r.cursor, 1);
    let r = input_handle_key("abc", 0, &key("Backspace"), 0);
    assert_eq!(r.value, "abc");
    assert_eq!(r.notice, InputNotice::Quiet);
    let r = input_handle_key("abc", 1, &key("Delete"), 0);
    assert_eq!(r.value, "ac");
    assert_eq!(r.cursor, 1);
}

#[test]
fn type_then_backspace_restores() {
    let r = input_handle_key("hello", 2, &key("x"), 0);
    let back = input_handle_key(&r.value, r.cursor, &key("Backspace"), 0);
    assert_eq!(back.value, "hello");
    assert_eq!(back.cursor, 2);
}

#[test]
fn navigation_keys() {
    assert_eq!(input_handle_key("abc", 2, &key("ArrowLeft"), 0).cursor, 1);
    assert_eq!(input_handle_key("abc", 0, &key("ArrowLeft"), 0).cursor, 0);
    assert_eq!(input_handle_key("abc", 2, &key("ArrowRight"), 0).cursor, 3);
    assert_eq!(input_handle_key("abc", 3, &key("ArrowRight"), 0).cursor, 3);
    assert_eq!(input_handle_key("abc", 2, &key("Home"), 0).cursor, 0);
    assert_eq!(input_handle_key("abc", 0, &key("End"), 0).cursor, 3);
}

#[test]
fn word_editing_with_ctrl() {
    let r = input_handle_key("hello world", 11, &ctrl("Backspace"), 0);
    assert_eq!(r.value, "hello ");
    assert_eq!(r.cursor, 6);
    let r = input_handle_key("hello world", 0, &ctrl("Delete"), 0);
    assert_eq!(r.value, " world");
    assert_eq!(r.cursor, 0);
    assert_eq!(input_handle_key("hello world", 11, &ctrl("ArrowLeft"), 0).cursor, 6);
    assert_eq!(input_handle_key("hello world", 0, &ctrl("ArrowRight"), 0).cursor, 5);
}

#[test]
fn submit_cancel_select_all_and_unknown() {
    assert_eq!(input_handle_key("abc", 1, &key("Enter"), 0).notice, InputNotice::Submitted);
    assert_eq!(input_handle_key("abc", 1, &key("Escape"), 0).notice, InputNotice::Cancelled);
    assert_eq!(input_handle_key("abc", 1, &ctrl("a"), 0).notice, InputNotice::SelectAll(3));
    let r = input_handle_key("abc", 1, &key("F5"), 0);
    assert!(!r.handled);
    assert_eq!(r.value, "abc");
    let r = input_handle_key("abc", 1, &KeyboardEvent::with_modifiers("x", Modifiers::alt()), 0);
    assert!(!r.handled);
}
