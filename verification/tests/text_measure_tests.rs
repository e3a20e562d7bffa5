use spark_tui::layout::text_measure::{char_width, measure_text_height, string_width, truncate_text, wrap_text};

#[test]
fn test_string_width_ascii() {
    assert_eq!(string_width("hello"), 5);
    assert_eq!(string_width(""), 0);
    assert_eq!(string_width("a b c"), 5);
}

#[test]
fn test_string_width_control_chars() {
    assert_eq!(string_width("\t"), 0);
    assert_eq!(string_width("a\tb"), 2);
}

#[test]
fn test_measure_text_height_simple() {
    assert_eq!(measure_text_height("hello", 10), 1);
    assert_eq!(measure_text_height("hello world", 5), 3);
    assert_eq!(measure_text_height("", 10), 0);
}

#[test]
fn test_measure_text_height_newlines() {
    assert_eq!(measure_text_height("a\nb\nc", 10), 3);
    assert_eq!(measure_text_height("hello\nworld", 10), 2);
}

#[test]
fn test_wrap_text() {
    let lines = wrap_text("hello world", 5);
    assert_eq!(lines.len(), 3);
    assert_eq!(lines[0], "hello");
    assert_eq!(lines[1], " worl");
    assert_eq!(lines[2], "d");
}

#[test]
fn test_wrap_text_newlines() {
    let lines = wrap_text("a\nb", 10);
    assert_eq!(lines.len(), 2);
    assert_eq!(lines[0], "a");
    assert_eq!(lines[1], "b");
}

#[test]
fn test_truncate_text() {
    assert_eq!(truncate_text("hello", 10), "hello");
    assert_eq!(truncate_text("hello world", 6), "hello…");
    assert_eq!(truncate_text("", 5), "");
}

#[test]
fn test_truncate_text_exact() {
    assert_eq!(truncate_text("hello", 5), "hello");
    assert_eq!(truncate_text("hello", 4), "hel…");
}

#[test]
fn wide_characters_take_two_cells() {
    assert_eq!(char_width('中'), 2);
    assert_eq!(char_width('a'), 1);
    assert_eq!(char_width('\u{7f}'), 0);
    assert_eq!(string_width("中文"), 4);
}

#[test]
fn width_adds_up_over_concatenation() {
    let a = "ab中";
    let b = "c\td";
    let ab = format!("{}{}", a, b);
    assert_eq!(string_width(&ab), string_width(a) + string_width(b));
}

#[test]
fn wrapped_lines_rejoin_to_the_text_without_newlines() {
    let text = "one two\nthree four five";
    let lines = wrap_text(text, 4);
    let joined: String = lines.concat();
    assert_eq!(joined, text.replace('\n', ""));
    for l in &lines {
        assert!(string_width(l) <= 4);
    }
}

#[test]
fn truncated_text_fits() {
    let t = truncate_text("abcdefghij", 7);
    assert!(string_width(&t) <= 7);
    assert_eq!(t, "abcdef…");
    assert_eq!(truncate_text("abc", 0), "");
}

#[test]
fn wrapped_lines_fit_width() {
    let lines = wrap_text("the quick brown fox jumps", 7);
    for l in &lines {
        assert!(string_width(l) <= 7);
        assert!(!l.contains('\n'));
    }
    // A character wider than the width stands on a line of its own.
    let lines = wrap_text("世a", 1);
    assert_eq!(lines, vec!["世".to_string(), "a".to_string()]);
}

#[test]
fn height_matches_wrapped_line_count() {
    for (text, w) in [("hello world", 5u16), ("a\nbb\nccc", 2), ("abcdefghij", 3), ("x", 10)] {
        assert_eq!(measure_text_height(text, w) as usize, wrap_text(text, w).len());
    }
}
