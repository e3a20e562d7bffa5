use spark_tui::layout::text_measure::{string_width, wrap_text};

#[test]
fn wrapped_lines_are_never_empty_and_break_only_when_full() {
    let lines = wrap_text("abcdefg", 3);
    assert_eq!(lines, vec!["abc".to_string(), "def".to_string(), "g".to_string()]);
    for l in &lines {
        assert!(!l.is_empty());
    }
    for k in 0..lines.len() - 1 {
        let next = lines[k + 1].chars().next().unwrap().to_string();
        assert!(string_width(&lines[k]) + string_width(&next) > 3);
    }
}
