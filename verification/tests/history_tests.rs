use spark_tui::primitives::types::InputHistory;

#[test]
fn up_then_down_returns_the_edited_value() {
    let mut h = InputHistory::new(vec!["one".to_string(), "two".to_string()]);
    assert_eq!(h.up("draft"), Some("two".to_string()));
    assert!(h.is_browsing());
    assert_eq!(h.down(), Some("draft".to_string()));
    assert!(!h.is_browsing());
}

#[test]
fn browsing_walks_back_and_forth() {
    let mut h = InputHistory::new(vec!["a".to_string(), "b".to_string(), "c".to_string()]);
    assert_eq!(h.up(""), Some("c".to_string()));
    assert_eq!(h.up(""), Some("b".to_string()));
    assert_eq!(h.up(""), Some("a".to_string()));
    assert_eq!(h.up(""), None);
    assert_eq!(h.down(), Some("b".to_string()));
    assert_eq!(h.down(), Some("c".to_string()));
    assert_eq!(h.down(), Some("".to_string()));
    assert_eq!(h.down(), None);
}

#[test]
fn empty_history_has_nothing_to_browse() {
    let mut h = InputHistory::auto();
    assert_eq!(h.up("x"), None);
    assert_eq!(h.down(), None);
}

#[test]
fn push_skips_empty_and_repeated_entries_and_ends_browsing() {
    let mut h = InputHistory::auto();
    h.push("ls".to_string());
    h.push("ls".to_string());
    h.push(String::new());
    assert_eq!(h.entries, vec!["ls".to_string()]);
    h.up("");
    h.push("cd".to_string());
    assert!(!h.is_browsing());
    assert_eq!(h.entries, vec!["ls".to_string(), "cd".to_string()]);
}

#[test]
fn push_keeps_the_newest_max_entries() {
    let mut h = InputHistory::auto();
    h.max_entries = 2;
    h.push("a".to_string());
    h.push("b".to_string());
    h.push("c".to_string());
    assert_eq!(h.entries, vec!["b".to_string(), "c".to_string()]);
}
