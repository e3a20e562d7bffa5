use spark_tui::chars::trim_chars;

#[test]
fn trim_removes_unicode_white_space() {
    let s: Vec<char> = "\u{00A0}\u{3000} hi\u{2003}\u{0085}".chars().collect();
    let r = trim_chars(&s);
    assert_eq!(r, vec!['h', 'i']);
}

#[test]
fn trim_keeps_other_characters() {
    let s: Vec<char> = "\u{200B}x\u{180E}".chars().collect();
    let r = trim_chars(&s);
    assert_eq!(r, s);
}
