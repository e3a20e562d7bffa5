use spark_tui::oklch_syntax::{oklch_parts, HueUnit};

#[test]
fn oklch_parts_plain_numbers() {
    let p = oklch_parts("oklch(0.75 0.15 300)").unwrap();
    assert_eq!(p.lightness, "0.75");
    assert!(!p.lightness_percent);
    assert_eq!(p.chroma, "0.15");
    assert_eq!(p.hue, "300");
    assert_eq!(p.hue_unit, HueUnit::Degrees);
    assert_eq!(p.alpha, None);
    assert!(!p.alpha_percent);
}

#[test]
fn oklch_parts_percentages_units_and_case() {
    let p = oklch_parts("  OKLCH(80% 0.2 180DEG / 50%)  ").unwrap();
    assert_eq!(p.lightness, "80");
    assert!(p.lightness_percent);
    assert_eq!(p.chroma, "0.2");
    assert_eq!(p.hue, "180");
    assert_eq!(p.hue_unit, HueUnit::Degrees);
    assert_eq!(p.alpha, Some("50".to_string()));
    assert!(p.alpha_percent);
}

#[test]
fn oklch_parts_hue_units() {
    let rad = oklch_parts("oklch(0.75 0.1 3.14159rad)").unwrap();
    assert_eq!(rad.hue, "3.14159");
    assert_eq!(rad.hue_unit, HueUnit::Radians);
    let turn = oklch_parts("oklch(0.75 0.1 0.5turn)").unwrap();
    assert_eq!(turn.hue, "0.5");
    assert_eq!(turn.hue_unit, HueUnit::Turns);
    let deg = oklch_parts("oklch(0.75 0.15 300deg)").unwrap();
    assert_eq!(deg.hue, "300");
    assert_eq!(deg.hue_unit, HueUnit::Degrees);
}

#[test]
fn oklch_parts_alpha_separator_and_extra_pieces() {
    let p = oklch_parts("oklch(0.7 0.15 200 / 0.5)").unwrap();
    assert_eq!(p.alpha, Some("0.5".to_string()));
    assert!(!p.alpha_percent);
    let q = oklch_parts("oklch(0.7 0.15 200/1 9 9)").unwrap();
    assert_eq!(q.hue, "200");
    assert_eq!(q.alpha, Some("1".to_string()));
}

#[test]
fn oklch_parts_rejects_other_forms() {
    assert!(oklch_parts("rgb(255, 0, 0)").is_none());
    assert!(oklch_parts("#ff0000").is_none());
    assert!(oklch_parts("oklch").is_none());
    assert!(oklch_parts("oklch 0.5 0.1 200").is_none());
    assert!(oklch_parts("oklch(0.5 0.1 200").is_none());
    assert!(oklch_parts("oklch(0.5 0.1)").is_none());
    assert!(oklch_parts("oklch(0.5)").is_none());
    assert!(oklch_parts("oklch()").is_none());
    assert!(oklch_parts("").is_none());
}

#[test]
fn oklch_parts_leaves_numbers_as_text() {
    let p = oklch_parts("oklch(abc 0.1 200)").unwrap();
    assert_eq!(p.lightness, "abc");
    assert_eq!(p.chroma, "0.1");
}
