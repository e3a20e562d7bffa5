use spark_tui::oklch_syntax::{HueUnit, OklchParts};
use spark_tui::types::Rgba;

fn no_oklch(_p: &OklchParts) -> Option<Rgba> {
    None
}

#[test]
fn test_rgba_from_rgb_int_basic() {
    let red = Rgba::from_rgb_int(0xff0000);
    assert_eq!(red, Rgba::rgb(255, 0, 0));
    let green = Rgba::from_rgb_int(0x00ff00);
    assert_eq!(green, Rgba::rgb(0, 255, 0));
    let blue = Rgba::from_rgb_int(0x0000ff);
    assert_eq!(blue, Rgba::rgb(0, 0, 255));
    let black = Rgba::from_rgb_int(0x000000);
    assert_eq!(black, Rgba::rgb(0, 0, 0));
    let white = Rgba::from_rgb_int(0xffffff);
    assert_eq!(white, Rgba::rgb(255, 255, 255));
}

#[test]
fn test_rgba_from_rgb_int_theme_colors() {
    let dracula_bg = Rgba::from_rgb_int(0x282a36);
    assert_eq!(dracula_bg, Rgba::rgb(40, 42, 54));
    let dracula_fg = Rgba::from_rgb_int(0xf8f8f2);
    assert_eq!(dracula_fg, Rgba::rgb(248, 248, 242));
    let dracula_comment = Rgba::from_rgb_int(0x6272a4);
    assert_eq!(dracula_comment, Rgba::rgb(98, 114, 164));
}

#[test]
fn test_rgba_from_hex_rrggbb() {
    assert_eq!(Rgba::from_hex("#ff0000").unwrap(), Rgba::rgb(255, 0, 0));
    assert_eq!(Rgba::from_hex("#00ff00").unwrap(), Rgba::rgb(0, 255, 0));
    assert_eq!(Rgba::from_hex("#0000ff").unwrap(), Rgba::rgb(0, 0, 255));
}

#[test]
fn test_rgba_from_hex_rgb_shorthand() {
    assert_eq!(Rgba::from_hex("#fff").unwrap(), Rgba::rgb(255, 255, 255));
    assert_eq!(Rgba::from_hex("#000").unwrap(), Rgba::rgb(0, 0, 0));
    assert_eq!(Rgba::from_hex("#f00").unwrap(), Rgba::rgb(255, 0, 0));
    assert_eq!(Rgba::from_hex("#abc").unwrap(), Rgba::rgb(0xaa, 0xbb, 0xcc));
}

#[test]
fn test_rgba_from_hex_with_alpha() {
    assert_eq!(Rgba::from_hex("#ff000080").unwrap(), Rgba::new(255, 0, 0, 128));
    assert_eq!(Rgba::from_hex("#00000000").unwrap(), Rgba::new(0, 0, 0, 0));
    assert_eq!(Rgba::from_hex("#ff0000ff").unwrap(), Rgba::new(255, 0, 0, 255));
}

#[test]
fn test_rgba_from_hex_without_hash() {
    assert_eq!(Rgba::from_hex("ff0000").unwrap(), Rgba::rgb(255, 0, 0));
    assert_eq!(Rgba::from_hex("abc").unwrap(), Rgba::rgb(0xaa, 0xbb, 0xcc));
}

#[test]
fn test_rgba_from_hex_case_insensitive() {
    let upper = Rgba::from_hex("#AABBCC").unwrap();
    let lower = Rgba::from_hex("#aabbcc").unwrap();
    let mixed = Rgba::from_hex("#AaBbCc").unwrap();
    assert_eq!(upper, lower);
    assert_eq!(lower, mixed);
}

#[test]
fn test_rgba_from_hex_whitespace() {
    assert_eq!(Rgba::from_hex("  #ff0000  ").unwrap(), Rgba::rgb(255, 0, 0));
}

#[test]
fn test_rgba_from_hex_invalid() {
    assert!(Rgba::from_hex("#gg0000").is_none());
    assert!(Rgba::from_hex("#xyz").is_none());
    assert!(Rgba::from_hex("#f").is_none());
    assert!(Rgba::from_hex("#ff").is_none());
    assert!(Rgba::from_hex("#ffff").is_none());
    assert!(Rgba::from_hex("#fffff").is_none());
    assert!(Rgba::from_hex("#fffffff").is_none());
    assert!(Rgba::from_hex("#fffffffff").is_none());
    assert!(Rgba::from_hex("").is_none());
    assert!(Rgba::from_hex("#").is_none());
}

#[test]
fn test_rgba_parse_hex() {
    assert_eq!(Rgba::parse("#ff0000", no_oklch).unwrap(), Rgba::rgb(255, 0, 0));
    assert_eq!(Rgba::parse("#f00", no_oklch).unwrap(), Rgba::rgb(255, 0, 0));
    assert_eq!(Rgba::parse("#ff000080", no_oklch).unwrap(), Rgba::new(255, 0, 0, 128));
}

#[test]
fn test_rgba_parse_special_keywords() {
    let trans = Rgba::parse("transparent", no_oklch).unwrap();
    assert_eq!(trans, Rgba::TRANSPARENT());
    assert!(Rgba::parse("default", no_oklch).unwrap().is_terminal_default());
    assert!(Rgba::parse("inherit", no_oklch).unwrap().is_terminal_default());
    assert!(Rgba::parse("initial", no_oklch).unwrap().is_terminal_default());
    assert!(Rgba::parse("currentColor", no_oklch).unwrap().is_terminal_default());
}

#[test]
fn test_rgba_parse_case_insensitive() {
    let upper = Rgba::parse("TRANSPARENT", no_oklch).unwrap();
    let lower = Rgba::parse("transparent", no_oklch).unwrap();
    let mixed = Rgba::parse("Transparent", no_oklch).unwrap();
    assert_eq!(upper, lower);
    assert_eq!(lower, mixed);
    assert!(Rgba::parse("DEFAULT", no_oklch).unwrap().is_terminal_default());
}

#[test]
fn test_rgba_parse_invalid() {
    assert!(Rgba::parse("", no_oklch).is_none());
    assert!(Rgba::parse("invalid", no_oklch).is_none());
    assert!(Rgba::parse("rgb(255, 0, 0)", no_oklch).is_none());
    assert!(Rgba::parse("hsl(0, 100%, 50%)", no_oklch).is_none());
}

#[test]
fn parse_hands_oklch_parts_to_the_converter() {
    let seen = std::cell::RefCell::new(String::new());
    let conv = |p: &OklchParts| {
        *seen.borrow_mut() = format!("{} {} {} {:?}", p.lightness, p.chroma, p.hue, p.hue_unit);
        Some(Rgba::rgb(1, 2, 3))
    };
    let c = Rgba::parse("  OKLCH(0.5 0.1 200Turn)  ", &conv).unwrap();
    assert_eq!(c, Rgba::rgb(1, 2, 3));
    assert_eq!(seen.borrow().as_str(), "0.5 0.1 200 Turns");
    let _ = HueUnit::Turns;
}

#[test]
fn parse_rejects_malformed_oklch_without_converting() {
    let called = std::cell::Cell::new(false);
    let conv = |_p: &OklchParts| {
        called.set(true);
        Some(Rgba::rgb(1, 2, 3))
    };
    assert!(Rgba::parse("oklch(0.5 0.1)", &conv).is_none());
    assert!(Rgba::parse("oklch(0.5 0.1 200", &conv).is_none());
    assert!(!called.get());
}
