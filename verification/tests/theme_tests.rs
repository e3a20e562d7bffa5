use spark_tui::theme::presets::{
    catppuccin, dracula, everforest, get_preset, gruvbox, kanagawa, monokai, night_owl, nord, one_dark,
    preset_names, rose_pine, solarized, terminal, tokyo_night,
};
use spark_tui::theme::variant::{get_variant_style, resolve_theme, ResolvedTheme, Variant};
use spark_tui::theme::{theme_color_from_str, Theme, ThemeColor};
use spark_tui::oklch_syntax::OklchParts;
use spark_tui::types::Rgba;

fn no_oklch(_p: &OklchParts) -> Option<Rgba> {
    None
}

fn keep(_fg: Rgba, _bg: Rgba) -> Option<Rgba> {
    None
}

fn resolved(t: &Theme) -> ResolvedTheme {
    resolve_theme(t, no_oklch)
}

#[test]
fn test_theme_color_default() {
    let color = ThemeColor::Default;
    assert!(color.is_default());
    assert!(!color.is_ansi());
    assert!(!color.is_rgb());
    assert!(color.resolve(no_oklch).is_terminal_default());
}

#[test]
fn test_theme_color_ansi() {
    let color = ThemeColor::Ansi(12);
    assert!(!color.is_default());
    assert!(color.is_ansi());
    assert!(!color.is_rgb());
    let r = color.resolve(no_oklch);
    assert!(r.is_ansi());
    assert_eq!(r.ansi_index(), 12);
}

#[test]
fn test_theme_color_rgb() {
    let color = ThemeColor::Rgb(Rgba::rgb(255, 0, 0));
    assert!(!color.is_default());
    assert!(!color.is_ansi());
    assert!(color.is_rgb());
    assert_eq!(color.resolve(no_oklch), Rgba::rgb(255, 0, 0));
}

#[test]
fn test_theme_color_str_hex() {
    let color = ThemeColor::Str("#ff0000".to_string());
    assert_eq!(color.resolve(no_oklch), Rgba::rgb(255, 0, 0));
}

#[test]
fn test_theme_color_str_invalid() {
    let color = ThemeColor::Str("invalid".to_string());
    assert_eq!(color.resolve(no_oklch), Rgba::MAGENTA());
}

#[test]
fn test_theme_color_from_unit() {
    let color: ThemeColor = ().into();
    assert!(color.is_default());
}

#[test]
fn test_theme_color_from_u8() {
    let color: ThemeColor = 12u8.into();
    assert_eq!(color, ThemeColor::Ansi(12));
}

#[test]
fn test_theme_color_from_rgba() {
    let color: ThemeColor = Rgba::RED().into();
    assert_eq!(color, ThemeColor::Rgb(Rgba::RED()));
}

#[test]
fn test_theme_color_from_str() {
    let color: ThemeColor = theme_color_from_str("#ff0000");
    assert_eq!(color, ThemeColor::Str("#ff0000".to_string()));
    let owned: ThemeColor = String::from("#00ff00").into();
    assert_eq!(owned, ThemeColor::Str("#00ff00".to_string()));
}

#[test]
fn test_theme_color_from_u32() {
    let color: ThemeColor = 0xff0000u32.into();
    assert_eq!(color, ThemeColor::Rgb(Rgba::rgb(255, 0, 0)));
}

#[test]
fn test_theme_color_from_option_none() {
    let color: ThemeColor = None::<u32>.into();
    assert!(color.is_default());
}

#[test]
fn test_theme_color_from_option_some() {
    let color: ThemeColor = Some(0xff0000u32).into();
    assert_eq!(color, ThemeColor::Rgb(Rgba::rgb(255, 0, 0)));
}

#[test]
fn test_theme_default() {
    let theme = Theme::default();
    assert_eq!(theme.name, "terminal");
}

#[test]
fn test_theme_new() {
    let theme = Theme::new("custom", "My custom theme");
    assert_eq!(theme.name, "custom");
    assert_eq!(theme.description, "My custom theme");
    assert!(theme.primary.is_default());
}

#[test]
fn oklch_strings_resolve_through_the_converter() {
    let color = ThemeColor::Str("oklch(0.75 0.15 300)".to_string());
    assert_eq!(color.resolve(|_p: &OklchParts| Some(Rgba::rgb(180, 140, 250))), Rgba::rgb(180, 140, 250));
    assert_eq!(color.resolve(no_oklch), Rgba::MAGENTA());
}

#[test]
fn test_terminal_preset() {
    let t = terminal();
    assert_eq!(t.name, "terminal");
    assert!(t.primary.is_ansi());
    assert!(t.text.is_default());
    assert!(t.background.is_default());
}

#[test]
fn test_dracula_preset() {
    let t = dracula();
    assert_eq!(t.name, "dracula");
    assert!(matches!(t.primary, ThemeColor::Str(_)));
    assert!(t.text.is_rgb());
    assert_eq!(t.text.resolve(no_oklch), Rgba::from_rgb_int(0xf8f8f2));
}

#[test]
fn test_all_presets_exist() {
    let names = preset_names();
    assert_eq!(names.len(), 13);
    for name in names {
        assert!(get_preset(name).is_some(), "Preset '{}' should exist", name);
    }
}

#[test]
fn test_get_preset_case_insensitive() {
    assert!(get_preset("DRACULA").is_some());
    assert!(get_preset("Dracula").is_some());
    assert!(get_preset("dracula").is_some());
}

#[test]
fn test_get_preset_snake_case() {
    let t1 = get_preset("tokyoNight").unwrap();
    let t2 = get_preset("tokyo_night").unwrap();
    let t3 = get_preset("tokyonight").unwrap();
    assert_eq!(t1.name, t2.name);
    assert_eq!(t2.name, t3.name);
}

#[test]
fn test_get_preset_invalid() {
    assert!(get_preset("nonexistent").is_none());
    assert!(get_preset("").is_none());
}

#[test]
fn test_nord_preset_colors() {
    let t = nord();
    assert_eq!(t.name, "nord");
    assert_eq!(t.background.resolve(no_oklch), Rgba::from_rgb_int(0x2e3440));
    assert_eq!(t.text.resolve(no_oklch), Rgba::from_rgb_int(0xd8dee9));
}

#[test]
fn test_catppuccin_preset_colors() {
    let t = catppuccin();
    assert_eq!(t.name, "catppuccin");
    assert_eq!(t.background.resolve(no_oklch), Rgba::from_rgb_int(0x1e1e2e));
    assert_eq!(t.primary.resolve(no_oklch), Rgba::from_rgb_int(0x89b4fa));
}

#[test]
fn test_gruvbox_preset_colors() {
    let t = gruvbox();
    assert_eq!(t.name, "gruvbox");
    assert_eq!(t.background.resolve(no_oklch), Rgba::from_rgb_int(0x282828));
    assert_eq!(t.text.resolve(no_oklch), Rgba::from_rgb_int(0xebdbb2));
}

#[test]
fn test_tokyo_night_preset_colors() {
    let t = tokyo_night();
    assert_eq!(t.name, "tokyoNight");
    assert_eq!(t.background.resolve(no_oklch), Rgba::from_rgb_int(0x1a1b26));
    assert_eq!(t.primary.resolve(no_oklch), Rgba::from_rgb_int(0x7aa2f7));
}

#[test]
fn test_one_dark_preset_colors() {
    let t = one_dark();
    assert_eq!(t.name, "oneDark");
    assert_eq!(t.background.resolve(no_oklch), Rgba::from_rgb_int(0x282c34));
    assert_eq!(t.primary.resolve(no_oklch), Rgba::from_rgb_int(0x61afef));
}

#[test]
fn test_rose_pine_preset_colors() {
    let t = rose_pine();
    assert_eq!(t.name, "rosePine");
    assert_eq!(t.background.resolve(no_oklch), Rgba::from_rgb_int(0x191724));
}

#[test]
fn test_kanagawa_preset_colors() {
    let t = kanagawa();
    assert_eq!(t.name, "kanagawa");
    assert_eq!(t.background.resolve(no_oklch), Rgba::from_rgb_int(0x1f1f28));
}

#[test]
fn test_everforest_preset_colors() {
    let t = everforest();
    assert_eq!(t.name, "everforest");
    assert_eq!(t.background.resolve(no_oklch), Rgba::from_rgb_int(0x2d353b));
}

#[test]
fn test_night_owl_preset_colors() {
    let t = night_owl();
    assert_eq!(t.name, "nightOwl");
    assert_eq!(t.background.resolve(no_oklch), Rgba::from_rgb_int(0x011627));
}

#[test]
fn test_solarized_preset_colors() {
    let t = solarized();
    assert_eq!(t.name, "solarized");
    assert_eq!(t.background.resolve(no_oklch), Rgba::from_rgb_int(0x002b36));
    assert_eq!(t.primary.resolve(no_oklch), Rgba::from_rgb_int(0x268bd2));
}

#[test]
fn test_monokai_preset_colors() {
    let t = monokai();
    assert_eq!(t.name, "monokai");
    assert_eq!(t.background.resolve(no_oklch), Rgba::from_rgb_int(0x272822));
}

#[test]
fn test_variant_from_str() {
    assert_eq!(Variant::from_str("primary"), Some(Variant::Primary));
    assert_eq!(Variant::from_str("SUCCESS"), Some(Variant::Success));
    assert_eq!(Variant::from_str("Warning"), Some(Variant::Warning));
    assert_eq!(Variant::from_str("invalid"), None);
    assert_eq!(Variant::from_str(""), None);
}

#[test]
fn test_variant_from_str_all_variants() {
    let cases = [
        ("default", Variant::Default),
        ("primary", Variant::Primary),
        ("secondary", Variant::Secondary),
        ("tertiary", Variant::Tertiary),
        ("accent", Variant::Accent),
        ("success", Variant::Success),
        ("warning", Variant::Warning),
        ("error", Variant::Error),
        ("info", Variant::Info),
        ("muted", Variant::Muted),
        ("surface", Variant::Surface),
        ("elevated", Variant::Elevated),
        ("ghost", Variant::Ghosted),
        ("outline", Variant::Outline),
    ];
    for (name, expected) in cases {
        assert_eq!(Variant::from_str(name), Some(expected), "Failed for {}", name);
    }
}

#[test]
fn test_variant_all() {
    let all = Variant::all();
    assert_eq!(all.len(), 14);
    assert!(all.contains(&Variant::Default));
    assert!(all.contains(&Variant::Primary));
    assert!(all.contains(&Variant::Ghosted));
    assert!(all.contains(&Variant::Outline));
}

#[test]
fn test_variant_default() {
    assert_eq!(Variant::default(), Variant::Default);
}

#[test]
fn test_variant_style_terminal_theme() {
    let theme = resolved(&terminal());
    let style = get_variant_style(Variant::Primary, &theme, &keep);
    assert!(style.bg.is_ansi());
}

#[test]
fn test_variant_style_rgb_theme() {
    let theme = resolved(&dracula());
    let style = get_variant_style(Variant::Primary, &theme, &keep);
    assert!(!style.bg.is_ansi());
    assert!(!style.bg.is_terminal_default());
}

#[test]
fn test_all_variants_have_styles() {
    let theme = resolved(&terminal());
    for v in Variant::all() {
        let _style = get_variant_style(v, &theme, &keep);
    }
}

#[test]
fn test_ghost_variant_transparent_bg() {
    let theme = resolved(&terminal());
    let style = get_variant_style(Variant::Ghosted, &theme, &keep);
    assert!(style.bg.is_terminal_default());
    assert!(style.border.is_terminal_default());
}

#[test]
fn test_outline_variant_transparent_bg() {
    let theme = resolved(&terminal());
    let style = get_variant_style(Variant::Outline, &theme, &keep);
    assert!(style.bg.is_terminal_default());
    assert!(!style.border.is_terminal_default());
}

#[test]
fn contrast_adjustment_applies_only_to_plain_colors() {
    let theme = resolved(&gruvbox());
    let darken = |_fg: Rgba, _bg: Rgba| Some(Rgba::rgb(1, 1, 1));
    let style = get_variant_style(Variant::Warning, &theme, &darken);
    assert_eq!(style.fg, Rgba::rgb(1, 1, 1));
    let term = resolved(&terminal());
    let ansi_style = get_variant_style(Variant::Warning, &term, &darken);
    assert_eq!(ansi_style.fg, Rgba::BLACK());
}
