//! The built-in theme presets.

use vstd::prelude::*;
use crate::types::Rgba;
use crate::chars::{str_chars, str_to_lowercase, lowercase_spec};
use super::{Theme, ThemeColor, ThemeColorView, rgb_int_color, theme_color_from_str};

verus! {

broadcast use vstd::string::group_string_axioms;

/// The colors of the `terminal` preset.
pub open spec fn is_terminal(t: &Theme) -> bool {
    &&& t.name@ == "terminal"@
    &&& t.description@ == "Uses terminal default colors"@
    &&& t.primary.view_color() == ThemeColorView::Ansi(12)
    &&& t.secondary.view_color() == ThemeColorView::Ansi(13)
    &&& t.tertiary.view_color() == ThemeColorView::Ansi(14)
    &&& t.accent.view_color() == ThemeColorView::Ansi(11)
    &&& t.success.view_color() == ThemeColorView::Ansi(2)
    &&& t.warning.view_color() == ThemeColorView::Ansi(3)
    &&& t.error.view_color() == ThemeColorView::Ansi(1)
    &&& t.info.view_color() == ThemeColorView::Ansi(6)
    &&& t.text.view_color() == ThemeColorView::Default
    &&& t.text_muted.view_color() == ThemeColorView::Ansi(8)
    &&& t.text_dim.view_color() == ThemeColorView::Ansi(8)
    &&& t.text_disabled.view_color() == ThemeColorView::Ansi(8)
    &&& t.text_bright.view_color() == ThemeColorView::Ansi(15)
    &&& t.background.view_color() == ThemeColorView::Default
    &&& t.background_muted.view_color() == ThemeColorView::Default
    &&& t.surface.view_color() == ThemeColorView::Default
    &&& t.overlay.view_color() == ThemeColorView::Default
    &&& t.border.view_color() == ThemeColorView::Ansi(7)
    &&& t.border_focus.view_color() == ThemeColorView::Ansi(12)
}

/// Terminal theme - uses ANSI colors to respect user's terminal theme.
/// This is the default and should be used for most applications.
pub fn terminal() -> (t: Theme)
    ensures
        is_terminal(&t),
{
    Theme {
        name: "terminal".to_string(),
        description: "Uses terminal default colors".to_string(),
        primary: ThemeColor::Ansi(12),
        secondary: ThemeColor::Ansi(13),
        tertiary: ThemeColor::Ansi(14),
        accent: ThemeColor::Ansi(11),
        success: ThemeColor::Ansi(2),
        warning: ThemeColor::Ansi(3),
        error: ThemeColor::Ansi(1),
        info: ThemeColor::Ansi(6),
        text: ThemeColor::Default,
        text_muted: ThemeColor::Ansi(8),
        text_dim: ThemeColor::Ansi(8),
        text_disabled: ThemeColor::Ansi(8),
        text_bright: ThemeColor::Ansi(15),
        background: ThemeColor::Default,
        background_muted: ThemeColor::Default,
        surface: ThemeColor::Default,
        overlay: ThemeColor::Default,
        border: ThemeColor::Ansi(7),
        border_focus: ThemeColor::Ansi(12),
    }
}

/// The colors of the `dracula` preset.
pub open spec fn is_dracula(t: &Theme) -> bool {
    &&& t.name@ == "dracula"@
    &&& t.description@ == "Dracula dark theme"@
    &&& t.primary.view_color() == ThemeColorView::Str("oklch(0.75 0.15 300)"@)
    &&& t.secondary.view_color() == ThemeColorView::Str("oklch(0.75 0.2 340)"@)
    &&& t.tertiary.view_color() == ThemeColorView::Str("oklch(0.85 0.12 200)"@)
    &&& t.accent.view_color() == ThemeColorView::Str("oklch(0.9 0.15 100)"@)
    &&& t.success.view_color() == ThemeColorView::Str("oklch(0.8 0.2 140)"@)
    &&& t.warning.view_color() == ThemeColorView::Str("oklch(0.9 0.15 100)"@)
    &&& t.error.view_color() == ThemeColorView::Str("oklch(0.7 0.25 25)"@)
    &&& t.info.view_color() == ThemeColorView::Str("oklch(0.85 0.12 200)"@)
    &&& t.text.view_color() == ThemeColorView::Rgb(rgb_int_color(0xf8f8f2))
    &&& t.text_muted.view_color() == ThemeColorView::Rgb(rgb_int_color(0x6272a4))
    &&& t.text_dim.view_color() == ThemeColorView::Rgb(rgb_int_color(0x6272a4))
    &&& t.text_disabled.view_color() == ThemeColorView::Rgb(rgb_int_color(0x44475a))
    &&& t.text_bright.view_color() == ThemeColorView::Rgb(rgb_int_color(0xffffff))
    &&& t.background.view_color() == ThemeColorView::Rgb(rgb_int_color(0x282a36))
    &&& t.background_muted.view_color() == ThemeColorView::Rgb(rgb_int_color(0x343746))
    &&& t.surface.view_color() == ThemeColorView::Rgb(rgb_int_color(0x44475a))
    &&& t.overlay.view_color() == ThemeColorView::Rgb(rgb_int_color(0x21222c))
    &&& t.border.view_color() == ThemeColorView::Rgb(rgb_int_color(0x6272a4))
    &&& t.border_focus.view_color() == ThemeColorView::Rgb(rgb_int_color(0xbd93f9))
}

/// Dracula - dark theme with vivid colors.
/// Uses OKLCH for perceptually uniform colors.
pub fn dracula() -> (t: Theme)
    ensures
        is_dracula(&t),
{
    Theme {
        name: "dracula".to_string(),
        description: "Dracula dark theme".to_string(),
        primary: theme_color_from_str("oklch(0.75 0.15 300)"),
        secondary: theme_color_from_str("oklch(0.75 0.2 340)"),
        tertiary: theme_color_from_str("oklch(0.85 0.12 200)"),
        accent: theme_color_from_str("oklch(0.9 0.15 100)"),
        success: theme_color_from_str("oklch(0.8 0.2 140)"),
        warning: theme_color_from_str("oklch(0.9 0.15 100)"),
        error: theme_color_from_str("oklch(0.7 0.25 25)"),
        info: theme_color_from_str("oklch(0.85 0.12 200)"),
        text: ThemeColor::Rgb(Rgba::from_rgb_int(0xf8f8f2)),
        text_muted: ThemeColor::Rgb(Rgba::from_rgb_int(0x6272a4)),
        text_dim: ThemeColor::Rgb(Rgba::from_rgb_int(0x6272a4)),
        text_disabled: ThemeColor::Rgb(Rgba::from_rgb_int(0x44475a)),
        text_bright: ThemeColor::Rgb(Rgba::from_rgb_int(0xffffff)),
        background: ThemeColor::Rgb(Rgba::from_rgb_int(0x282a36)),
        background_muted: ThemeColor::Rgb(Rgba::from_rgb_int(0x343746)),
        surface: ThemeColor::Rgb(Rgba::from_rgb_int(0x44475a)),
        overlay: ThemeColor::Rgb(Rgba::from_rgb_int(0x21222c)),
        border: ThemeColor::Rgb(Rgba::from_rgb_int(0x6272a4)),
        border_focus: ThemeColor::Rgb(Rgba::from_rgb_int(0xbd93f9)),
    }
}

/// The colors of the `nord` preset.
pub open spec fn is_nord(t: &Theme) -> bool {
    &&& t.name@ == "nord"@
    &&& t.description@ == "Nord arctic theme"@
    &&& t.primary.view_color() == ThemeColorView::Str("oklch(0.8 0.08 210)"@)
    &&& t.secondary.view_color() == ThemeColorView::Str("oklch(0.7 0.08 230)"@)
    &&& t.tertiary.view_color() == ThemeColorView::Str("oklch(0.6 0.1 250)"@)
    &&& t.accent.view_color() == ThemeColorView::Str("oklch(0.7 0.12 50)"@)
    &&& t.success.view_color() == ThemeColorView::Str("oklch(0.75 0.1 130)"@)
    &&& t.warning.view_color() == ThemeColorView::Str("oklch(0.85 0.1 90)"@)
    &&& t.error.view_color() == ThemeColorView::Str("oklch(0.65 0.15 20)"@)
    &&& t.info.view_color() == ThemeColorView::Str("oklch(0.8 0.08 210)"@)
    &&& t.text.view_color() == ThemeColorView::Rgb(rgb_int_color(0xd8dee9))
    &&& t.text_muted.view_color() == ThemeColorView::Rgb(rgb_int_color(0x4c566a))
    &&& t.text_dim.view_color() == ThemeColorView::Rgb(rgb_int_color(0x4c566a))
    &&& t.text_disabled.view_color() == ThemeColorView::Rgb(rgb_int_color(0x3b4252))
    &&& t.text_bright.view_color() == ThemeColorView::Rgb(rgb_int_color(0xeceff4))
    &&& t.background.view_color() == ThemeColorView::Rgb(rgb_int_color(0x2e3440))
    &&& t.background_muted.view_color() == ThemeColorView::Rgb(rgb_int_color(0x3b4252))
    &&& t.surface.view_color() == ThemeColorView::Rgb(rgb_int_color(0x434c5e))
    &&& t.overlay.view_color() == ThemeColorView::Rgb(rgb_int_color(0x2e3440))
    &&& t.border.view_color() == ThemeColorView::Rgb(rgb_int_color(0x4c566a))
    &&& t.border_focus.view_color() == ThemeColorView::Rgb(rgb_int_color(0x88c0d0))
}

/// Nord - arctic, bluish colors.
pub fn nord() -> (t: Theme)
    ensures
        is_nord(&t),
{
    Theme {
        name: "nord".to_string(),
        description: "Nord arctic theme".to_string(),
        primary: theme_color_from_str("oklch(0.8 0.08 210)"),
        secondary: theme_color_from_str("oklch(0.7 0.08 230)"),
        tertiary: theme_color_from_str("oklch(0.6 0.1 250)"),
        accent: theme_color_from_str("oklch(0.7 0.12 50)"),
        success: theme_color_from_str("oklch(0.75 0.1 130)"),
        warning: theme_color_from_str("oklch(0.85 0.1 90)"),
        error: theme_color_from_str("oklch(0.65 0.15 20)"),
        info: theme_color_from_str("oklch(0.8 0.08 210)"),
        text: ThemeColor::Rgb(Rgba::from_rgb_int(0xd8dee9)),
        text_muted: ThemeColor::Rgb(Rgba::from_rgb_int(0x4c566a)),
        text_dim: ThemeColor::Rgb(Rgba::from_rgb_int(0x4c566a)),
        text_disabled: ThemeColor::Rgb(Rgba::from_rgb_int(0x3b4252)),
        text_bright: ThemeColor::Rgb(Rgba::from_rgb_int(0xeceff4)),
        background: ThemeColor::Rgb(Rgba::from_rgb_int(0x2e3440)),
        background_muted: ThemeColor::Rgb(Rgba::from_rgb_int(0x3b4252)),
        surface: ThemeColor::Rgb(Rgba::from_rgb_int(0x434c5e)),
        overlay: ThemeColor::Rgb(Rgba::from_rgb_int(0x2e3440)),
        border: ThemeColor::Rgb(Rgba::from_rgb_int(0x4c566a)),
        border_focus: ThemeColor::Rgb(Rgba::from_rgb_int(0x88c0d0)),
    }
}

/// The colors of the `monokai` preset.
pub open spec fn is_monokai(t: &Theme) -> bool {
    &&& t.name@ == "monokai"@
    &&& t.description@ == "Monokai vibrant theme"@
    &&& t.primary.view_color() == ThemeColorView::Str("oklch(0.65 0.25 350)"@)
    &&& t.secondary.view_color() == ThemeColorView::Str("oklch(0.85 0.25 125)"@)
    &&& t.tertiary.view_color() == ThemeColorView::Str("oklch(0.7 0.2 300)"@)
    &&& t.accent.view_color() == ThemeColorView::Str("oklch(0.75 0.18 60)"@)
    &&& t.success.view_color() == ThemeColorView::Str("oklch(0.85 0.25 125)"@)
    &&& t.warning.view_color() == ThemeColorView::Str("oklch(0.75 0.18 60)"@)
    &&& t.error.view_color() == ThemeColorView::Str("oklch(0.65 0.25 350)"@)
    &&& t.info.view_color() == ThemeColorView::Str("oklch(0.8 0.12 220)"@)
    &&& t.text.view_color() == ThemeColorView::Rgb(rgb_int_color(0xf8f8f2))
    &&& t.text_muted.view_color() == ThemeColorView::Rgb(rgb_int_color(0x75715e))
    &&& t.text_dim.view_color() == ThemeColorView::Rgb(rgb_int_color(0x75715e))
    &&& t.text_disabled.view_color() == ThemeColorView::Rgb(rgb_int_color(0x49483e))
    &&& t.text_bright.view_color() == ThemeColorView::Rgb(rgb_int_color(0xffffff))
    &&& t.background.view_color() == ThemeColorView::Rgb(rgb_int_color(0x272822))
    &&& t.background_muted.view_color() == ThemeColorView::Rgb(rgb_int_color(0x3e3d32))
    &&& t.surface.view_color() == ThemeColorView::Rgb(rgb_int_color(0x49483e))
    &&& t.overlay.view_color() == ThemeColorView::Rgb(rgb_int_color(0x1e1f1c))
    &&& t.border.view_color() == ThemeColorView::Rgb(rgb_int_color(0x75715e))
    &&& t.border_focus.view_color() == ThemeColorView::Rgb(rgb_int_color(0xf92672))
}

/// Monokai - vibrant syntax-highlighting inspired theme.
pub fn monokai() -> (t: Theme)
    ensures
        is_monokai(&t),
{
    Theme {
        name: "monokai".to_string(),
        description: "Monokai vibrant theme".to_string(),
        primary: theme_color_from_str("oklch(0.65 0.25 350)"),
        secondary: theme_color_from_str("oklch(0.85 0.25 125)"),
        tertiary: theme_color_from_str("oklch(0.7 0.2 300)"),
        accent: theme_color_from_str("oklch(0.75 0.18 60)"),
        success: theme_color_from_str("oklch(0.85 0.25 125)"),
        warning: theme_color_from_str("oklch(0.75 0.18 60)"),
        error: theme_color_from_str("oklch(0.65 0.25 350)"),
        info: theme_color_from_str("oklch(0.8 0.12 220)"),
        text: ThemeColor::Rgb(Rgba::from_rgb_int(0xf8f8f2)),
        text_muted: ThemeColor::Rgb(Rgba::from_rgb_int(0x75715e)),
        text_dim: ThemeColor::Rgb(Rgba::from_rgb_int(0x75715e)),
        text_disabled: ThemeColor::Rgb(Rgba::from_rgb_int(0x49483e)),
        text_bright: ThemeColor::Rgb(Rgba::from_rgb_int(0xffffff)),
        background: ThemeColor::Rgb(Rgba::from_rgb_int(0x272822)),
        background_muted: ThemeColor::Rgb(Rgba::from_rgb_int(0x3e3d32)),
        surface: ThemeColor::Rgb(Rgba::from_rgb_int(0x49483e)),
        overlay: ThemeColor::Rgb(Rgba::from_rgb_int(0x1e1f1c)),
        border: ThemeColor::Rgb(Rgba::from_rgb_int(0x75715e)),
        border_focus: ThemeColor::Rgb(Rgba::from_rgb_int(0xf92672)),
    }
}

/// The colors of the `solarized` preset.
pub open spec fn is_solarized(t: &Theme) -> bool {
    &&& t.name@ == "solarized"@
    &&& t.description@ == "Solarized Dark theme"@
    &&& t.primary.view_color() == ThemeColorView::Rgb(rgb_int_color(0x268bd2))
    &&& t.secondary.view_color() == ThemeColorView::Rgb(rgb_int_color(0x2aa198))
    &&& t.tertiary.view_color() == ThemeColorView::Rgb(rgb_int_color(0x859900))
    &&& t.accent.view_color() == ThemeColorView::Rgb(rgb_int_color(0xcb4b16))
    &&& t.success.view_color() == ThemeColorView::Rgb(rgb_int_color(0x859900))
    &&& t.warning.view_color() == ThemeColorView::Rgb(rgb_int_color(0xb58900))
    &&& t.error.view_color() == ThemeColorView::Rgb(rgb_int_color(0xdc322f))
    &&& t.info.view_color() == ThemeColorView::Rgb(rgb_int_color(0x268bd2))
    &&& t.text.view_color() == ThemeColorView::Rgb(rgb_int_color(0x839496))
    &&& t.text_muted.view_color() == ThemeColorView::Rgb(rgb_int_color(0x586e75))
    &&& t.text_dim.view_color() == ThemeColorView::Rgb(rgb_int_color(0x586e75))
    &&& t.text_disabled.view_color() == ThemeColorView::Rgb(rgb_int_color(0x073642))
    &&& t.text_bright.view_color() == ThemeColorView::Rgb(rgb_int_color(0x93a1a1))
    &&& t.background.view_color() == ThemeColorView::Rgb(rgb_int_color(0x002b36))
    &&& t.background_muted.view_color() == ThemeColorView::Rgb(rgb_int_color(0x073642))
    &&& t.surface.view_color() == ThemeColorView::Rgb(rgb_int_color(0x073642))
    &&& t.overlay.view_color() == ThemeColorView::Rgb(rgb_int_color(0x002b36))
    &&& t.border.view_color() == ThemeColorView::Rgb(rgb_int_color(0x586e75))
    &&& t.border_focus.view_color() == ThemeColorView::Rgb(rgb_int_color(0x268bd2))
}

/// Solarized Dark - precision color scheme.
pub fn solarized() -> (t: Theme)
    ensures
        is_solarized(&t),
{
    Theme {
        name: "solarized".to_string(),
        description: "Solarized Dark theme".to_string(),
        primary: ThemeColor::Rgb(Rgba::from_rgb_int(0x268bd2)),
        secondary: ThemeColor::Rgb(Rgba::from_rgb_int(0x2aa198)),
        tertiary: ThemeColor::Rgb(Rgba::from_rgb_int(0x859900)),
        accent: ThemeColor::Rgb(Rgba::from_rgb_int(0xcb4b16)),
        success: ThemeColor::Rgb(Rgba::from_rgb_int(0x859900)),
        warning: ThemeColor::Rgb(Rgba::from_rgb_int(0xb58900)),
        error: ThemeColor::Rgb(Rgba::from_rgb_int(0xdc322f)),
        info: ThemeColor::Rgb(Rgba::from_rgb_int(0x268bd2)),
        text: ThemeColor::Rgb(Rgba::from_rgb_int(0x839496)),
        text_muted: ThemeColor::Rgb(Rgba::from_rgb_int(0x586e75)),
        text_dim: ThemeColor::Rgb(Rgba::from_rgb_int(0x586e75)),
        text_disabled: ThemeColor::Rgb(Rgba::from_rgb_int(0x073642)),
        text_bright: ThemeColor::Rgb(Rgba::from_rgb_int(0x93a1a1)),
        background: ThemeColor::Rgb(Rgba::from_rgb_int(0x002b36)),
        background_muted: ThemeColor::Rgb(Rgba::from_rgb_int(0x073642)),
        surface: ThemeColor::Rgb(Rgba::from_rgb_int(0x073642)),
        overlay: ThemeColor::Rgb(Rgba::from_rgb_int(0x002b36)),
        border: ThemeColor::Rgb(Rgba::from_rgb_int(0x586e75)),
        border_focus: ThemeColor::Rgb(Rgba::from_rgb_int(0x268bd2)),
    }
}

/// The colors of the `catppuccin` preset.
pub open spec fn is_catppuccin(t: &Theme) -> bool {
    &&& t.name@ == "catppuccin"@
    &&& t.description@ == "Catppuccin Mocha theme"@
    &&& t.primary.view_color() == ThemeColorView::Rgb(rgb_int_color(0x89b4fa))
    &&& t.secondary.view_color() == ThemeColorView::Rgb(rgb_int_color(0xcba6f7))
    &&& t.tertiary.view_color() == ThemeColorView::Rgb(rgb_int_color(0x94e2d5))
    &&& t.accent.view_color() == ThemeColorView::Rgb(rgb_int_color(0xf9e2af))
    &&& t.success.view_color() == ThemeColorView::Rgb(rgb_int_color(0xa6e3a1))
    &&& t.warning.view_color() == ThemeColorView::Rgb(rgb_int_color(0xf9e2af))
    &&& t.error.view_color() == ThemeColorView::Rgb(rgb_int_color(0xf38ba8))
    &&& t.info.view_color() == ThemeColorView::Rgb(rgb_int_color(0x89dceb))
    &&& t.text.view_color() == ThemeColorView::Rgb(rgb_int_color(0xcdd6f4))
    &&& t.text_muted.view_color() == ThemeColorView::Rgb(rgb_int_color(0x6c7086))
    &&& t.text_dim.view_color() == ThemeColorView::Rgb(rgb_int_color(0x585b70))
    &&& t.text_disabled.view_color() == ThemeColorView::Rgb(rgb_int_color(0x45475a))
    &&& t.text_bright.view_color() == ThemeColorView::Rgb(rgb_int_color(0xffffff))
    &&& t.background.view_color() == ThemeColorView::Rgb(rgb_int_color(0x1e1e2e))
    &&& t.background_muted.view_color() == ThemeColorView::Rgb(rgb_int_color(0x313244))
    &&& t.surface.view_color() == ThemeColorView::Rgb(rgb_int_color(0x45475a))
    &&& t.overlay.view_color() == ThemeColorView::Rgb(rgb_int_color(0x181825))
    &&& t.border.view_color() == ThemeColorView::Rgb(rgb_int_color(0x6c7086))
    &&& t.border_focus.view_color() == ThemeColorView::Rgb(rgb_int_color(0x89b4fa))
}

/// Catppuccin Mocha - soothing pastel theme (most popular variant).
pub fn catppuccin() -> (t: Theme)
    ensures
        is_catppuccin(&t),
{
    Theme {
        name: "catppuccin".to_string(),
        description: "Catppuccin Mocha theme".to_string(),
        primary: ThemeColor::Rgb(Rgba::from_rgb_int(0x89b4fa)),
        secondary: ThemeColor::Rgb(Rgba::from_rgb_int(0xcba6f7)),
        tertiary: ThemeColor::Rgb(Rgba::from_rgb_int(0x94e2d5)),
        accent: ThemeColor::Rgb(Rgba::from_rgb_int(0xf9e2af)),
        success: ThemeColor::Rgb(Rgba::from_rgb_int(0xa6e3a1)),
        warning: ThemeColor::Rgb(Rgba::from_rgb_int(0xf9e2af)),
        error: ThemeColor::Rgb(Rgba::from_rgb_int(0xf38ba8)),
        info: ThemeColor::Rgb(Rgba::from_rgb_int(0x89dceb)),
        text: ThemeColor::Rgb(Rgba::from_rgb_int(0xcdd6f4)),
        text_muted: ThemeColor::Rgb(Rgba::from_rgb_int(0x6c7086)),
        text_dim: ThemeColor::Rgb(Rgba::from_rgb_int(0x585b70)),
        text_disabled: ThemeColor::Rgb(Rgba::from_rgb_int(0x45475a)),
        text_bright: ThemeColor::Rgb(Rgba::from_rgb_int(0xffffff)),
        background: ThemeColor::Rgb(Rgba::from_rgb_int(0x1e1e2e)),
        background_muted: ThemeColor::Rgb(Rgba::from_rgb_int(0x313244)),
        surface: ThemeColor::Rgb(Rgba::from_rgb_int(0x45475a)),
        overlay: ThemeColor::Rgb(Rgba::from_rgb_int(0x181825)),
        border: ThemeColor::Rgb(Rgba::from_rgb_int(0x6c7086)),
        border_focus: ThemeColor::Rgb(Rgba::from_rgb_int(0x89b4fa)),
    }
}

/// The colors of the `gruvbox` preset.
pub open spec fn is_gruvbox(t: &Theme) -> bool {
    &&& t.name@ == "gruvbox"@
    &&& t.description@ == "Gruvbox Dark theme"@
    &&& t.primary.view_color() == ThemeColorView::Rgb(rgb_int_color(0x458588))
    &&& t.secondary.view_color() == ThemeColorView::Rgb(rgb_int_color(0xb16286))
    &&& t.tertiary.view_color() == ThemeColorView::Rgb(rgb_int_color(0x689d6a))
    &&& t.accent.view_color() == ThemeColorView::Rgb(rgb_int_color(0xd79921))
    &&& t.success.view_color() == ThemeColorView::Rgb(rgb_int_color(0x98971a))
    &&& t.warning.view_color() == ThemeColorView::Rgb(rgb_int_color(0xd79921))
    &&& t.error.view_color() == ThemeColorView::Rgb(rgb_int_color(0xcc241d))
    &&& t.info.view_color() == ThemeColorView::Rgb(rgb_int_color(0x458588))
    &&& t.text.view_color() == ThemeColorView::Rgb(rgb_int_color(0xebdbb2))
    &&& t.text_muted.view_color() == ThemeColorView::Rgb(rgb_int_color(0xa89984))
    &&& t.text_dim.view_color() == ThemeColorView::Rgb(rgb_int_color(0x928374))
    &&& t.text_disabled.view_color() == ThemeColorView::Rgb(rgb_int_color(0x665c54))
    &&& t.text_bright.view_color() == ThemeColorView::Rgb(rgb_int_color(0xfbf1c7))
    &&& t.background.view_color() == ThemeColorView::Rgb(rgb_int_color(0x282828))
    &&& t.background_muted.view_color() == ThemeColorView::Rgb(rgb_int_color(0x3c3836))
    &&& t.surface.view_color() == ThemeColorView::Rgb(rgb_int_color(0x504945))
    &&& t.overlay.view_color() == ThemeColorView::Rgb(rgb_int_color(0x1d2021))
    &&& t.border.view_color() == ThemeColorView::Rgb(rgb_int_color(0x665c54))
    &&& t.border_focus.view_color() == ThemeColorView::Rgb(rgb_int_color(0xfe8019))
}

/// Gruvbox Dark - retro groove color scheme.
pub fn gruvbox() -> (t: Theme)
    ensures
        is_gruvbox(&t),
{
    Theme {
        name: "gruvbox".to_string(),
        description: "Gruvbox Dark theme".to_string(),
        primary: ThemeColor::Rgb(Rgba::from_rgb_int(0x458588)),
        secondary: ThemeColor::Rgb(Rgba::from_rgb_int(0xb16286)),
        tertiary: ThemeColor::Rgb(Rgba::from_rgb_int(0x689d6a)),
        accent: ThemeColor::Rgb(Rgba::from_rgb_int(0xd79921)),
        success: ThemeColor::Rgb(Rgba::from_rgb_int(0x98971a)),
        warning: ThemeColor::Rgb(Rgba::from_rgb_int(0xd79921)),
        error: ThemeColor::Rgb(Rgba::from_rgb_int(0xcc241d)),
        info: ThemeColor::Rgb(Rgba::from_rgb_int(0x458588)),
        text: ThemeColor::Rgb(Rgba::from_rgb_int(0xebdbb2)),
        text_muted: ThemeColor::Rgb(Rgba::from_rgb_int(0xa89984)),
        text_dim: ThemeColor::Rgb(Rgba::from_rgb_int(0x928374)),
        text_disabled: ThemeColor::Rgb(Rgba::from_rgb_int(0x665c54)),
        text_bright: ThemeColor::Rgb(Rgba::from_rgb_int(0xfbf1c7)),
        background: ThemeColor::Rgb(Rgba::from_rgb_int(0x282828)),
        background_muted: ThemeColor::Rgb(Rgba::from_rgb_int(0x3c3836)),
        surface: ThemeColor::Rgb(Rgba::from_rgb_int(0x504945)),
        overlay: ThemeColor::Rgb(Rgba::from_rgb_int(0x1d2021)),
        border: ThemeColor::Rgb(Rgba::from_rgb_int(0x665c54)),
        border_focus: ThemeColor::Rgb(Rgba::from_rgb_int(0xfe8019)),
    }
}

/// The colors of the `tokyo_night` preset.
pub open spec fn is_tokyo_night(t: &Theme) -> bool {
    &&& t.name@ == "tokyoNight"@
    &&& t.description@ == "Tokyo Night theme"@
    &&& t.primary.view_color() == ThemeColorView::Rgb(rgb_int_color(0x7aa2f7))
    &&& t.secondary.view_color() == ThemeColorView::Rgb(rgb_int_color(0xbb9af7))
    &&& t.tertiary.view_color() == ThemeColorView::Rgb(rgb_int_color(0x7dcfff))
    &&& t.accent.view_color() == ThemeColorView::Rgb(rgb_int_color(0xe0af68))
    &&& t.success.view_color() == ThemeColorView::Rgb(rgb_int_color(0x9ece6a))
    &&& t.warning.view_color() == ThemeColorView::Rgb(rgb_int_color(0xe0af68))
    &&& t.error.view_color() == ThemeColorView::Rgb(rgb_int_color(0xf7768e))
    &&& t.info.view_color() == ThemeColorView::Rgb(rgb_int_color(0x7dcfff))
    &&& t.text.view_color() == ThemeColorView::Rgb(rgb_int_color(0xa9b1d6))
    &&& t.text_muted.view_color() == ThemeColorView::Rgb(rgb_int_color(0x565f89))
    &&& t.text_dim.view_color() == ThemeColorView::Rgb(rgb_int_color(0x414868))
    &&& t.text_disabled.view_color() == ThemeColorView::Rgb(rgb_int_color(0x3b4261))
    &&& t.text_bright.view_color() == ThemeColorView::Rgb(rgb_int_color(0xc0caf5))
    &&& t.background.view_color() == ThemeColorView::Rgb(rgb_int_color(0x1a1b26))
    &&& t.background_muted.view_color() == ThemeColorView::Rgb(rgb_int_color(0x24283b))
    &&& t.surface.view_color() == ThemeColorView::Rgb(rgb_int_color(0x414868))
    &&& t.overlay.view_color() == ThemeColorView::Rgb(rgb_int_color(0x16161e))
    &&& t.border.view_color() == ThemeColorView::Rgb(rgb_int_color(0x414868))
    &&& t.border_focus.view_color() == ThemeColorView::Rgb(rgb_int_color(0x7aa2f7))
}

/// Tokyo Night - clean, dark theme inspired by Tokyo city lights.
pub fn tokyo_night() -> (t: Theme)
    ensures
        is_tokyo_night(&t),
{
    Theme {
        name: "tokyoNight".to_string(),
        description: "Tokyo Night theme".to_string(),
        primary: ThemeColor::Rgb(Rgba::from_rgb_int(0x7aa2f7)),
        secondary: ThemeColor::Rgb(Rgba::from_rgb_int(0xbb9af7)),
        tertiary: ThemeColor::Rgb(Rgba::from_rgb_int(0x7dcfff)),
        accent: ThemeColor::Rgb(Rgba::from_rgb_int(0xe0af68)),
        success: ThemeColor::Rgb(Rgba::from_rgb_int(0x9ece6a)),
        warning: ThemeColor::Rgb(Rgba::from_rgb_int(0xe0af68)),
        error: ThemeColor::Rgb(Rgba::from_rgb_int(0xf7768e)),
        info: ThemeColor::Rgb(Rgba::from_rgb_int(0x7dcfff)),
        text: ThemeColor::Rgb(Rgba::from_rgb_int(0xa9b1d6)),
        text_muted: ThemeColor::Rgb(Rgba::from_rgb_int(0x565f89)),
        text_dim: ThemeColor::Rgb(Rgba::from_rgb_int(0x414868)),
        text_disabled: ThemeColor::Rgb(Rgba::from_rgb_int(0x3b4261)),
        text_bright: ThemeColor::Rgb(Rgba::from_rgb_int(0xc0caf5)),
        background: ThemeColor::Rgb(Rgba::from_rgb_int(0x1a1b26)),
        background_muted: ThemeColor::Rgb(Rgba::from_rgb_int(0x24283b)),
        surface: ThemeColor::Rgb(Rgba::from_rgb_int(0x414868)),
        overlay: ThemeColor::Rgb(Rgba::from_rgb_int(0x16161e)),
        border: ThemeColor::Rgb(Rgba::from_rgb_int(0x414868)),
        border_focus: ThemeColor::Rgb(Rgba::from_rgb_int(0x7aa2f7)),
    }
}

/// The colors of the `one_dark` preset.
pub open spec fn is_one_dark(t: &Theme) -> bool {
    &&& t.name@ == "oneDark"@
    &&& t.description@ == "One Dark (Atom) theme"@
    &&& t.primary.view_color() == ThemeColorView::Rgb(rgb_int_color(0x61afef))
    &&& t.secondary.view_color() == ThemeColorView::Rgb(rgb_int_color(0xc678dd))
    &&& t.tertiary.view_color() == ThemeColorView::Rgb(rgb_int_color(0x56b6c2))
    &&& t.accent.view_color() == ThemeColorView::Rgb(rgb_int_color(0xe5c07b))
    &&& t.success.view_color() == ThemeColorView::Rgb(rgb_int_color(0x98c379))
    &&& t.warning.view_color() == ThemeColorView::Rgb(rgb_int_color(0xe5c07b))
    &&& t.error.view_color() == ThemeColorView::Rgb(rgb_int_color(0xe06c75))
    &&& t.info.view_color() == ThemeColorView::Rgb(rgb_int_color(0x56b6c2))
    &&& t.text.view_color() == ThemeColorView::Rgb(rgb_int_color(0xabb2bf))
    &&& t.text_muted.view_color() == ThemeColorView::Rgb(rgb_int_color(0x5c6370))
    &&& t.text_dim.view_color() == ThemeColorView::Rgb(rgb_int_color(0x4b5263))
    &&& t.text_disabled.view_color() == ThemeColorView::Rgb(rgb_int_color(0x3e4451))
    &&& t.text_bright.view_color() == ThemeColorView::Rgb(rgb_int_color(0xffffff))
    &&& t.background.view_color() == ThemeColorView::Rgb(rgb_int_color(0x282c34))
    &&& t.background_muted.view_color() == ThemeColorView::Rgb(rgb_int_color(0x21252b))
    &&& t.surface.view_color() == ThemeColorView::Rgb(rgb_int_color(0x3e4451))
    &&& t.overlay.view_color() == ThemeColorView::Rgb(rgb_int_color(0x1e2127))
    &&& t.border.view_color() == ThemeColorView::Rgb(rgb_int_color(0x3e4451))
    &&& t.border_focus.view_color() == ThemeColorView::Rgb(rgb_int_color(0x61afef))
}

/// One Dark - Atom's iconic dark theme.
pub fn one_dark() -> (t: Theme)
    ensures
        is_one_dark(&t),
{
    Theme {
        name: "oneDark".to_string(),
        description: "One Dark (Atom) theme".to_string(),
        primary: ThemeColor::Rgb(Rgba::from_rgb_int(0x61afef)),
        secondary: ThemeColor::Rgb(Rgba::from_rgb_int(0xc678dd)),
        tertiary: ThemeColor::Rgb(Rgba::from_rgb_int(0x56b6c2)),
        accent: ThemeColor::Rgb(Rgba::from_rgb_int(0xe5c07b)),
        success: ThemeColor::Rgb(Rgba::from_rgb_int(0x98c379)),
        warning: ThemeColor::Rgb(Rgba::from_rgb_int(0xe5c07b)),
        error: ThemeColor::Rgb(Rgba::from_rgb_int(0xe06c75)),
        info: ThemeColor::Rgb(Rgba::from_rgb_int(0x56b6c2)),
        text: ThemeColor::Rgb(Rgba::from_rgb_int(0xabb2bf)),
        text_muted: ThemeColor::Rgb(Rgba::from_rgb_int(0x5c6370)),
        text_dim: ThemeColor::Rgb(Rgba::from_rgb_int(0x4b5263)),
        text_disabled: ThemeColor::Rgb(Rgba::from_rgb_int(0x3e4451)),
        text_bright: ThemeColor::Rgb(Rgba::from_rgb_int(0xffffff)),
        background: ThemeColor::Rgb(Rgba::from_rgb_int(0x282c34)),
        background_muted: ThemeColor::Rgb(Rgba::from_rgb_int(0x21252b)),
        surface: ThemeColor::Rgb(Rgba::from_rgb_int(0x3e4451)),
        overlay: ThemeColor::Rgb(Rgba::from_rgb_int(0x1e2127)),
        border: ThemeColor::Rgb(Rgba::from_rgb_int(0x3e4451)),
        border_focus: ThemeColor::Rgb(Rgba::from_rgb_int(0x61afef)),
    }
}

/// The colors of the `rose_pine` preset.
pub open spec fn is_rose_pine(t: &Theme) -> bool {
    &&& t.name@ == "rosePine"@
    &&& t.description@ == "Rose Pine theme"@
    &&& t.primary.view_color() == ThemeColorView::Rgb(rgb_int_color(0x9ccfd8))
    &&& t.secondary.view_color() == ThemeColorView::Rgb(rgb_int_color(0xc4a7e7))
    &&& t.tertiary.view_color() == ThemeColorView::Rgb(rgb_int_color(0x31748f))
    &&& t.accent.view_color() == ThemeColorView::Rgb(rgb_int_color(0xf6c177))
    &&& t.success.view_color() == ThemeColorView::Rgb(rgb_int_color(0x31748f))
    &&& t.warning.view_color() == ThemeColorView::Rgb(rgb_int_color(0xf6c177))
    &&& t.error.view_color() == ThemeColorView::Rgb(rgb_int_color(0xeb6f92))
    &&& t.info.view_color() == ThemeColorView::Rgb(rgb_int_color(0x9ccfd8))
    &&& t.text.view_color() == ThemeColorView::Rgb(rgb_int_color(0xe0def4))
    &&& t.text_muted.view_color() == ThemeColorView::Rgb(rgb_int_color(0x908caa))
    &&& t.text_dim.view_color() == ThemeColorView::Rgb(rgb_int_color(0x6e6a86))
    &&& t.text_disabled.view_color() == ThemeColorView::Rgb(rgb_int_color(0x524f67))
    &&& t.text_bright.view_color() == ThemeColorView::Rgb(rgb_int_color(0xffffff))
    &&& t.background.view_color() == ThemeColorView::Rgb(rgb_int_color(0x191724))
    &&& t.background_muted.view_color() == ThemeColorView::Rgb(rgb_int_color(0x1f1d2e))
    &&& t.surface.view_color() == ThemeColorView::Rgb(rgb_int_color(0x26233a))
    &&& t.overlay.view_color() == ThemeColorView::Rgb(rgb_int_color(0x16141f))
    &&& t.border.view_color() == ThemeColorView::Rgb(rgb_int_color(0x524f67))
    &&& t.border_focus.view_color() == ThemeColorView::Rgb(rgb_int_color(0xebbcba))
}

/// Rose Pine - all natural pine, faux fur and a bit of soho vibes.
pub fn rose_pine() -> (t: Theme)
    ensures
        is_rose_pine(&t),
{
    Theme {
        name: "rosePine".to_string(),
        description: "Rose Pine theme".to_string(),
        primary: ThemeColor::Rgb(Rgba::from_rgb_int(0x9ccfd8)),
        secondary: ThemeColor::Rgb(Rgba::from_rgb_int(0xc4a7e7)),
        tertiary: ThemeColor::Rgb(Rgba::from_rgb_int(0x31748f)),
        accent: ThemeColor::Rgb(Rgba::from_rgb_int(0xf6c177)),
        success: ThemeColor::Rgb(Rgba::from_rgb_int(0x31748f)),
        warning: ThemeColor::Rgb(Rgba::from_rgb_int(0xf6c177)),
        error: ThemeColor::Rgb(Rgba::from_rgb_int(0xeb6f92)),
        info: ThemeColor::Rgb(Rgba::from_rgb_int(0x9ccfd8)),
        text: ThemeColor::Rgb(Rgba::from_rgb_int(0xe0def4)),
        text_muted: ThemeColor::Rgb(Rgba::from_rgb_int(0x908caa)),
        text_dim: ThemeColor::Rgb(Rgba::from_rgb_int(0x6e6a86)),
        text_disabled: ThemeColor::Rgb(Rgba::from_rgb_int(0x524f67)),
        text_bright: ThemeColor::Rgb(Rgba::from_rgb_int(0xffffff)),
        background: ThemeColor::Rgb(Rgba::from_rgb_int(0x191724)),
        background_muted: ThemeColor::Rgb(Rgba::from_rgb_int(0x1f1d2e)),
        surface: ThemeColor::Rgb(Rgba::from_rgb_int(0x26233a)),
        overlay: ThemeColor::Rgb(Rgba::from_rgb_int(0x16141f)),
        border: ThemeColor::Rgb(Rgba::from_rgb_int(0x524f67)),
        border_focus: ThemeColor::Rgb(Rgba::from_rgb_int(0xebbcba)),
    }
}

/// The colors of the `kanagawa` preset.
pub open spec fn is_kanagawa(t: &Theme) -> bool {
    &&& t.name@ == "kanagawa"@
    &&& t.description@ == "Kanagawa wave theme"@
    &&& t.primary.view_color() == ThemeColorView::Rgb(rgb_int_color(0x7e9cd8))
    &&& t.secondary.view_color() == ThemeColorView::Rgb(rgb_int_color(0x957fb8))
    &&& t.tertiary.view_color() == ThemeColorView::Rgb(rgb_int_color(0x7aa89f))
    &&& t.accent.view_color() == ThemeColorView::Rgb(rgb_int_color(0xdca561))
    &&& t.success.view_color() == ThemeColorView::Rgb(rgb_int_color(0x98bb6c))
    &&& t.warning.view_color() == ThemeColorView::Rgb(rgb_int_color(0xdca561))
    &&& t.error.view_color() == ThemeColorView::Rgb(rgb_int_color(0xc34043))
    &&& t.info.view_color() == ThemeColorView::Rgb(rgb_int_color(0x7fb4ca))
    &&& t.text.view_color() == ThemeColorView::Rgb(rgb_int_color(0xdcd7ba))
    &&& t.text_muted.view_color() == ThemeColorView::Rgb(rgb_int_color(0x727169))
    &&& t.text_dim.view_color() == ThemeColorView::Rgb(rgb_int_color(0x54546d))
    &&& t.text_disabled.view_color() == ThemeColorView::Rgb(rgb_int_color(0x363646))
    &&& t.text_bright.view_color() == ThemeColorView::Rgb(rgb_int_color(0xffffff))
    &&& t.background.view_color() == ThemeColorView::Rgb(rgb_int_color(0x1f1f28))
    &&& t.background_muted.view_color() == ThemeColorView::Rgb(rgb_int_color(0x2a2a37))
    &&& t.surface.view_color() == ThemeColorView::Rgb(rgb_int_color(0x363646))
    &&& t.overlay.view_color() == ThemeColorView::Rgb(rgb_int_color(0x16161d))
    &&& t.border.view_color() == ThemeColorView::Rgb(rgb_int_color(0x54546d))
    &&& t.border_focus.view_color() == ThemeColorView::Rgb(rgb_int_color(0x7e9cd8))
}

/// Kanagawa - theme inspired by Katsushika Hokusai's famous wave painting.
pub fn kanagawa() -> (t: Theme)
    ensures
        is_kanagawa(&t),
{
    Theme {
        name: "kanagawa".to_string(),
        description: "Kanagawa wave theme".to_string(),
        primary: ThemeColor::Rgb(Rgba::from_rgb_int(0x7e9cd8)),
        secondary: ThemeColor::Rgb(Rgba::from_rgb_int(0x957fb8)),
        tertiary: ThemeColor::Rgb(Rgba::from_rgb_int(0x7aa89f)),
        accent: ThemeColor::Rgb(Rgba::from_rgb_int(0xdca561)),
        success: ThemeColor::Rgb(Rgba::from_rgb_int(0x98bb6c)),
        warning: ThemeColor::Rgb(Rgba::from_rgb_int(0xdca561)),
        error: ThemeColor::Rgb(Rgba::from_rgb_int(0xc34043)),
        info: ThemeColor::Rgb(Rgba::from_rgb_int(0x7fb4ca)),
        text: ThemeColor::Rgb(Rgba::from_rgb_int(0xdcd7ba)),
        text_muted: ThemeColor::Rgb(Rgba::from_rgb_int(0x727169)),
        text_dim: ThemeColor::Rgb(Rgba::from_rgb_int(0x54546d)),
        text_disabled: ThemeColor::Rgb(Rgba::from_rgb_int(0x363646)),
        text_bright: ThemeColor::Rgb(Rgba::from_rgb_int(0xffffff)),
        background: ThemeColor::Rgb(Rgba::from_rgb_int(0x1f1f28)),
        background_muted: ThemeColor::Rgb(Rgba::from_rgb_int(0x2a2a37)),
        surface: ThemeColor::Rgb(Rgba::from_rgb_int(0x363646)),
        overlay: ThemeColor::Rgb(Rgba::from_rgb_int(0x16161d)),
        border: ThemeColor::Rgb(Rgba::from_rgb_int(0x54546d)),
        border_focus: ThemeColor::Rgb(Rgba::from_rgb_int(0x7e9cd8)),
    }
}

/// The colors of the `everforest` preset.
pub open spec fn is_everforest(t: &Theme) -> bool {
    &&& t.name@ == "everforest"@
    &&& t.description@ == "Everforest theme"@
    &&& t.primary.view_color() == ThemeColorView::Rgb(rgb_int_color(0x7fbbb3))
    &&& t.secondary.view_color() == ThemeColorView::Rgb(rgb_int_color(0xd699b6))
    &&& t.tertiary.view_color() == ThemeColorView::Rgb(rgb_int_color(0x83c092))
    &&& t.accent.view_color() == ThemeColorView::Rgb(rgb_int_color(0xdbbc7f))
    &&& t.success.view_color() == ThemeColorView::Rgb(rgb_int_color(0xa7c080))
    &&& t.warning.view_color() == ThemeColorView::Rgb(rgb_int_color(0xdbbc7f))
    &&& t.error.view_color() == ThemeColorView::Rgb(rgb_int_color(0xe67e80))
    &&& t.info.view_color() == ThemeColorView::Rgb(rgb_int_color(0x7fbbb3))
    &&& t.text.view_color() == ThemeColorView::Rgb(rgb_int_color(0xd3c6aa))
    &&& t.text_muted.view_color() == ThemeColorView::Rgb(rgb_int_color(0x9da9a0))
    &&& t.text_dim.view_color() == ThemeColorView::Rgb(rgb_int_color(0x859289))
    &&& t.text_disabled.view_color() == ThemeColorView::Rgb(rgb_int_color(0x5c6a72))
    &&& t.text_bright.view_color() == ThemeColorView::Rgb(rgb_int_color(0xfdf6e3))
    &&& t.background.view_color() == ThemeColorView::Rgb(rgb_int_color(0x2d353b))
    &&& t.background_muted.view_color() == ThemeColorView::Rgb(rgb_int_color(0x343f44))
    &&& t.surface.view_color() == ThemeColorView::Rgb(rgb_int_color(0x3d484d))
    &&& t.overlay.view_color() == ThemeColorView::Rgb(rgb_int_color(0x272e33))
    &&& t.border.view_color() == ThemeColorView::Rgb(rgb_int_color(0x5c6a72))
    &&& t.border_focus.view_color() == ThemeColorView::Rgb(rgb_int_color(0xa7c080))
}

/// Everforest - comfortable green-tinted theme.
pub fn everforest() -> (t: Theme)
    ensures
        is_everforest(&t),
{
    Theme {
        name: "everforest".to_string(),
        description: "Everforest theme".to_string(),
        primary: ThemeColor::Rgb(Rgba::from_rgb_int(0x7fbbb3)),
        secondary: ThemeColor::Rgb(Rgba::from_rgb_int(0xd699b6)),
        tertiary: ThemeColor::Rgb(Rgba::from_rgb_int(0x83c092)),
        accent: ThemeColor::Rgb(Rgba::from_rgb_int(0xdbbc7f)),
        success: ThemeColor::Rgb(Rgba::from_rgb_int(0xa7c080)),
        warning: ThemeColor::Rgb(Rgba::from_rgb_int(0xdbbc7f)),
        error: ThemeColor::Rgb(Rgba::from_rgb_int(0xe67e80)),
        info: ThemeColor::Rgb(Rgba::from_rgb_int(0x7fbbb3)),
        text: ThemeColor::Rgb(Rgba::from_rgb_int(0xd3c6aa)),
        text_muted: ThemeColor::Rgb(Rgba::from_rgb_int(0x9da9a0)),
        text_dim: ThemeColor::Rgb(Rgba::from_rgb_int(0x859289)),
        text_disabled: ThemeColor::Rgb(Rgba::from_rgb_int(0x5c6a72)),
        text_bright: ThemeColor::Rgb(Rgba::from_rgb_int(0xfdf6e3)),
        background: ThemeColor::Rgb(Rgba::from_rgb_int(0x2d353b)),
        background_muted: ThemeColor::Rgb(Rgba::from_rgb_int(0x343f44)),
        surface: ThemeColor::Rgb(Rgba::from_rgb_int(0x3d484d)),
        overlay: ThemeColor::Rgb(Rgba::from_rgb_int(0x272e33)),
        border: ThemeColor::Rgb(Rgba::from_rgb_int(0x5c6a72)),
        border_focus: ThemeColor::Rgb(Rgba::from_rgb_int(0xa7c080)),
    }
}

/// The colors of the `night_owl` preset.
pub open spec fn is_night_owl(t: &Theme) -> bool {
    &&& t.name@ == "nightOwl"@
    &&& t.description@ == "Night Owl theme"@
    &&& t.primary.view_color() == ThemeColorView::Rgb(rgb_int_color(0x82aaff))
    &&& t.secondary.view_color() == ThemeColorView::Rgb(rgb_int_color(0xc792ea))
    &&& t.tertiary.view_color() == ThemeColorView::Rgb(rgb_int_color(0x7fdbca))
    &&& t.accent.view_color() == ThemeColorView::Rgb(rgb_int_color(0xffcb6b))
    &&& t.success.view_color() == ThemeColorView::Rgb(rgb_int_color(0xaddb67))
    &&& t.warning.view_color() == ThemeColorView::Rgb(rgb_int_color(0xffcb6b))
    &&& t.error.view_color() == ThemeColorView::Rgb(rgb_int_color(0xef5350))
    &&& t.info.view_color() == ThemeColorView::Rgb(rgb_int_color(0x7fdbca))
    &&& t.text.view_color() == ThemeColorView::Rgb(rgb_int_color(0xd6deeb))
    &&& t.text_muted.view_color() == ThemeColorView::Rgb(rgb_int_color(0x637777))
    &&& t.text_dim.view_color() == ThemeColorView::Rgb(rgb_int_color(0x5f7e97))
    &&& t.text_disabled.view_color() == ThemeColorView::Rgb(rgb_int_color(0x3b4252))
    &&& t.text_bright.view_color() == ThemeColorView::Rgb(rgb_int_color(0xffffff))
    &&& t.background.view_color() == ThemeColorView::Rgb(rgb_int_color(0x011627))
    &&& t.background_muted.view_color() == ThemeColorView::Rgb(rgb_int_color(0x0b2942))
    &&& t.surface.view_color() == ThemeColorView::Rgb(rgb_int_color(0x1d3b53))
    &&& t.overlay.view_color() == ThemeColorView::Rgb(rgb_int_color(0x010e1a))
    &&& t.border.view_color() == ThemeColorView::Rgb(rgb_int_color(0x5f7e97))
    &&& t.border_focus.view_color() == ThemeColorView::Rgb(rgb_int_color(0x82aaff))
}

/// Night Owl - designed with accessibility in mind.
pub fn night_owl() -> (t: Theme)
    ensures
        is_night_owl(&t),
{
    Theme {
        name: "nightOwl".to_string(),
        description: "Night Owl theme".to_string(),
        primary: ThemeColor::Rgb(Rgba::from_rgb_int(0x82aaff)),
        secondary: ThemeColor::Rgb(Rgba::from_rgb_int(0xc792ea)),
        tertiary: ThemeColor::Rgb(Rgba::from_rgb_int(0x7fdbca)),
        accent: ThemeColor::Rgb(Rgba::from_rgb_int(0xffcb6b)),
        success: ThemeColor::Rgb(Rgba::from_rgb_int(0xaddb67)),
        warning: ThemeColor::Rgb(Rgba::from_rgb_int(0xffcb6b)),
        error: ThemeColor::Rgb(Rgba::from_rgb_int(0xef5350)),
        info: ThemeColor::Rgb(Rgba::from_rgb_int(0x7fdbca)),
        text: ThemeColor::Rgb(Rgba::from_rgb_int(0xd6deeb)),
        text_muted: ThemeColor::Rgb(Rgba::from_rgb_int(0x637777)),
        text_dim: ThemeColor::Rgb(Rgba::from_rgb_int(0x5f7e97)),
        text_disabled: ThemeColor::Rgb(Rgba::from_rgb_int(0x3b4252)),
        text_bright: ThemeColor::Rgb(Rgba::from_rgb_int(0xffffff)),
        background: ThemeColor::Rgb(Rgba::from_rgb_int(0x011627)),
        background_muted: ThemeColor::Rgb(Rgba::from_rgb_int(0x0b2942)),
        surface: ThemeColor::Rgb(Rgba::from_rgb_int(0x1d3b53)),
        overlay: ThemeColor::Rgb(Rgba::from_rgb_int(0x010e1a)),
        border: ThemeColor::Rgb(Rgba::from_rgb_int(0x5f7e97)),
        border_focus: ThemeColor::Rgb(Rgba::from_rgb_int(0x82aaff)),
    }
}

/// The lookup key of a preset name: lower case, underscores dropped.
pub open spec fn preset_key(name: Seq<char>) -> Seq<char> {
    lowercase_spec(name).filter(|c: char| c != '_')
}

/// Which preset a lookup key names, in `preset_names` order; -1 for none.
pub open spec fn preset_index(key: Seq<char>) -> int {
    if key.len() == 0 {
        -1
    } else if key == "terminal"@ {
        0
    } else if key == "dracula"@ {
        1
    } else if key == "nord"@ {
        2
    } else if key == "monokai"@ {
        3
    } else if key == "solarized"@ {
        4
    } else if key == "catppuccin"@ {
        5
    } else if key == "gruvbox"@ {
        6
    } else if key == "tokyonight"@ {
        7
    } else if key == "onedark"@ {
        8
    } else if key == "rosepine"@ {
        9
    } else if key == "kanagawa"@ {
        10
    } else if key == "everforest"@ {
        11
    } else if key == "nightowl"@ {
        12
    } else {
        -1
    }
}

/// Whether a character sequence equals a string literal.
fn chars_are(v: &Vec<char>, lit: &str) -> (b: bool)
    ensures
        b == (v@ == lit@),
{
    let l = str_chars(lit);
    crate::chars::chars_eq(v.as_slice(), l.as_slice())
}

/// The characters of `s` other than `_`, in order.
fn drop_underscores(s: &Vec<char>) -> (r: Vec<char>)
    ensures
        r@ == s@.filter(|c: char| c != '_'),
{
    let ghost p = |c: char| c != '_';
    let mut r: Vec<char> = Vec::new();
    let mut k: usize = 0;
    assert(s@.take(0).filter(p) =~= Seq::<char>::empty()) by {
        reveal(Seq::filter);
    }
    while k < s.len()
        invariant
            p == (|c: char| c != '_'),
            k <= s@.len(),
            r@ == s@.take(k as int).filter(p),
        decreases s.len() - k,
    {
        proof {
            reveal(Seq::filter);
            assert(s@.take(k + 1).drop_last() =~= s@.take(k as int));
            assert(s@.take(k + 1).last() == s@[k as int]);
        }
        if s[k] != '_' {
            r.push(s[k]);
        }
        k = k + 1;
    }
    assert(s@.take(s@.len() as int) =~= s@);
    r
}

/// The preset with the given name: case does not matter and underscores
/// are ignored (`tokyo_night`, `tokyoNight` and `TOKYONIGHT` are the same);
/// None for an unknown name.
pub fn get_preset(name: &str) -> (r: Option<Theme>)
    ensures
        preset_index(preset_key(name@)) == -1 ==> r is None,
        preset_index(preset_key(name@)) == 0 ==> (r matches Some(t) && is_terminal(&t)),
        preset_index(preset_key(name@)) == 1 ==> (r matches Some(t) && is_dracula(&t)),
        preset_index(preset_key(name@)) == 2 ==> (r matches Some(t) && is_nord(&t)),
        preset_index(preset_key(name@)) == 3 ==> (r matches Some(t) && is_monokai(&t)),
        preset_index(preset_key(name@)) == 4 ==> (r matches Some(t) && is_solarized(&t)),
        preset_index(preset_key(name@)) == 5 ==> (r matches Some(t) && is_catppuccin(&t)),
        preset_index(preset_key(name@)) == 6 ==> (r matches Some(t) && is_gruvbox(&t)),
        preset_index(preset_key(name@)) == 7 ==> (r matches Some(t) && is_tokyo_night(&t)),
        preset_index(preset_key(name@)) == 8 ==> (r matches Some(t) && is_one_dark(&t)),
        preset_index(preset_key(name@)) == 9 ==> (r matches Some(t) && is_rose_pine(&t)),
        preset_index(preset_key(name@)) == 10 ==> (r matches Some(t) && is_kanagawa(&t)),
        preset_index(preset_key(name@)) == 11 ==> (r matches Some(t) && is_everforest(&t)),
        preset_index(preset_key(name@)) == 12 ==> (r matches Some(t) && is_night_owl(&t)),
{
    proof {
        reveal_strlit("terminal");
        reveal_strlit("dracula");
        reveal_strlit("nord");
        reveal_strlit("monokai");
        reveal_strlit("solarized");
        reveal_strlit("catppuccin");
        reveal_strlit("gruvbox");
        reveal_strlit("tokyonight");
        reveal_strlit("onedark");
        reveal_strlit("rosepine");
        reveal_strlit("kanagawa");
        reveal_strlit("everforest");
        reveal_strlit("nightowl");
    }
    let lower = str_to_lowercase(name);
    let lower_chars = str_chars(lower.as_str());
    let key = drop_underscores(&lower_chars);
    if chars_are(&key, "terminal") {
        Some(terminal())
    } else if chars_are(&key, "dracula") {
        Some(dracula())
    } else if chars_are(&key, "nord") {
        Some(nord())
    } else if chars_are(&key, "monokai") {
        Some(monokai())
    } else if chars_are(&key, "solarized") {
        Some(solarized())
    } else if chars_are(&key, "catppuccin") {
        Some(catppuccin())
    } else if chars_are(&key, "gruvbox") {
        Some(gruvbox())
    } else if chars_are(&key, "tokyonight") {
        Some(tokyo_night())
    } else if chars_are(&key, "onedark") {
        Some(one_dark())
    } else if chars_are(&key, "rosepine") {
        Some(rose_pine())
    } else if chars_are(&key, "kanagawa") {
        Some(kanagawa())
    } else if chars_are(&key, "everforest") {
        Some(everforest())
    } else if chars_are(&key, "nightowl") {
        Some(night_owl())
    } else {
        None
    }
}

/// A sequence without `_` is kept whole by dropping underscores.
proof fn lemma_no_underscore_kept(s: Seq<char>)
    requires
        forall|i: int| 0 <= i < s.len() ==> s[i] != '_',
    ensures
        s.filter(|c: char| c != '_') == s,
    decreases s.len(),
{
    reveal(Seq::filter);
    if s.len() > 0 {
        lemma_no_underscore_kept(s.drop_last());
        assert(s.drop_last().push(s.last()) =~= s);
    }
}

/// The lookup key of an ASCII name without underscores is its lower-case
/// form, given character by character.
proof fn lemma_key_of(name: Seq<char>, key: Seq<char>)
    requires
        forall|i: int| 0 <= i < name.len() ==> (name[i] as u32) < 128,
        name.len() == key.len(),
        forall|i: int| 0 <= i < name.len() ==> crate::chars::ascii_lower(#[trigger] name[i]) == key[i] && key[i] != '_',
    ensures
        preset_key(name) == key,
{
    assert(lowercase_spec(name) =~= key);
    lemma_no_underscore_kept(key);
}

/// Every name `preset_names` lists finds its preset: the lookup key of the
/// `k`-th name is the `k`-th preset's.
pub proof fn lemma_preset_names_resolve()
    ensures
        preset_index(preset_key("terminal"@)) == 0,
        preset_index(preset_key("dracula"@)) == 1,
        preset_index(preset_key("nord"@)) == 2,
        preset_index(preset_key("monokai"@)) == 3,
        preset_index(preset_key("solarized"@)) == 4,
        preset_index(preset_key("catppuccin"@)) == 5,
        preset_index(preset_key("gruvbox"@)) == 6,
        preset_index(preset_key("tokyoNight"@)) == 7,
        preset_index(preset_key("oneDark"@)) == 8,
        preset_index(preset_key("rosePine"@)) == 9,
        preset_index(preset_key("kanagawa"@)) == 10,
        preset_index(preset_key("everforest"@)) == 11,
        preset_index(preset_key("nightOwl"@)) == 12,
{
    reveal_strlit("terminal");
    reveal_strlit("dracula");
    reveal_strlit("nord");
    reveal_strlit("monokai");
    reveal_strlit("solarized");
    reveal_strlit("catppuccin");
    reveal_strlit("gruvbox");
    reveal_strlit("tokyoNight");
    reveal_strlit("tokyonight");
    reveal_strlit("oneDark");
    reveal_strlit("onedark");
    reveal_strlit("rosePine");
    reveal_strlit("rosepine");
    reveal_strlit("kanagawa");
    reveal_strlit("everforest");
    reveal_strlit("nightOwl");
    reveal_strlit("nightowl");
    lemma_key_of("terminal"@, "terminal"@);
    lemma_key_of("dracula"@, "dracula"@);
    lemma_key_of("nord"@, "nord"@);
    lemma_key_of("monokai"@, "monokai"@);
    lemma_key_of("solarized"@, "solarized"@);
    lemma_key_of("catppuccin"@, "catppuccin"@);
    lemma_key_of("gruvbox"@, "gruvbox"@);
    lemma_key_of("tokyoNight"@, "tokyonight"@);
    lemma_key_of("oneDark"@, "onedark"@);
    lemma_key_of("rosePine"@, "rosepine"@);
    lemma_key_of("kanagawa"@, "kanagawa"@);
    lemma_key_of("everforest"@, "everforest"@);
    lemma_key_of("nightOwl"@, "nightowl"@);
    assert("monokai"@ != "dracula"@) by {
        assert("monokai"@[0] != "dracula"@[0]);
    }
    assert("gruvbox"@ != "dracula"@) by {
        assert("gruvbox"@[0] != "dracula"@[0]);
    }
    assert("onedark"@ != "dracula"@) by {
        assert("onedark"@[0] != "dracula"@[0]);
    }
    assert("gruvbox"@ != "monokai"@) by {
        assert("gruvbox"@[0] != "monokai"@[0]);
    }
    assert("onedark"@ != "monokai"@) by {
        assert("onedark"@[0] != "monokai"@[0]);
    }
    assert("onedark"@ != "gruvbox"@) by {
        assert("onedark"@[0] != "gruvbox"@[0]);
    }
    assert("rosepine"@ != "terminal"@) by {
        assert("rosepine"@[0] != "terminal"@[0]);
    }
    assert("kanagawa"@ != "terminal"@) by {
        assert("kanagawa"@[0] != "terminal"@[0]);
    }
    assert("nightowl"@ != "terminal"@) by {
        assert("nightowl"@[0] != "terminal"@[0]);
    }
    assert("kanagawa"@ != "rosepine"@) by {
        assert("kanagawa"@[0] != "rosepine"@[0]);
    }
    assert("nightowl"@ != "rosepine"@) by {
        assert("nightowl"@[0] != "rosepine"@[0]);
    }
    assert("nightowl"@ != "kanagawa"@) by {
        assert("nightowl"@[0] != "kanagawa"@[0]);
    }
    assert("tokyonight"@ != "catppuccin"@) by {
        assert("tokyonight"@[0] != "catppuccin"@[0]);
    }
    assert("everforest"@ != "catppuccin"@) by {
        assert("everforest"@[0] != "catppuccin"@[0]);
    }
    assert("everforest"@ != "tokyonight"@) by {
        assert("everforest"@[0] != "tokyonight"@[0]);
    }
}

/// The names of the presets.
pub fn preset_names() -> (v: Vec<&'static str>)
    ensures
        v@.len() == 13,
        v@[0]@ == "terminal"@,
        v@[1]@ == "dracula"@,
        v@[2]@ == "nord"@,
        v@[3]@ == "monokai"@,
        v@[4]@ == "solarized"@,
        v@[5]@ == "catppuccin"@,
        v@[6]@ == "gruvbox"@,
        v@[7]@ == "tokyoNight"@,
        v@[8]@ == "oneDark"@,
        v@[9]@ == "rosePine"@,
        v@[10]@ == "kanagawa"@,
        v@[11]@ == "everforest"@,
        v@[12]@ == "nightOwl"@,
{
    let mut v: Vec<&'static str> = Vec::new();
    v.push("terminal");
    v.push("dracula");
    v.push("nord");
    v.push("monokai");
    v.push("solarized");
    v.push("catppuccin");
    v.push("gruvbox");
    v.push("tokyoNight");
    v.push("oneDark");
    v.push("rosePine");
    v.push("kanagawa");
    v.push("everforest");
    v.push("nightOwl");
    v
}

} // verus!

verus! {

impl Default for Theme {
    /// The terminal theme.
    fn default() -> (t: Theme)
        ensures
            is_terminal(&t),
    {
        terminal()
    }
}

} // verus!
