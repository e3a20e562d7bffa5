//! Variants: named styles (foreground, background, borders) taken from the
//! resolved theme colors.

use vstd::prelude::*;
use crate::types::{Rgba, rgba};
use crate::chars::{str_chars, str_to_lowercase, lowercase_spec};
use super::{Theme, ThemeColor, resolves_to};
use crate::oklch_syntax::OklchParts;

verus! {

broadcast use vstd::string::group_string_axioms;

/// A style variant.
#[derive(Debug, Clone, Copy, PartialEq, Eq, Structural, Default)]
pub enum Variant {
    #[default]
    Default,
    Primary,
    Secondary,
    Tertiary,
    Accent,
    Success,
    Warning,
    Error,
    Info,
    Muted,
    Surface,
    Elevated,
    Ghosted,
    Outline,
}

/// Whether a character sequence equals a string literal.
fn chars_are(v: &Vec<char>, lit: &str) -> (b: bool)
    ensures
        b == (v@ == lit@),
{
    let l = str_chars(lit);
    crate::chars::chars_eq(v.as_slice(), l.as_slice())
}

/// The variant a lower-case name denotes.
pub open spec fn variant_named(lower: Seq<char>) -> Option<Variant> {
    if lower == "default"@ {
        Some(Variant::Default)
    } else if lower == "primary"@ {
        Some(Variant::Primary)
    } else if lower == "secondary"@ {
        Some(Variant::Secondary)
    } else if lower == "tertiary"@ {
        Some(Variant::Tertiary)
    } else if lower == "accent"@ {
        Some(Variant::Accent)
    } else if lower == "success"@ {
        Some(Variant::Success)
    } else if lower == "warning"@ {
        Some(Variant::Warning)
    } else if lower == "error"@ {
        Some(Variant::Error)
    } else if lower == "info"@ {
        Some(Variant::Info)
    } else if lower == "muted"@ {
        Some(Variant::Muted)
    } else if lower == "surface"@ {
        Some(Variant::Surface)
    } else if lower == "elevated"@ {
        Some(Variant::Elevated)
    } else if lower == "ghost"@ {
        Some(Variant::Ghosted)
    } else if lower == "outline"@ {
        Some(Variant::Outline)
    } else {
        None
    }
}

impl Variant {
    /// The variant with the given name, in any case.
    pub fn from_str(s: &str) -> (r: Option<Variant>)
        ensures
            r == variant_named(lowercase_spec(s@)),
    {
        let lower_string = str_to_lowercase(s);
        let lower = str_chars(lower_string.as_str());
        if chars_are(&lower, "default") {
            Some(Variant::Default)
        } else if chars_are(&lower, "primary") {
            Some(Variant::Primary)
        } else if chars_are(&lower, "secondary") {
            Some(Variant::Secondary)
        } else if chars_are(&lower, "tertiary") {
            Some(Variant::Tertiary)
        } else if chars_are(&lower, "accent") {
            Some(Variant::Accent)
        } else if chars_are(&lower, "success") {
            Some(Variant::Success)
        } else if chars_are(&lower, "warning") {
            Some(Variant::Warning)
        } else if chars_are(&lower, "error") {
            Some(Variant::Error)
        } else if chars_are(&lower, "info") {
            Some(Variant::Info)
        } else if chars_are(&lower, "muted") {
            Some(Variant::Muted)
        } else if chars_are(&lower, "surface") {
            Some(Variant::Surface)
        } else if chars_are(&lower, "elevated") {
            Some(Variant::Elevated)
        } else if chars_are(&lower, "ghost") {
            Some(Variant::Ghosted)
        } else if chars_are(&lower, "outline") {
            Some(Variant::Outline)
        } else {
            None
        }
    }

    /// Every variant, in declaration order.
    pub fn all() -> (v: Vec<Variant>)
        ensures
            v@ == seq![
                Variant::Default,
                Variant::Primary,
                Variant::Secondary,
                Variant::Tertiary,
                Variant::Accent,
                Variant::Success,
                Variant::Warning,
                Variant::Error,
                Variant::Info,
                Variant::Muted,
                Variant::Surface,
                Variant::Elevated,
                Variant::Ghosted,
                Variant::Outline,
            ],
    {
        let mut v: Vec<Variant> = Vec::new();
        v.push(Variant::Default);
        v.push(Variant::Primary);
        v.push(Variant::Secondary);
        v.push(Variant::Tertiary);
        v.push(Variant::Accent);
        v.push(Variant::Success);
        v.push(Variant::Warning);
        v.push(Variant::Error);
        v.push(Variant::Info);
        v.push(Variant::Muted);
        v.push(Variant::Surface);
        v.push(Variant::Elevated);
        v.push(Variant::Ghosted);
        v.push(Variant::Outline);
        v
    }
}

/// A resolved style: concrete colors.
#[derive(Debug, Clone, Copy, PartialEq, Eq, Structural)]
pub struct VariantStyle {
    pub fg: Rgba,
    pub bg: Rgba,
    pub border: Rgba,
    pub border_focus: Rgba,
}

/// A theme with every color resolved.
#[derive(Debug, Clone, Copy, PartialEq, Eq, Structural)]
pub struct ResolvedTheme {
    pub primary: Rgba,
    pub secondary: Rgba,
    pub tertiary: Rgba,
    pub accent: Rgba,
    pub success: Rgba,
    pub warning: Rgba,
    pub error: Rgba,
    pub info: Rgba,
    pub text: Rgba,
    pub text_muted: Rgba,
    pub text_dim: Rgba,
    pub text_disabled: Rgba,
    pub text_bright: Rgba,
    pub background: Rgba,
    pub background_muted: Rgba,
    pub surface: Rgba,
    pub overlay: Rgba,
    pub border: Rgba,
    pub border_focus: Rgba,
}

/// Resolve every color of a theme (see `ThemeColor::resolve`).
pub fn resolve_theme<F: Fn(&OklchParts) -> Option<Rgba> + Copy>(theme: &Theme, oklch: F) -> (r: ResolvedTheme)
    requires
        forall|p: &OklchParts| #[trigger] call_requires(oklch, (p,)),
    ensures
        resolves_to(theme.primary.view_color(), oklch, r.primary),
        resolves_to(theme.secondary.view_color(), oklch, r.secondary),
        resolves_to(theme.tertiary.view_color(), oklch, r.tertiary),
        resolves_to(theme.accent.view_color(), oklch, r.accent),
        resolves_to(theme.success.view_color(), oklch, r.success),
        resolves_to(theme.warning.view_color(), oklch, r.warning),
        resolves_to(theme.error.view_color(), oklch, r.error),
        resolves_to(theme.info.view_color(), oklch, r.info),
        resolves_to(theme.text.view_color(), oklch, r.text),
        resolves_to(theme.text_muted.view_color(), oklch, r.text_muted),
        resolves_to(theme.text_dim.view_color(), oklch, r.text_dim),
        resolves_to(theme.text_disabled.view_color(), oklch, r.text_disabled),
        resolves_to(theme.text_bright.view_color(), oklch, r.text_bright),
        resolves_to(theme.background.view_color(), oklch, r.background),
        resolves_to(theme.background_muted.view_color(), oklch, r.background_muted),
        resolves_to(theme.surface.view_color(), oklch, r.surface),
        resolves_to(theme.overlay.view_color(), oklch, r.overlay),
        resolves_to(theme.border.view_color(), oklch, r.border),
        resolves_to(theme.border_focus.view_color(), oklch, r.border_focus),
{
    ResolvedTheme {
        primary: theme.primary.resolve(oklch),
        secondary: theme.secondary.resolve(oklch),
        tertiary: theme.tertiary.resolve(oklch),
        accent: theme.accent.resolve(oklch),
        success: theme.success.resolve(oklch),
        warning: theme.warning.resolve(oklch),
        error: theme.error.resolve(oklch),
        info: theme.info.resolve(oklch),
        text: theme.text.resolve(oklch),
        text_muted: theme.text_muted.resolve(oklch),
        text_dim: theme.text_dim.resolve(oklch),
        text_disabled: theme.text_disabled.resolve(oklch),
        text_bright: theme.text_bright.resolve(oklch),
        background: theme.background.resolve(oklch),
        background_muted: theme.background_muted.resolve(oklch),
        surface: theme.surface.resolve(oklch),
        overlay: theme.overlay.resolve(oklch),
        border: theme.border.resolve(oklch),
        border_focus: theme.border_focus.resolve(oklch),
    }
}

/// Whether a color is special (ANSI or terminal default), so contrast cannot
/// be computed for it.
pub open spec fn is_special(c: Rgba) -> bool {
    c.r == -2 || c.r == -1
}

/// Whether `fg` is what contrast adjustment gives for `desired` on `bg`.
pub open spec fn contrast_fg_result<C: Fn(Rgba, Rgba) -> Option<Rgba>>(ensure_contrast: C, desired: Rgba, bg: Rgba, fg: Rgba) -> bool {
    &&& (is_special(bg) || is_special(desired)) ==> fg == desired
    &&& !(is_special(bg) || is_special(desired)) ==> exists|o: Option<Rgba>|
        #[trigger] call_ensures(ensure_contrast, (desired, bg), o) && fg == match o {
            Some(c) => c,
            None => desired,
        }
}

/// The foreground for a background: the desired one when either color is
/// special, else what `ensure_contrast` makes of it (which raises contrast
/// to at least 4.5, or gives None to keep the desired color).
pub fn get_contrast_fg<C: Fn(Rgba, Rgba) -> Option<Rgba>>(desired_fg: Rgba, bg: Rgba, ensure_contrast: &C) -> (fg: Rgba)
    requires
        forall|a: Rgba, b: Rgba| #[trigger] call_requires(*ensure_contrast, (a, b)),
    ensures
        contrast_fg_result(*ensure_contrast, desired_fg, bg, fg),
{
    if bg.is_ansi() || desired_fg.is_ansi() || bg.is_terminal_default() || desired_fg.is_terminal_default() {
        return desired_fg;
    }
    match ensure_contrast(desired_fg, bg) {
        Some(c) => c,
        None => desired_fg,
    }
}

/// The style of a variant: its background, border and focus border come
/// from the theme; colored variants take a foreground adjusted for
/// contrast against their background.
pub fn get_variant_style<C: Fn(Rgba, Rgba) -> Option<Rgba>>(variant: Variant, theme: &ResolvedTheme, ensure_contrast: &C) -> (s: VariantStyle)
    requires
        forall|a: Rgba, b: Rgba| #[trigger] call_requires(*ensure_contrast, (a, b)),
    ensures
        match variant {
            Variant::Primary => s.bg == theme.primary && s.border == theme.primary && s.border_focus == theme.accent,
            Variant::Secondary => s.bg == theme.secondary && s.border == theme.secondary && s.border_focus == theme.accent,
            Variant::Tertiary => s.bg == theme.tertiary && s.border == theme.tertiary && s.border_focus == theme.accent,
            Variant::Accent => s.bg == theme.accent && s.border == theme.accent && s.border_focus == theme.primary,
            Variant::Success => s.bg == theme.success && s.border == theme.success && s.border_focus == theme.accent,
            Variant::Warning => s.bg == theme.warning && s.border == theme.warning && s.border_focus == theme.accent,
            Variant::Error => s.bg == theme.error && s.border == theme.error && s.border_focus == theme.accent,
            Variant::Info => s.bg == theme.info && s.border == theme.info && s.border_focus == theme.accent,
            Variant::Muted => s == (VariantStyle {
                fg: theme.text_muted,
                bg: theme.surface,
                border: theme.border,
                border_focus: theme.border_focus,
            }),
            Variant::Surface => s == (VariantStyle {
                fg: theme.text,
                bg: theme.surface,
                border: theme.border,
                border_focus: theme.border_focus,
            }),
            Variant::Elevated => s.bg == theme.surface && s.border == theme.primary && s.border_focus
                == theme.border_focus,
            Variant::Ghosted => s == (VariantStyle {
                fg: theme.text,
                bg: rgba(-1, -1, -1, -1),
                border: rgba(-1, -1, -1, -1),
                border_focus: theme.border_focus,
            }),
            Variant::Outline => s == (VariantStyle {
                fg: theme.primary,
                bg: rgba(-1, -1, -1, -1),
                border: theme.primary,
                border_focus: theme.border_focus,
            }),
            Variant::Default => s == (VariantStyle {
                fg: theme.text,
                bg: theme.background,
                border: theme.border,
                border_focus: theme.border_focus,
            }),
        },
        ({
            let desired = match variant {
                Variant::Accent | Variant::Warning => rgba(0, 0, 0, 255),
                _ => theme.text_bright,
            };
            let contrasted = match variant {
                Variant::Muted | Variant::Surface | Variant::Ghosted | Variant::Outline | Variant::Default => false,
                _ => true,
            };
            contrasted ==> contrast_fg_result(*ensure_contrast, desired, s.bg, s.fg)
        }),
{
    match variant {
        Variant::Primary => VariantStyle {
            fg: get_contrast_fg(theme.text_bright, theme.primary, ensure_contrast),
            bg: theme.primary,
            border: theme.primary,
            border_focus: theme.accent,
        },
        Variant::Secondary => VariantStyle {
            fg: get_contrast_fg(theme.text_bright, theme.secondary, ensure_contrast),
            bg: theme.secondary,
            border: theme.secondary,
            border_focus: theme.accent,
        },
        Variant::Tertiary => VariantStyle {
            fg: get_contrast_fg(theme.text_bright, theme.tertiary, ensure_contrast),
            bg: theme.tertiary,
            border: theme.tertiary,
            border_focus: theme.accent,
        },
        Variant::Accent => VariantStyle {
            fg: get_contrast_fg(Rgba::BLACK(), theme.accent, ensure_contrast),
            bg: theme.accent,
            border: theme.accent,
            border_focus: theme.primary,
        },
        Variant::Success => VariantStyle {
            fg: get_contrast_fg(theme.text_bright, theme.success, ensure_contrast),
            bg: theme.success,
            border: theme.success,
            border_focus: theme.accent,
        },
        Variant::Warning => VariantStyle {
            fg: get_contrast_fg(Rgba::BLACK(), theme.warning, ensure_contrast),
            bg: theme.warning,
            border: theme.warning,
            border_focus: theme.accent,
        },
        Variant::Error => VariantStyle {
            fg: get_contrast_fg(theme.text_bright, theme.error, ensure_contrast),
            bg: theme.error,
            border: theme.error,
            border_focus: theme.accent,
        },
        Variant::Info => VariantStyle {
            fg: get_contrast_fg(theme.text_bright, theme.info, ensure_contrast),
            bg: theme.info,
            border: theme.info,
            border_focus: theme.accent,
        },
        Variant::Muted => VariantStyle {
            fg: theme.text_muted,
            bg: theme.surface,
            border: theme.border,
            border_focus: theme.border_focus,
        },
        Variant::Surface => VariantStyle {
            fg: theme.text,
            bg: theme.surface,
            border: theme.border,
            border_focus: theme.border_focus,
        },
        Variant::Elevated => VariantStyle {
            fg: get_contrast_fg(theme.text_bright, theme.surface, ensure_contrast),
            bg: theme.surface,
            border: theme.primary,
            border_focus: theme.border_focus,
        },
        Variant::Ghosted => VariantStyle {
            fg: theme.text,
            bg: Rgba::TERMINAL_DEFAULT(),
            border: Rgba::TERMINAL_DEFAULT(),
            border_focus: theme.border_focus,
        },
        Variant::Outline => VariantStyle {
            fg: theme.primary,
            bg: Rgba::TERMINAL_DEFAULT(),
            border: theme.primary,
            border_focus: theme.border_focus,
        },
        Variant::Default => VariantStyle {
            fg: theme.text,
            bg: theme.background,
            border: theme.border,
            border_focus: theme.border_focus,
        },
    }
}

} // verus!
