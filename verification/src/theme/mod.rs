//! Themes: semantic colors given as ANSI indices, RGB values or color
//! strings, the built-in presets, and variant styles.

pub mod presets;
pub mod variant;

use vstd::prelude::*;
use crate::types::{Rgba, rgba, color_string_kind, ColorStringKind, from_hex_spec};
use crate::chars::trim_spec;
use crate::oklch_syntax::{OklchParts, oklch_parts_spec};

verus! {

broadcast use vstd::string::group_string_axioms;

/// A theme color: the terminal default, an ANSI palette index, an RGB
/// color, or a color string (resolved with `Rgba::parse`).
#[derive(Debug, Clone, PartialEq)]
pub enum ThemeColor {
    Default,
    Ansi(u8),
    Rgb(Rgba),
    Str(String),
}

/// A theme color as plain values.
pub enum ThemeColorView {
    Default,
    Ansi(u8),
    Rgb(Rgba),
    Str(Seq<char>),
}

/// Whether `c` is what a theme color resolves to, `oklch` converting the
/// parts of `oklch(...)` strings: the terminal default, the ANSI palette
/// color, the RGB color, or the parsed string, magenta when it does not
/// parse.
pub open spec fn resolves_to<F: Fn(&OklchParts) -> Option<Rgba>>(v: ThemeColorView, oklch: F, c: Rgba) -> bool {
    match v {
        ThemeColorView::Default => c == rgba(-1, -1, -1, -1),
        ThemeColorView::Ansi(i) => c == rgba(-2, i as int, 0, 255),
        ThemeColorView::Rgb(x) => c == x,
        ThemeColorView::Str(s) => match color_string_kind(s) {
            ColorStringKind::Empty => c == rgba(255, 0, 255, 255),
            ColorStringKind::Transparent => c == rgba(0, 0, 0, 0),
            ColorStringKind::TerminalDefault => c == rgba(-1, -1, -1, -1),
            ColorStringKind::Hex => c == match from_hex_spec(trim_spec(s)) {
                Some(x) => x,
                None => rgba(255, 0, 255, 255),
            },
            ColorStringKind::Oklch => match oklch_parts_spec(s) {
                Some(parts) => exists|p: &OklchParts, r: Option<Rgba>|
                    p@ == parts && #[trigger] call_ensures(oklch, (p,), r) && c == match r {
                        Some(x) => x,
                        None => rgba(255, 0, 255, 255),
                    },
                None => c == rgba(255, 0, 255, 255),
            },
            ColorStringKind::Unknown => c == rgba(255, 0, 255, 255),
        },
    }
}

impl ThemeColor {
    /// The color as plain values.
    pub open spec fn view_color(&self) -> ThemeColorView {
        match self {
            ThemeColor::Default => ThemeColorView::Default,
            ThemeColor::Ansi(i) => ThemeColorView::Ansi(*i),
            ThemeColor::Rgb(c) => ThemeColorView::Rgb(*c),
            ThemeColor::Str(s) => ThemeColorView::Str(s@),
        }
    }

    /// Resolve to a concrete color: the terminal default, the ANSI palette
    /// color, the RGB color, or the parsed string (magenta when it does not
    /// parse). `oklch` converts `oklch(...)` strings (see `Rgba::parse`).
    pub fn resolve<F: Fn(&OklchParts) -> Option<Rgba>>(&self, oklch: F) -> (c: Rgba)
        requires
            forall|p: &OklchParts| #[trigger] call_requires(oklch, (p,)),
        ensures
            resolves_to(self.view_color(), oklch, c),
    {
        match self {
            ThemeColor::Default => Rgba::TERMINAL_DEFAULT(),
            ThemeColor::Ansi(i) => Rgba::ansi(*i),
            ThemeColor::Rgb(c) => *c,
            ThemeColor::Str(s) => match Rgba::parse(s.as_str(), oklch) {
                Some(c) => c,
                None => Rgba::MAGENTA(),
            },
        }
    }

    /// Whether this is the terminal default.
    pub fn is_default(&self) -> (b: bool)
        ensures
            b == self.view_color() is Default,
    {
        match self {
            ThemeColor::Default => true,
            _ => false,
        }
    }

    /// Whether this is an ANSI palette color.
    pub fn is_ansi(&self) -> (b: bool)
        ensures
            b == self.view_color() is Ansi,
    {
        match self {
            ThemeColor::Ansi(_) => true,
            _ => false,
        }
    }

    /// Whether this is an RGB color.
    pub fn is_rgb(&self) -> (b: bool)
        ensures
            b == self.view_color() is Rgb,
    {
        match self {
            ThemeColor::Rgb(_) => true,
            _ => false,
        }
    }
}

impl Default for ThemeColor {
    fn default() -> (c: ThemeColor)
        ensures
            c.view_color() is Default,
    {
        ThemeColor::Default
    }
}

impl From<()> for ThemeColor {
    fn from(v: ()) -> (c: ThemeColor) {
        ThemeColor::Default
    }
}

impl vstd::std_specs::convert::FromSpecImpl<()> for ThemeColor {
    open spec fn obeys_from_spec() -> bool {
        true
    }

    open spec fn from_spec(v: ()) -> ThemeColor {
        ThemeColor::Default
    }
}

impl From<u8> for ThemeColor {
    fn from(index: u8) -> (c: ThemeColor) {
        ThemeColor::Ansi(index)
    }
}

impl vstd::std_specs::convert::FromSpecImpl<u8> for ThemeColor {
    open spec fn obeys_from_spec() -> bool {
        true
    }

    open spec fn from_spec(index: u8) -> ThemeColor {
        ThemeColor::Ansi(index)
    }
}

impl From<Rgba> for ThemeColor {
    fn from(color: Rgba) -> (c: ThemeColor) {
        ThemeColor::Rgb(color)
    }
}

impl vstd::std_specs::convert::FromSpecImpl<Rgba> for ThemeColor {
    open spec fn obeys_from_spec() -> bool {
        true
    }

    open spec fn from_spec(color: Rgba) -> ThemeColor {
        ThemeColor::Rgb(color)
    }
}

impl From<String> for ThemeColor {
    fn from(s: String) -> (c: ThemeColor) {
        ThemeColor::Str(s)
    }
}

impl vstd::std_specs::convert::FromSpecImpl<String> for ThemeColor {
    open spec fn obeys_from_spec() -> bool {
        true
    }

    open spec fn from_spec(s: String) -> ThemeColor {
        ThemeColor::Str(s)
    }
}

/// The RGB color of a 0xRRGGBB integer.
pub open spec fn rgb_int_color(rgb: u32) -> Rgba {
    rgba(((rgb / 0x10000) % 256) as int, ((rgb / 0x100) % 256) as int, (rgb % 256) as int, 255)
}

impl From<u32> for ThemeColor {
    fn from(rgb: u32) -> (c: ThemeColor) {
        ThemeColor::Rgb(Rgba::from_rgb_int(rgb))
    }
}

impl vstd::std_specs::convert::FromSpecImpl<u32> for ThemeColor {
    open spec fn obeys_from_spec() -> bool {
        true
    }

    open spec fn from_spec(rgb: u32) -> ThemeColor {
        ThemeColor::Rgb(rgb_int_color(rgb))
    }
}

impl From<Option<u32>> for ThemeColor {
    fn from(opt: Option<u32>) -> (c: ThemeColor) {
        match opt {
            None => ThemeColor::Default,
            Some(rgb) => ThemeColor::Rgb(Rgba::from_rgb_int(rgb)),
        }
    }
}

impl vstd::std_specs::convert::FromSpecImpl<Option<u32>> for ThemeColor {
    open spec fn obeys_from_spec() -> bool {
        true
    }

    open spec fn from_spec(opt: Option<u32>) -> ThemeColor {
        match opt {
            None => ThemeColor::Default,
            Some(rgb) => ThemeColor::Rgb(rgb_int_color(rgb)),
        }
    }
}

/// A theme color from a string slice.
pub fn theme_color_from_str(s: &str) -> (c: ThemeColor)
    ensures
        c.view_color() == ThemeColorView::Str(s@),
{
    ThemeColor::Str(s.to_string())
}

/// All semantic colors of a theme.
#[derive(Debug, Clone)]
pub struct Theme {
    pub name: String,
    pub description: String,
    pub primary: ThemeColor,
    pub secondary: ThemeColor,
    pub tertiary: ThemeColor,
    pub accent: ThemeColor,
    pub success: ThemeColor,
    pub warning: ThemeColor,
    pub error: ThemeColor,
    pub info: ThemeColor,
    pub text: ThemeColor,
    pub text_muted: ThemeColor,
    pub text_dim: ThemeColor,
    pub text_disabled: ThemeColor,
    pub text_bright: ThemeColor,
    pub background: ThemeColor,
    pub background_muted: ThemeColor,
    pub surface: ThemeColor,
    pub overlay: ThemeColor,
    pub border: ThemeColor,
    pub border_focus: ThemeColor,
}

impl Theme {
    /// Every color of the theme, in field order.
    pub open spec fn colors(&self) -> Seq<ThemeColorView> {
        seq![
            self.primary.view_color(),
            self.secondary.view_color(),
            self.tertiary.view_color(),
            self.accent.view_color(),
            self.success.view_color(),
            self.warning.view_color(),
            self.error.view_color(),
            self.info.view_color(),
            self.text.view_color(),
            self.text_muted.view_color(),
            self.text_dim.view_color(),
            self.text_disabled.view_color(),
            self.text_bright.view_color(),
            self.background.view_color(),
            self.background_muted.view_color(),
            self.surface.view_color(),
            self.overlay.view_color(),
            self.border.view_color(),
            self.border_focus.view_color(),
        ]
    }

    /// A theme with the given name and description, every color the
    /// terminal default.
    pub fn new(name: &str, description: &str) -> (t: Theme)
        ensures
            t.name@ == name@,
            t.description@ == description@,
            forall|k: int| 0 <= k < t.colors().len() ==> #[trigger] t.colors()[k] is Default,
    {
        Theme {
            name: name.to_string(),
            description: description.to_string(),
            primary: ThemeColor::Default,
            secondary: ThemeColor::Default,
            tertiary: ThemeColor::Default,
            accent: ThemeColor::Default,
            success: ThemeColor::Default,
            warning: ThemeColor::Default,
            error: ThemeColor::Default,
            info: ThemeColor::Default,
            text: ThemeColor::Default,
            text_muted: ThemeColor::Default,
            text_dim: ThemeColor::Default,
            text_disabled: ThemeColor::Default,
            text_bright: ThemeColor::Default,
            background: ThemeColor::Default,
            background_muted: ThemeColor::Default,
            surface: ThemeColor::Default,
            overlay: ThemeColor::Default,
            border: ThemeColor::Default,
            border_focus: ThemeColor::Default,
        }
    }
}

} // verus!
