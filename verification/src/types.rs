//! Core types: colors, cells, clip rectangles and the layout enums.

use vstd::prelude::*;
use vstd::arithmetic::mul::lemma_mul_upper_bound;
use crate::oklch_syntax::{OklchParts, oklch_parts, oklch_parts_spec};
use crate::chars::{str_chars, trim_chars, strip_leading_char, trim_spec, strip_leading, string_from_chars, str_to_lowercase, lowercase_spec, chars_eq, chars_starts_with};

verus! {

// =============================================================================
// Color
// =============================================================================

/// RGBA color with 8-bit channels (0-255).
///
/// Integers are used for exact comparison. Alpha 255 = fully opaque, 0 = fully
/// transparent. Special values: r = -1 means "terminal default"; r = -2 marks
/// an ANSI palette color whose palette index is stored in g.
#[derive(Debug, Clone, Copy, PartialEq, Eq, Structural)]
pub struct Rgba {
    pub r: i16,
    pub g: i16,
    pub b: i16,
    pub a: i16,
}

/// The color whose four channels are given.
pub open spec fn rgba(r: int, g: int, b: int, a: int) -> Rgba {
    Rgba { r: r as i16, g: g as i16, b: b as i16, a: a as i16 }
}

/// Clamp an integer to the channel range 0..=255.
pub open spec fn clamp_channel(v: int) -> int {
    if v < 0 { 0 } else if v > 255 { 255 } else { v }
}

/// Porter-Duff "over" of src onto dst, computed on integers with
/// truncating division and the result clamped to 0..=255.
pub open spec fn blend_spec(src: Rgba, dst: Rgba) -> Rgba {
    if src.a == 255 || src.r == -1 || src.r == -2 {
        src
    } else if src.a == 0 {
        dst
    } else {
        let opaque_black = dst.r == -1 || dst.r == -2;
        let dr: int = if opaque_black { 0 } else { dst.r as int };
        let dg: int = if opaque_black { 0 } else { dst.g as int };
        let db: int = if opaque_black { 0 } else { dst.b as int };
        let da: int = if opaque_black { 255 } else { dst.a as int };
        let sa = src.a as int;
        let inv = 255 - sa;
        let out_a = sa + (da * inv) / 255;
        if out_a == 0 {
            rgba(0, 0, 0, 0)
        } else {
            rgba(
                clamp_channel((src.r * sa + dr * da * inv / 255) / out_a),
                clamp_channel((src.g * sa + dg * da * inv / 255) / out_a),
                clamp_channel((src.b * sa + db * da * inv / 255) / out_a),
                clamp_channel(out_a),
            )
        }
    }
}

/// The value of a hexadecimal digit (either case).
pub open spec fn hex_digit_value(c: char) -> Option<int> {
    if '0' <= c && c <= '9' {
        Some(c as int - '0' as int)
    } else if 'a' <= c && c <= 'f' {
        Some(c as int - 'a' as int + 10)
    } else if 'A' <= c && c <= 'F' {
        Some(c as int - 'A' as int + 10)
    } else {
        None
    }
}

/// The byte written by the two hex digits at positions i and i + 1.
pub open spec fn hex_pair_value(h: Seq<char>, i: int) -> Option<int> {
    match (hex_digit_value(h[i]), hex_digit_value(h[i + 1])) {
        (Some(hi), Some(lo)) => Some(hi * 16 + lo),
        _ => None,
    }
}

/// The hex digits of a color string: trimmed, leading `#`s dropped.
pub open spec fn hex_body(s: Seq<char>) -> Seq<char> {
    strip_leading(trim_spec(s), '#')
}

/// The color written by a hex string, if it is one.
pub open spec fn from_hex_spec(s: Seq<char>) -> Option<Rgba> {
    let h = hex_body(s);
    if h.len() == 3 {
        match (hex_digit_value(h[0]), hex_digit_value(h[1]), hex_digit_value(h[2])) {
            (Some(r), Some(g), Some(b)) => Some(rgba(r * 17, g * 17, b * 17, 255)),
            _ => None,
        }
    } else if h.len() == 6 {
        match (hex_pair_value(h, 0), hex_pair_value(h, 2), hex_pair_value(h, 4)) {
            (Some(r), Some(g), Some(b)) => Some(rgba(r, g, b, 255)),
            _ => None,
        }
    } else if h.len() == 8 {
        match (hex_pair_value(h, 0), hex_pair_value(h, 2), hex_pair_value(h, 4), hex_pair_value(h, 6)) {
            (Some(r), Some(g), Some(b), Some(a)) => Some(rgba(r, g, b, a)),
            _ => None,
        }
    } else {
        None
    }
}

/// Parse one hex digit.
fn hex_digit(c: char) -> (d: Option<u8>)
    ensures
        match hex_digit_value(c) {
            Some(v) => d == Some(v as u8) && v < 16,
            None => d is None,
        },
{
    if '0' <= c && c <= '9' {
        Some(((c as u32) - ('0' as u32)) as u8)
    } else if 'a' <= c && c <= 'f' {
        Some(((c as u32) - ('a' as u32) + 10) as u8)
    } else if 'A' <= c && c <= 'F' {
        Some(((c as u32) - ('A' as u32) + 10) as u8)
    } else {
        None
    }
}

/// Parse the two hex digits at positions i and i + 1.
fn hex_byte(h: &Vec<char>, i: usize) -> (b: Option<u8>)
    requires
        i + 1 < h@.len(),
    ensures
        match hex_pair_value(h@, i as int) {
            Some(v) => b == Some(v as u8) && v < 256,
            None => b is None,
        },
{
    let n = h.len();
    assert(i + 1 < n);
    let high = hex_digit(h[i])?;
    let low = hex_digit(h[i + 1])?;
    Some(high * 16 + low)
}

impl Rgba {
    /// A color that the blending rules accept: plain channels in 0..=255,
    /// the terminal default marker, or an ANSI palette marker.
    pub open spec fn is_well_formed(self) -> bool {
        ||| (0 <= self.r <= 255 && 0 <= self.g <= 255 && 0 <= self.b <= 255 && 0 <= self.a <= 255)
        ||| self.r == -1
        ||| (self.r == -2 && 0 <= self.a <= 255)
    }

    /// Create a new RGBA color.
    pub fn new(r: u8, g: u8, b: u8, a: u8) -> (c: Rgba)
        ensures
            c == rgba(r as int, g as int, b as int, a as int),
    {
        Rgba { r: r as i16, g: g as i16, b: b as i16, a: a as i16 }
    }

    /// Create an opaque RGB color.
    pub fn rgb(r: u8, g: u8, b: u8) -> (c: Rgba)
        ensures
            c == rgba(r as int, g as int, b as int, 255),
    {
        Rgba::new(r, g, b, 255)
    }

    /// Terminal default color (let terminal decide).
    #[allow(non_snake_case)]
    pub fn TERMINAL_DEFAULT() -> (c: Rgba)
        ensures
            c == rgba(-1, -1, -1, -1),
    {
        Rgba { r: -1, g: -1, b: -1, a: -1 }
    }

    /// Transparent color.
    #[allow(non_snake_case)]
    pub fn TRANSPARENT() -> (c: Rgba)
        ensures
            c == rgba(0, 0, 0, 0),
    {
        Rgba { r: 0, g: 0, b: 0, a: 0 }
    }

    /// Opaque black.
    #[allow(non_snake_case)]
    pub fn BLACK() -> (c: Rgba)
        ensures
            c == rgba(0, 0, 0, 255),
    {
        Rgba::rgb(0, 0, 0)
    }

    /// Opaque white.
    #[allow(non_snake_case)]
    pub fn WHITE() -> (c: Rgba)
        ensures
            c == rgba(255, 255, 255, 255),
    {
        Rgba::rgb(255, 255, 255)
    }

    /// Opaque red.
    #[allow(non_snake_case)]
    pub fn RED() -> (c: Rgba)
        ensures
            c == rgba(255, 0, 0, 255),
    {
        Rgba::rgb(255, 0, 0)
    }

    /// Opaque green.
    #[allow(non_snake_case)]
    pub fn GREEN() -> (c: Rgba)
        ensures
            c == rgba(0, 255, 0, 255),
    {
        Rgba::rgb(0, 255, 0)
    }

    /// Opaque blue.
    #[allow(non_snake_case)]
    pub fn BLUE() -> (c: Rgba)
        ensures
            c == rgba(0, 0, 255, 255),
    {
        Rgba::rgb(0, 0, 255)
    }

    /// Opaque yellow.
    #[allow(non_snake_case)]
    pub fn YELLOW() -> (c: Rgba)
        ensures
            c == rgba(255, 255, 0, 255),
    {
        Rgba::rgb(255, 255, 0)
    }

    /// Opaque cyan.
    #[allow(non_snake_case)]
    pub fn CYAN() -> (c: Rgba)
        ensures
            c == rgba(0, 255, 255, 255),
    {
        Rgba::rgb(0, 255, 255)
    }

    /// Opaque magenta.
    #[allow(non_snake_case)]
    pub fn MAGENTA() -> (c: Rgba)
        ensures
            c == rgba(255, 0, 255, 255),
    {
        Rgba::rgb(255, 0, 255)
    }

    /// Opaque mid gray.
    #[allow(non_snake_case)]
    pub fn GRAY() -> (c: Rgba)
        ensures
            c == rgba(128, 128, 128, 255),
    {
        Rgba::rgb(128, 128, 128)
    }

    /// Create an ANSI palette color (0-255): r = -2, g = palette index.
    pub fn ansi(index: u8) -> (c: Rgba)
        ensures
            c == rgba(-2, index as int, 0, 255),
    {
        Rgba { r: -2, g: index as i16, b: 0, a: 255 }
    }

    /// Check if this is the terminal default color.
    pub fn is_terminal_default(&self) -> (b: bool)
        ensures
            b == (self.r == -1),
    {
        self.r == -1
    }

    /// Check if this is an ANSI palette color.
    pub fn is_ansi(&self) -> (b: bool)
        ensures
            b == (self.r == -2),
    {
        self.r == -2
    }

    /// Get the ANSI palette index (meaningful when `is_ansi()` holds): the low
    /// byte of g.
    pub fn ansi_index(&self) -> (i: u8)
        ensures
            i == self.g as u8,
    {
        self.g as u8
    }

    /// Check if color is fully opaque.
    pub fn is_opaque(&self) -> (b: bool)
        ensures
            b == (self.a == 255),
    {
        self.a == 255
    }

    /// Check if color is fully transparent.
    pub fn is_transparent(&self) -> (b: bool)
        ensures
            b == (self.a == 0),
    {
        self.a == 0
    }

    /// Create from 0xRRGGBB integer format (bits above 24 are ignored).
    pub fn from_rgb_int(rgb: u32) -> (c: Rgba)
        ensures
            c == rgba(((rgb / 0x10000) % 256) as int, ((rgb / 0x100) % 256) as int, (rgb % 256) as int, 255),
    {
        let r = ((rgb >> 16) & 0xFF) as u8;
        let g = ((rgb >> 8) & 0xFF) as u8;
        let b = (rgb & 0xFF) as u8;
        assert(r == (rgb / 0x10000) % 256 && g == (rgb / 0x100) % 256 && b == rgb % 256)
            by (bit_vector)
            requires
                r == ((rgb >> 16) & 0xFF) as u8,
                g == ((rgb >> 8) & 0xFF) as u8,
                b == (rgb & 0xFF) as u8,
        ;
        Rgba::rgb(r, g, b)
    }

    /// Alpha blend src over dst (Porter-Duff "over").
    ///
    /// Opaque, terminal-default and ANSI sources win outright; a fully
    /// transparent source leaves dst. Special destination colors are treated
    /// as opaque black.
    pub fn blend(src: Rgba, dst: Rgba) -> (c: Rgba)
        requires
            src.is_well_formed(),
            dst.is_well_formed(),
        ensures
            c == blend_spec(src, dst),
    {
        if src.is_opaque() || src.is_terminal_default() || src.is_ansi() {
            return src;
        }
        if src.is_transparent() {
            return dst;
        }
        let (dr, dg, db, da): (u32, u32, u32, u32) = if dst.is_terminal_default() || dst.is_ansi() {
            (0, 0, 0, 255)
        } else {
            (dst.r as u32, dst.g as u32, dst.b as u32, dst.a as u32)
        };
        let sa = src.a as u32;
        let inv_sa = 255 - sa;
        proof {
            lemma_mul_upper_bound(da as int, 255, inv_sa as int, 255);
            lemma_mul_upper_bound(src.r as int, 255, sa as int, 255);
            lemma_mul_upper_bound(src.g as int, 255, sa as int, 255);
            lemma_mul_upper_bound(src.b as int, 255, sa as int, 255);
            lemma_mul_upper_bound(dr as int, 255, da as int, 255);
            lemma_mul_upper_bound(dg as int, 255, da as int, 255);
            lemma_mul_upper_bound(db as int, 255, da as int, 255);
            lemma_mul_upper_bound(dr * da, 65025, inv_sa as int, 255);
            lemma_mul_upper_bound(dg * da, 65025, inv_sa as int, 255);
            lemma_mul_upper_bound(db * da, 65025, inv_sa as int, 255);
        }
        let out_a = sa + (da * inv_sa) / 255;
        if out_a == 0 {
            return Rgba::TRANSPARENT();
        }
        let out_r = ((src.r as u32 * sa) + (dr * da * inv_sa / 255)) / out_a;
        let out_g = ((src.g as u32 * sa) + (dg * da * inv_sa / 255)) / out_a;
        let out_b = ((src.b as u32 * sa) + (db * da * inv_sa / 255)) / out_a;
        Rgba {
            r: if out_r > 255 { 255 } else { out_r as i16 },
            g: if out_g > 255 { 255 } else { out_g as i16 },
            b: if out_b > 255 { 255 } else { out_b as i16 },
            a: if out_a > 255 { 255 } else { out_a as i16 },
        }
    }

    /// Parse a hex color string (#RGB, #RRGGBB, #RRGGBBAA, the `#` optional).
    ///
    /// Surrounding white space and any number of leading `#` are ignored.
    /// Returns None for any other shape or a non-hex digit.
    pub fn from_hex(hex: &str) -> (c: Option<Rgba>)
        ensures
            c == from_hex_spec(hex@),
    {
        let chars = str_chars(hex);
        let trimmed = trim_chars(&chars);
        let h = strip_leading_char(&trimmed, '#');
        if h.len() == 3 {
            let r = hex_digit(h[0])?;
            let g = hex_digit(h[1])?;
            let b = hex_digit(h[2])?;
            Some(Rgba::rgb(r * 16 + r, g * 16 + g, b * 16 + b))
        } else if h.len() == 6 {
            let r = hex_byte(&h, 0)?;
            let g = hex_byte(&h, 2)?;
            let b = hex_byte(&h, 4)?;
            Some(Rgba::rgb(r, g, b))
        } else if h.len() == 8 {
            let r = hex_byte(&h, 0)?;
            let g = hex_byte(&h, 2)?;
            let b = hex_byte(&h, 4)?;
            let a = hex_byte(&h, 6)?;
            Some(Rgba::new(r, g, b, a))
        } else {
            None
        }
    }
}


// =============================================================================
// Color strings
// =============================================================================

/// Whether a character is an ASCII hex digit.
pub open spec fn is_hex_digit_char(c: char) -> bool {
    hex_digit_value(c) is Some
}

/// The kinds of color string `Rgba::parse` tells apart.
#[derive(Debug, Clone, Copy, PartialEq, Eq, Structural)]
pub enum ColorStringKind {
    Empty,
    Transparent,
    TerminalDefault,
    Hex,
    Oklch,
    Unknown,
}

/// The kind of a color string: by its trimmed, lower-cased form, keywords
/// first, then hex (a leading `#` or only hex digits), then `oklch(`.
pub open spec fn color_string_kind(s: Seq<char>) -> ColorStringKind {
    let t = trim_spec(s);
    let lower = lowercase_spec(t);
    if t.len() == 0 {
        ColorStringKind::Empty
    } else if lower == "transparent"@ {
        ColorStringKind::Transparent
    } else if lower == "default"@ || lower == "inherit"@ || lower == "initial"@ || lower == "currentcolor"@ {
        ColorStringKind::TerminalDefault
    } else if t[0] == '#' || (forall|i: int| 0 <= i < t.len() ==> #[trigger] is_hex_digit_char(t[i])) {
        ColorStringKind::Hex
    } else if 6 <= lower.len() && lower.subrange(0, 6) == "oklch("@ {
        ColorStringKind::Oklch
    } else {
        ColorStringKind::Unknown
    }
}

/// Whether every character is a hex digit.
fn all_hex_digits(v: &Vec<char>) -> (b: bool)
    ensures
        b == (forall|i: int| 0 <= i < v@.len() ==> #[trigger] is_hex_digit_char(v@[i])),
{
    let mut k: usize = 0;
    while k < v.len()
        invariant
            k <= v@.len(),
            forall|i: int| 0 <= i < k ==> #[trigger] is_hex_digit_char(v@[i]),
        decreases v.len() - k,
    {
        if hex_digit(v[k]).is_none() {
            assert(!is_hex_digit_char(v@[k as int]));
            return false;
        }
        k = k + 1;
    }
    true
}

/// Whether a character sequence equals a string literal.
fn chars_are(v: &Vec<char>, lit: &str) -> (b: bool)
    ensures
        b == (v@ == lit@),
{
    let l = str_chars(lit);
    chars_eq(v.as_slice(), l.as_slice())
}

impl Rgba {
    /// Parse a color string: the keywords `transparent`, and `default`,
    /// `inherit`, `initial`, `currentcolor` (the terminal default), in any
    /// case; hex colors (see `from_hex`); `oklch(...)` colors, taken apart
    /// by `oklch_parts` (None when that fails) and converted by `oklch`.
    /// White space around the string is ignored. None for anything else.
    pub fn parse<F: Fn(&OklchParts) -> Option<Rgba>>(input: &str, oklch: F) -> (c: Option<Rgba>)
        requires
            forall|p: &OklchParts| #[trigger] call_requires(oklch, (p,)),
        ensures
            match color_string_kind(input@) {
                ColorStringKind::Empty => c is None,
                ColorStringKind::Transparent => c == Some(rgba(0, 0, 0, 0)),
                ColorStringKind::TerminalDefault => c == Some(rgba(-1, -1, -1, -1)),
                ColorStringKind::Hex => c == from_hex_spec(trim_spec(input@)),
                ColorStringKind::Oklch => match oklch_parts_spec(input@) {
                    Some(v) => exists|p: &OklchParts| p@ == v && #[trigger] call_ensures(oklch, (p,), c),
                    None => c is None,
                },
                ColorStringKind::Unknown => c is None,
            },
    {
        proof {
            reveal_strlit("transparent");
            reveal_strlit("default");
            reveal_strlit("inherit");
            reveal_strlit("initial");
            reveal_strlit("currentcolor");
            reveal_strlit("oklch(");
        }
        let chars = str_chars(input);
        let trimmed = trim_chars(&chars);
        if trimmed.len() == 0 {
            return None;
        }
        let trimmed_string = string_from_chars(trimmed.as_slice());
        let lower_string = str_to_lowercase(trimmed_string.as_str());
        let lower = str_chars(lower_string.as_str());
        if chars_are(&lower, "transparent") {
            return Some(Rgba::TRANSPARENT());
        }
        if chars_are(&lower, "default") || chars_are(&lower, "inherit") || chars_are(&lower, "initial")
            || chars_are(&lower, "currentcolor") {
            return Some(Rgba::TERMINAL_DEFAULT());
        }
        if trimmed[0] == '#' || all_hex_digits(&trimmed) {
            return Rgba::from_hex(trimmed_string.as_str());
        }
        let prefix = str_chars("oklch(");
        if chars_starts_with(lower.as_slice(), prefix.as_slice()) {
            return match oklch_parts(input) {
                Some(p) => oklch(&p),
                None => None,
            };
        }
        None
    }
}

impl Default for Rgba {
    /// All channels zero.
    fn default() -> (c: Rgba)
        ensures
            c == rgba(0, 0, 0, 0),
    {
        Rgba { r: 0, g: 0, b: 0, a: 0 }
    }
}

// =============================================================================
// Cell attributes
// =============================================================================

/// Text attributes as a bit set (bold, dim, italic, underline, blink,
/// inverse, hidden, strikethrough).
#[derive(Debug, Clone, Copy, PartialEq, Eq, Structural)]
pub struct Attr {
    pub bits: u8,
}

impl Attr {
    /// No attributes.
    #[allow(non_snake_case)]
    pub fn NONE() -> (a: Attr)
        ensures
            a.bits == 0,
    {
        Attr { bits: 0 }
    }

    /// Bold.
    #[allow(non_snake_case)]
    pub fn BOLD() -> (a: Attr)
        ensures
            a.bits == 1,
    {
        Attr { bits: 1 }
    }

    /// Dim.
    #[allow(non_snake_case)]
    pub fn DIM() -> (a: Attr)
        ensures
            a.bits == 2,
    {
        Attr { bits: 2 }
    }

    /// Italic.
    #[allow(non_snake_case)]
    pub fn ITALIC() -> (a: Attr)
        ensures
            a.bits == 4,
    {
        Attr { bits: 4 }
    }

    /// Underline.
    #[allow(non_snake_case)]
    pub fn UNDERLINE() -> (a: Attr)
        ensures
            a.bits == 8,
    {
        Attr { bits: 8 }
    }

    /// Blink.
    #[allow(non_snake_case)]
    pub fn BLINK() -> (a: Attr)
        ensures
            a.bits == 16,
    {
        Attr { bits: 16 }
    }

    /// Inverse video.
    #[allow(non_snake_case)]
    pub fn INVERSE() -> (a: Attr)
        ensures
            a.bits == 32,
    {
        Attr { bits: 32 }
    }

    /// Hidden.
    #[allow(non_snake_case)]
    pub fn HIDDEN() -> (a: Attr)
        ensures
            a.bits == 64,
    {
        Attr { bits: 64 }
    }

    /// Strikethrough.
    #[allow(non_snake_case)]
    pub fn STRIKETHROUGH() -> (a: Attr)
        ensures
            a.bits == 128,
    {
        Attr { bits: 128 }
    }

    /// Whether every attribute of `other` is set here.
    pub fn contains(&self, other: Attr) -> (b: bool)
        ensures
            b == (self.bits & other.bits == other.bits),
    {
        self.bits & other.bits == other.bits
    }
}

impl core::ops::BitOr for Attr {
    type Output = Attr;

    /// The union of two attribute sets.
    fn bitor(self, rhs: Attr) -> (r: Attr) {
        Attr { bits: self.bits | rhs.bits }
    }
}

impl vstd::std_specs::ops::BitOrSpecImpl for Attr {
    open spec fn obeys_bitor_spec() -> bool {
        true
    }

    open spec fn bitor_req(self, rhs: Attr) -> bool {
        true
    }

    open spec fn bitor_spec(self, rhs: Attr) -> Attr {
        Attr { bits: self.bits | rhs.bits }
    }
}

impl Default for Attr {
    /// No attributes.
    fn default() -> (a: Attr)
        ensures
            a.bits == 0,
    {
        Attr { bits: 0 }
    }
}

// =============================================================================
// Cell - the atomic unit of terminal rendering
// =============================================================================

/// A single terminal cell.
#[derive(Debug, Clone, Copy, PartialEq, Eq, Structural)]
pub struct Cell {
    /// Unicode codepoint (32 for space).
    pub char: u32,
    /// Foreground color.
    pub fg: Rgba,
    /// Background color.
    pub bg: Rgba,
    /// Attribute flags (bold, italic, etc.).
    pub attrs: Attr,
}

impl Default for Cell {
    /// A blank space in the terminal's default colors, no attributes.
    fn default() -> (c: Cell)
        ensures
            c == (Cell { char: 32, fg: rgba(-1, -1, -1, -1), bg: rgba(-1, -1, -1, -1), attrs: Attr { bits: 0 } }),
    {
        Cell { char: 32, fg: Rgba::TERMINAL_DEFAULT(), bg: Rgba::TERMINAL_DEFAULT(), attrs: Attr::NONE() }
    }
}

// =============================================================================
// ClipRect - for overflow handling
// =============================================================================

/// A clipping rectangle for overflow handling.
#[derive(Debug, Clone, Copy, PartialEq, Eq, Structural)]
pub struct ClipRect {
    pub x: u16,
    pub y: u16,
    pub width: u16,
    pub height: u16,
}

impl ClipRect {
    /// Whether the point lies inside the rectangle.
    pub open spec fn contains_spec(self, x: int, y: int) -> bool {
        self.x <= x < self.x + self.width && self.y <= y < self.y + self.height
    }

    /// Create a new clip rect.
    pub fn new(x: u16, y: u16, width: u16, height: u16) -> (r: ClipRect)
        ensures
            r == (ClipRect { x, y, width, height }),
    {
        ClipRect { x, y, width, height }
    }

    /// Check if a point is inside this rect.
    pub fn contains(&self, x: u16, y: u16) -> (b: bool)
        ensures
            b == self.contains_spec(x as int, y as int),
    {
        let x_end = self.x as u32 + self.width as u32;
        let y_end = self.y as u32 + self.height as u32;
        x >= self.x && (x as u32) < x_end && y >= self.y && (y as u32) < y_end
    }

    /// Compute the intersection of two rects, None when they do not overlap.
    pub fn intersect(&self, other: &ClipRect) -> (r: Option<ClipRect>)
        requires
            self.x + self.width <= u16::MAX,
            self.y + self.height <= u16::MAX,
            other.x + other.width <= u16::MAX,
            other.y + other.height <= u16::MAX,
        ensures
            match r {
                Some(c) => {
                    &&& forall|px: int, py: int|
                        #![trigger c.contains_spec(px, py)]
                        c.contains_spec(px, py) <==> (self.contains_spec(px, py) && other.contains_spec(px, py))
                    &&& c.width > 0 && c.height > 0
                    &&& c.x + c.width <= self.x + self.width && c.y + c.height <= self.y + self.height
                    &&& c.x == if self.x > other.x { self.x } else { other.x }
                    &&& c.y == if self.y > other.y { self.y } else { other.y }
                },
                None => forall|px: int, py: int|
                    !(#[trigger] self.contains_spec(px, py) && other.contains_spec(px, py)),
            },
    {
        let x1 = if self.x > other.x { self.x } else { other.x };
        let y1 = if self.y > other.y { self.y } else { other.y };
        let sx2 = self.x + self.width;
        let ox2 = other.x + other.width;
        let sy2 = self.y + self.height;
        let oy2 = other.y + other.height;
        let x2 = if sx2 < ox2 { sx2 } else { ox2 };
        let y2 = if sy2 < oy2 { sy2 } else { oy2 };
        if x2 > x1 && y2 > y1 {
            Some(ClipRect { x: x1, y: y1, width: x2 - x1, height: y2 - y1 })
        } else {
            None
        }
    }
}

// =============================================================================
// Component types and styles
// =============================================================================

/// Component types for the parallel arrays pattern.
#[derive(Debug, Clone, Copy, PartialEq, Eq, Structural)]
pub enum ComponentType {
    /// No component (the slot is unused).
    Empty,
    Box,
    Text,
    Input,
    Select,
    Progress,
    Canvas,
}

impl Default for ComponentType {
    fn default() -> (t: ComponentType)
        ensures
            t == ComponentType::Empty,
    {
        ComponentType::Empty
    }
}

/// The ten standard terminal border styles, plus none.
#[derive(Debug, Clone, Copy, PartialEq, Eq, Structural)]
pub enum BorderStyle {
    /// No border.
    NoBorder,
    Single,
    Double,
    Rounded,
    Bold,
    Dashed,
    Dotted,
    Ascii,
    Block,
    DoubleHorz,
    DoubleVert,
}

impl Default for BorderStyle {
    fn default() -> (s: BorderStyle)
        ensures
            s == BorderStyle::NoBorder,
    {
        BorderStyle::NoBorder
    }
}

/// Border pieces: (horizontal, vertical, top_left, top_right, bottom_right, bottom_left).
pub type BorderChars = (&'static str, &'static str, &'static str, &'static str, &'static str, &'static str);

impl BorderStyle {
    /// Get the border characters for this style:
    /// (horizontal, vertical, top_left, top_right, bottom_right, bottom_left).
    pub fn chars(&self) -> (c: BorderChars)
        ensures
            *self == BorderStyle::NoBorder ==> c == (" ", " ", " ", " ", " ", " "),
            *self == BorderStyle::Single ==> c == ("─", "│", "┌", "┐", "┘", "└"),
            *self == BorderStyle::Double ==> c == ("═", "║", "╔", "╗", "╝", "╚"),
            *self == BorderStyle::Rounded ==> c == ("─", "│", "╭", "╮", "╯", "╰"),
            *self == BorderStyle::Bold ==> c == ("━", "┃", "┏", "┓", "┛", "┗"),
            *self == BorderStyle::Dashed ==> c == ("┄", "┆", "┌", "┐", "┘", "└"),
            *self == BorderStyle::Dotted ==> c == ("·", "·", "·", "·", "·", "·"),
            *self == BorderStyle::Ascii ==> c == ("-", "|", "+", "+", "+", "+"),
            *self == BorderStyle::Block ==> c == ("█", "█", "█", "█", "█", "█"),
            *self == BorderStyle::DoubleHorz ==> c == ("═", "│", "╒", "╕", "╛", "╘"),
            *self == BorderStyle::DoubleVert ==> c == ("─", "║", "╓", "╖", "╜", "╙"),
    {
        match self {
            BorderStyle::NoBorder => (" ", " ", " ", " ", " ", " "),
            BorderStyle::Single => ("─", "│", "┌", "┐", "┘", "└"),
            BorderStyle::Double => ("═", "║", "╔", "╗", "╝", "╚"),
            BorderStyle::Rounded => ("─", "│", "╭", "╮", "╯", "╰"),
            BorderStyle::Bold => ("━", "┃", "┏", "┓", "┛", "┗"),
            BorderStyle::Dashed => ("┄", "┆", "┌", "┐", "┘", "└"),
            BorderStyle::Dotted => ("·", "·", "·", "·", "·", "·"),
            BorderStyle::Ascii => ("-", "|", "+", "+", "+", "+"),
            BorderStyle::Block => ("█", "█", "█", "█", "█", "█"),
            BorderStyle::DoubleHorz => ("═", "│", "╒", "╕", "╛", "╘"),
            BorderStyle::DoubleVert => ("─", "║", "╓", "╖", "╜", "╙"),
        }
    }
}

// =============================================================================
// Flex enums
// =============================================================================

/// Flex direction for container layout.
#[derive(Debug, Clone, Copy, PartialEq, Eq, Structural)]
pub enum FlexDirection {
    Column,
    Row,
    ColumnReverse,
    RowReverse,
}

impl FlexDirection {
    /// Row or RowReverse.
    pub fn is_row(&self) -> (b: bool)
        ensures
            b == (*self == FlexDirection::Row || *self == FlexDirection::RowReverse),
    {
        match self {
            FlexDirection::Row | FlexDirection::RowReverse => true,
            _ => false,
        }
    }

    /// ColumnReverse or RowReverse.
    pub fn is_reverse(&self) -> (b: bool)
        ensures
            b == (*self == FlexDirection::ColumnReverse || *self == FlexDirection::RowReverse),
    {
        match self {
            FlexDirection::ColumnReverse | FlexDirection::RowReverse => true,
            _ => false,
        }
    }
}

/// Flex wrap behavior.
#[derive(Debug, Clone, Copy, PartialEq, Eq, Structural)]
pub enum FlexWrap {
    NoWrap,
    Wrap,
    WrapReverse,
}

/// Justify content (main axis alignment).
#[derive(Debug, Clone, Copy, PartialEq, Eq, Structural)]
pub enum JustifyContent {
    FlexStart,
    Center,
    FlexEnd,
    SpaceBetween,
    SpaceAround,
    SpaceEvenly,
}

/// Align items (cross axis alignment).
#[derive(Debug, Clone, Copy, PartialEq, Eq, Structural)]
pub enum AlignItems {
    Stretch,
    FlexStart,
    Center,
    FlexEnd,
    Baseline,
}

/// Align self (item override for align items).
#[derive(Debug, Clone, Copy, PartialEq, Eq, Structural)]
pub enum AlignSelf {
    Auto,
    Stretch,
    FlexStart,
    Center,
    FlexEnd,
    Baseline,
}

impl AlignSelf {
    /// The matching AlignItems value, None for Auto.
    pub fn to_align_items(&self) -> (r: Option<AlignItems>)
        ensures
            r == match *self {
                AlignSelf::Auto => None,
                AlignSelf::Stretch => Some(AlignItems::Stretch),
                AlignSelf::FlexStart => Some(AlignItems::FlexStart),
                AlignSelf::Center => Some(AlignItems::Center),
                AlignSelf::FlexEnd => Some(AlignItems::FlexEnd),
                AlignSelf::Baseline => Some(AlignItems::Baseline),
            },
    {
        match self {
            AlignSelf::Auto => None,
            AlignSelf::Stretch => Some(AlignItems::Stretch),
            AlignSelf::FlexStart => Some(AlignItems::FlexStart),
            AlignSelf::Center => Some(AlignItems::Center),
            AlignSelf::FlexEnd => Some(AlignItems::FlexEnd),
            AlignSelf::Baseline => Some(AlignItems::Baseline),
        }
    }
}

/// Align content (multi-line cross axis).
#[derive(Debug, Clone, Copy, PartialEq, Eq, Structural)]
pub enum AlignContent {
    Stretch,
    FlexStart,
    Center,
    FlexEnd,
    SpaceBetween,
    SpaceAround,
}

/// Overflow behavior.
#[derive(Debug, Clone, Copy, PartialEq, Eq, Structural)]
pub enum Overflow {
    Visible,
    Hidden,
    Scroll,
    Auto,
}

impl From<u8> for Overflow {
    /// 0 visible, 1 hidden, 2 scroll, 3 auto; anything else visible.
    fn from(value: u8) -> (o: Overflow) {
        match value {
            1 => Overflow::Hidden,
            2 => Overflow::Scroll,
            3 => Overflow::Auto,
            _ => Overflow::Visible,
        }
    }
}

impl vstd::std_specs::convert::FromSpecImpl<u8> for Overflow {
    open spec fn obeys_from_spec() -> bool {
        true
    }

    open spec fn from_spec(value: u8) -> Overflow {
        if value == 1 {
            Overflow::Hidden
        } else if value == 2 {
            Overflow::Scroll
        } else if value == 3 {
            Overflow::Auto
        } else {
            Overflow::Visible
        }
    }
}

/// A layout size: determined by content, a number of cells, or a whole
/// percentage of the parent's size.
#[derive(Debug, Clone, Copy, PartialEq, Eq, Structural)]
pub enum Dimension {
    /// Size from content.
    Auto,
    /// Absolute size in terminal cells.
    Cells(u16),
    /// Percentage of the parent's size (100 is the full size).
    Percent(u16),
}

impl Default for Dimension {
    fn default() -> (d: Dimension)
        ensures
            d == Dimension::Auto,
    {
        Dimension::Auto
    }
}

impl From<u16> for Dimension {
    /// 0 is `Auto`, any other value that many cells.
    fn from(value: u16) -> (d: Dimension) {
        if value == 0 {
            Dimension::Auto
        } else {
            Dimension::Cells(value)
        }
    }
}

impl vstd::std_specs::convert::FromSpecImpl<u16> for Dimension {
    open spec fn obeys_from_spec() -> bool {
        true
    }

    open spec fn from_spec(value: u16) -> Dimension {
        if value == 0 {
            Dimension::Auto
        } else {
            Dimension::Cells(value)
        }
    }
}

impl From<i32> for Dimension {
    /// Zero or negative is `Auto`; a positive value that many cells (its low
    /// 16 bits).
    fn from(value: i32) -> (d: Dimension) {
        if value <= 0 {
            Dimension::Auto
        } else {
            #[verifier::truncate]
            let cells = value as u16;
            Dimension::Cells(cells)
        }
    }
}

impl vstd::std_specs::convert::FromSpecImpl<i32> for Dimension {
    open spec fn obeys_from_spec() -> bool {
        true
    }

    open spec fn from_spec(value: i32) -> Dimension {
        if value <= 0 {
            Dimension::Auto
        } else {
            Dimension::Cells(value as u16)
        }
    }
}

/// Position type.
#[derive(Debug, Clone, Copy, PartialEq, Eq, Structural)]
pub enum Position {
    Relative,
    Absolute,
}

/// Text alignment.
#[derive(Debug, Clone, Copy, PartialEq, Eq, Structural)]
pub enum TextAlign {
    Left,
    Center,
    Right,
}

/// Text wrap mode.
#[derive(Debug, Clone, Copy, PartialEq, Eq, Structural)]
pub enum TextWrap {
    NoWrap,
    Wrap,
    Truncate,
}

/// Rendering mode for the application.
#[derive(Debug, Clone, Copy, PartialEq, Eq, Structural)]
pub enum RenderMode {
    /// Alternate screen buffer, full terminal control.
    Fullscreen,
    /// Renders inline, updates in place.
    Inline,
    /// Active content at bottom, history above.
    Append,
}

} // verus!
