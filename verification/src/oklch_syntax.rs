//! The text form of an OKLCH color, `oklch(L C H [/ A])`: its pieces taken
//! apart, each number still as text. Turning the numbers into a color is
//! floating-point work done by the caller.

use vstd::prelude::*;
use crate::chars::{
    str_chars, trim_chars, string_from_chars, str_to_lowercase, char_is_whitespace, chars_starts_with,
    trim_spec, lowercase_spec, is_white_space,
};

verus! {

broadcast use vstd::string::group_string_axioms;

/// The unit of the hue.
#[derive(Clone, Copy, Debug, PartialEq, Eq, Structural)]
pub enum HueUnit {
    /// Degrees, written `deg` or with no unit.
    Degrees,
    /// Radians, written `rad`.
    Radians,
    /// Turns, written `turn`.
    Turns,
}

/// The pieces of an OKLCH color string, lower-cased, units taken off.
pub struct OklchParts {
    /// Lightness, without its `%`.
    pub lightness: String,
    /// Whether the lightness was written as a percentage.
    pub lightness_percent: bool,
    /// Chroma.
    pub chroma: String,
    /// Hue, without its unit.
    pub hue: String,
    /// The unit the hue was written in.
    pub hue_unit: HueUnit,
    /// Alpha, without its `%`, when given.
    pub alpha: Option<String>,
    /// Whether the alpha was written as a percentage.
    pub alpha_percent: bool,
}

/// `OklchParts` with its text as character sequences.
pub struct OklchPartsView {
    pub lightness: Seq<char>,
    pub lightness_percent: bool,
    pub chroma: Seq<char>,
    pub hue: Seq<char>,
    pub hue_unit: HueUnit,
    pub alpha: Option<Seq<char>>,
    pub alpha_percent: bool,
}

impl View for OklchParts {
    type V = OklchPartsView;

    open spec fn view(&self) -> OklchPartsView {
        OklchPartsView {
            lightness: self.lightness@,
            lightness_percent: self.lightness_percent,
            chroma: self.chroma@,
            hue: self.hue@,
            hue_unit: self.hue_unit,
            alpha: match self.alpha {
                Some(a) => Some(a@),
                None => None,
            },
            alpha_percent: self.alpha_percent,
        }
    }
}

/// Separators between the numbers: white space and `/`.
pub open spec fn is_separator(c: char) -> bool {
    is_white_space(c) || c == '/'
}

/// The pending piece `cur`, as a list of zero or one pieces.
pub open spec fn pending(cur: Seq<char>) -> Seq<Seq<char>> {
    if cur.len() == 0 {
        Seq::empty()
    } else {
        seq![cur]
    }
}

/// The pieces of `s` after the pending piece `cur`: `s` split at every
/// separator, empty pieces dropped.
pub open spec fn pieces_after(s: Seq<char>, cur: Seq<char>) -> Seq<Seq<char>>
    decreases s.len(),
{
    if s.len() == 0 {
        pending(cur)
    } else if is_separator(s[0]) {
        pending(cur) + pieces_after(s.drop_first(), Seq::empty())
    } else {
        pieces_after(s.drop_first(), cur.push(s[0]))
    }
}

/// `s` split at every separator, empty pieces dropped.
pub open spec fn pieces(s: Seq<char>) -> Seq<Seq<char>> {
    pieces_after(s, Seq::empty())
}

/// Whether `t` ends with `suffix`.
pub open spec fn ends_with(t: Seq<char>, suffix: Seq<char>) -> bool {
    suffix.len() <= t.len() && t.subrange(t.len() - suffix.len(), t.len() as int) == suffix
}

/// `t` without its last `n` characters.
pub open spec fn drop_end(t: Seq<char>, n: int) -> Seq<char> {
    t.subrange(0, t.len() - n)
}

/// The text between the parentheses of `oklch(...)`, after trimming and
/// lower-casing; None when the text is not of that form.
pub open spec fn oklch_body(s: Seq<char>) -> Option<Seq<char>> {
    let t = lowercase_spec(trim_spec(s));
    if 6 <= t.len() && t.subrange(0, 6) == "oklch("@ && t[t.len() - 1] == ')' {
        Some(t.subrange(6, t.len() - 1))
    } else {
        None
    }
}

/// A number that may end in `%`: the number and whether it did.
pub open spec fn percent_number(t: Seq<char>) -> (Seq<char>, bool) {
    if ends_with(t, "%"@) {
        (drop_end(t, 1), true)
    } else {
        (t, false)
    }
}

/// A hue with its unit: `rad`, `turn`, `deg` or none (degrees).
pub open spec fn hue_with_unit(t: Seq<char>) -> (Seq<char>, HueUnit) {
    if ends_with(t, "rad"@) {
        (drop_end(t, 3), HueUnit::Radians)
    } else if ends_with(t, "turn"@) {
        (drop_end(t, 4), HueUnit::Turns)
    } else if ends_with(t, "deg"@) {
        (drop_end(t, 3), HueUnit::Degrees)
    } else {
        (t, HueUnit::Degrees)
    }
}

/// The pieces of an OKLCH color string: within `oklch(...)`, the first
/// three pieces are lightness, chroma and hue and a fourth, when present,
/// is alpha; further pieces are ignored. None when the text is not of
/// that form or has fewer than three pieces.
pub open spec fn oklch_parts_spec(s: Seq<char>) -> Option<OklchPartsView> {
    match oklch_body(s) {
        None => None,
        Some(body) => {
            let p = pieces(body);
            if p.len() < 3 {
                None
            } else {
                let (l, lp) = percent_number(p[0]);
                let (h, unit) = hue_with_unit(p[2]);
                let (a, ap) = if p.len() > 3 {
                    let (a, ap) = percent_number(p[3]);
                    (Some(a), ap)
                } else {
                    (None, false)
                };
                Some(
                    OklchPartsView {
                        lightness: l,
                        lightness_percent: lp,
                        chroma: p[1],
                        hue: h,
                        hue_unit: unit,
                        alpha: a,
                        alpha_percent: ap,
                    },
                )
            }
        },
    }
}

/// The characters `v[from..to]`.
fn chars_between(v: &Vec<char>, from: usize, to: usize) -> (r: Vec<char>)
    requires
        from <= to <= v@.len(),
    ensures
        r@ == v@.subrange(from as int, to as int),
{
    let mut r: Vec<char> = Vec::new();
    let mut k = from;
    while k < to
        invariant
            from <= k <= to <= v@.len(),
            r@ == v@.subrange(from as int, k as int),
        decreases to - k,
    {
        r.push(v[k]);
        assert(v@.subrange(from as int, k + 1) =~= v@.subrange(from as int, k as int).push(v@[k as int]));
        k = k + 1;
    }
    r
}

/// Whether `v` ends with the characters of `suffix`.
fn chars_end_with(v: &Vec<char>, suffix: &str) -> (b: bool)
    ensures
        b == ends_with(v@, suffix@),
{
    let suf = str_chars(suffix);
    if suf.len() > v.len() {
        return false;
    }
    let start = v.len() - suf.len();
    let mut k: usize = 0;
    while k < suf.len()
        invariant
            suf@ == suffix@,
            start + suf@.len() == v@.len(),
            v@.len() <= usize::MAX,
            k <= suf@.len(),
            forall|j: int| 0 <= j < k ==> v@[start + j] == suf@[j],
        decreases suf.len() - k,
    {
        assert(start + k < v@.len());
        if v[start + k] != suf[k] {
            assert(v@.subrange(start as int, v@.len() as int)[k as int] == v@[start + k]);
            return false;
        }
        k = k + 1;
    }
    assert(v@.subrange(start as int, v@.len() as int) =~= suf@);
    true
}

/// The text of `v` without its last `n` characters.
fn string_without_end(v: &Vec<char>, n: usize) -> (s: String)
    requires
        n <= v@.len(),
    ensures
        s@ == drop_end(v@, n as int),
{
    let r = chars_between(v, 0, v.len() - n);
    string_from_chars(r.as_slice())
}

/// A number that may end in `%`, split as `percent_number` says.
fn split_percent(t: &Vec<char>) -> (r: (String, bool))
    ensures
        (r.0@, r.1) == percent_number(t@),
{
    proof {
        reveal_strlit("%");
    }
    if chars_end_with(t, "%") {
        (string_without_end(t, 1), true)
    } else {
        (string_from_chars(t.as_slice()), false)
    }
}

/// A hue split from its unit as `hue_with_unit` says.
fn split_hue(t: &Vec<char>) -> (r: (String, HueUnit))
    ensures
        (r.0@, r.1) == hue_with_unit(t@),
{
    proof {
        reveal_strlit("rad");
        reveal_strlit("turn");
        reveal_strlit("deg");
    }
    if chars_end_with(t, "rad") {
        (string_without_end(t, 3), HueUnit::Radians)
    } else if chars_end_with(t, "turn") {
        (string_without_end(t, 4), HueUnit::Turns)
    } else if chars_end_with(t, "deg") {
        (string_without_end(t, 3), HueUnit::Degrees)
    } else {
        (string_from_chars(t.as_slice()), HueUnit::Degrees)
    }
}

/// The character sequences of a list of pieces.
pub open spec fn piece_views(v: Seq<Vec<char>>) -> Seq<Seq<char>> {
    v.map_values(|t: Vec<char>| t@)
}

/// The pieces of `v[from..to]` (see `pieces`).
fn split_pieces(v: &Vec<char>, from: usize, to: usize) -> (r: Vec<Vec<char>>)
    requires
        from <= to <= v@.len(),
    ensures
        piece_views(r@) == pieces(v@.subrange(from as int, to as int)),
{
    let ghost whole = v@.subrange(from as int, to as int);
    let mut out: Vec<Vec<char>> = Vec::new();
    let mut cur: Vec<char> = Vec::new();
    let mut k = from;
    assert(v@.subrange(from as int, to as int) == whole);
    while k < to
        invariant
            from <= k <= to <= v@.len(),
            whole == v@.subrange(from as int, to as int),
            piece_views(out@) + pieces_after(v@.subrange(k as int, to as int), cur@) == pieces(whole),
        decreases to - k,
    {
        let c = v[k];
        let ghost rest = v@.subrange(k as int, to as int);
        let ghost next = v@.subrange(k + 1, to as int);
        assert(rest[0] == c);
        assert(rest.drop_first() =~= next);
        if char_is_whitespace(c) || c == '/' {
            assert(is_separator(c));
            let ghost before = piece_views(out@);
            if cur.len() > 0 {
                let ghost piece = cur@;
                out.push(cur);
                assert(piece_views(out@) =~= before.push(piece));
                assert(pending(piece) == seq![piece]);
                assert(before + (seq![piece] + pieces_after(next, Seq::empty())) =~= before.push(piece)
                    + pieces_after(next, Seq::empty()));
            } else {
                assert(pending(cur@) =~= Seq::<Seq<char>>::empty());
                assert(Seq::<Seq<char>>::empty() + pieces_after(next, Seq::empty()) =~= pieces_after(next, Seq::empty()));
            }
            cur = Vec::new();
            assert(cur@ =~= Seq::<char>::empty());
        } else {
            assert(!is_separator(c));
            cur.push(c);
        }
        k = k + 1;
    }
    assert(v@.subrange(to as int, to as int) =~= Seq::<char>::empty());
    let ghost before = piece_views(out@);
    if cur.len() > 0 {
        let ghost piece = cur@;
        out.push(cur);
        assert(piece_views(out@) =~= before.push(piece));
        assert(before + seq![piece] =~= before.push(piece));
    } else {
        assert(before + Seq::<Seq<char>>::empty() =~= before);
    }
    out
}

/// Take an OKLCH color string apart: surrounding white space is ignored
/// and case does not matter. The numbers stay text; see
/// `oklch_parts_spec` for which text gives which parts.
pub fn oklch_parts(s: &str) -> (r: Option<OklchParts>)
    ensures
        match r {
            Some(p) => oklch_parts_spec(s@) == Some(p@),
            None => oklch_parts_spec(s@) is None,
        },
{
    proof {
        reveal_strlit("oklch(");
    }
    let chars = str_chars(s);
    let trimmed = trim_chars(&chars);
    let trimmed_string = string_from_chars(trimmed.as_slice());
    let lower_string = str_to_lowercase(trimmed_string.as_str());
    let t = str_chars(lower_string.as_str());
    assert(t@ == lowercase_spec(trim_spec(s@)));
    let prefix = str_chars("oklch(");
    if !chars_starts_with(t.as_slice(), prefix.as_slice()) {
        return None;
    }
    let last = t.len() - 1;
    if t[last] != ')' {
        return None;
    }
    assert(prefix@.len() == 6);
    assert(t@.len() > 6) by {
        if t@.len() == 6 {
            assert(t@.subrange(0, 6)[5] == t@[5]);
        }
    }
    assert(oklch_body(s@) == Some(t@.subrange(6, t@.len() - 1)));
    let p = split_pieces(&t, 6, last);
    if p.len() < 3 {
        return None;
    }
    assert(piece_views(p@)[0] == p@[0]@);
    assert(piece_views(p@)[1] == p@[1]@);
    assert(piece_views(p@)[2] == p@[2]@);
    let (lightness, lightness_percent) = split_percent(&p[0]);
    let chroma = string_from_chars(p[1].as_slice());
    let (hue, hue_unit) = split_hue(&p[2]);
    let (alpha, alpha_percent) = if p.len() > 3 {
        assert(piece_views(p@)[3] == p@[3]@);
        let (a, ap) = split_percent(&p[3]);
        (Some(a), ap)
    } else {
        (None, false)
    };
    Some(OklchParts { lightness, lightness_percent, chroma, hue, hue_unit, alpha, alpha_percent })
}

} // verus!
