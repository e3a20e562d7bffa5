//! Text measurement in terminal cells.
//!
//! ASCII printable characters take one cell, ASCII control characters none,
//! and characters in the CJK, Hangul, fullwidth and emoji blocks two cells;
//! every other character is counted as one cell.

use vstd::prelude::*;
use crate::chars::{str_chars, string_from_chars, push_char};

verus! {

broadcast use vstd::seq::group_seq_axioms;

/// Code points drawn two cells wide.
pub open spec fn is_wide_code(code: u32) -> bool {
    ||| (0x1100 <= code <= 0x115F)
    ||| (0x2E80 <= code <= 0x9FFF)
    ||| (0xAC00 <= code <= 0xD7A3)
    ||| (0xF900 <= code <= 0xFAFF)
    ||| (0xFE10 <= code <= 0xFE1F)
    ||| (0xFE30 <= code <= 0xFE6F)
    ||| (0xFF00 <= code <= 0xFF60)
    ||| (0xFFE0 <= code <= 0xFFE6)
    ||| (0x1F300 <= code <= 0x1F9FF)
    ||| (0x20000 <= code <= 0x2FFFF)
}

/// Width of one character in cells.
pub open spec fn char_width_spec(c: char) -> int {
    let code = c as u32;
    if code < 128 {
        if code < 32 || code == 127 { 0 } else { 1 }
    } else if is_wide_code(code) {
        2
    } else {
        1
    }
}

/// Sum of the character widths.
pub open spec fn total_width(s: Seq<char>) -> int
    decreases s.len(),
{
    if s.len() == 0 {
        0
    } else {
        total_width(s.drop_last()) + char_width_spec(s.last())
    }
}

/// An integer capped at u16::MAX.
pub open spec fn sat16(v: int) -> int {
    if v > 65535 { 65535 } else { v }
}

/// Display width of a string, saturated at u16::MAX.
pub open spec fn string_width_spec(s: Seq<char>) -> int {
    sat16(total_width(s))
}

/// Width of one character in cells.
pub fn char_width(c: char) -> (w: u16)
    ensures
        w == char_width_spec(c),
        w <= 2,
{
    let code = c as u32;
    if code < 128 {
        if code < 32 || code == 127 { 0 } else { 1 }
    } else if (0x1100 <= code && code <= 0x115F)
        || (0x2E80 <= code && code <= 0x9FFF)
        || (0xAC00 <= code && code <= 0xD7A3)
        || (0xF900 <= code && code <= 0xFAFF)
        || (0xFE10 <= code && code <= 0xFE1F)
        || (0xFE30 <= code && code <= 0xFE6F)
        || (0xFF00 <= code && code <= 0xFF60)
        || (0xFFE0 <= code && code <= 0xFFE6)
        || (0x1F300 <= code && code <= 0x1F9FF)
        || (0x20000 <= code && code <= 0x2FFFF)
    {
        2
    } else {
        1
    }
}

pub proof fn lemma_total_width_nonneg(s: Seq<char>)
    ensures
        total_width(s) >= 0,
    decreases s.len(),
{
    if s.len() > 0 {
        lemma_total_width_nonneg(s.drop_last());
    }
}

/// Measure the display width of a string in terminal cells (saturating).
pub fn string_width(s: &str) -> (w: u16)
    ensures
        w == string_width_spec(s@),
{
    let chars = str_chars(s);
    let mut width: u16 = 0;
    let mut i: usize = 0;
    while i < chars.len()
        invariant
            i <= chars@.len(),
            width == sat16(total_width(chars@.take(i as int))),
        decreases chars.len() - i,
    {
        let cw = char_width(chars[i]);
        proof {
            assert(chars@.take(i + 1).drop_last() =~= chars@.take(i as int));
            lemma_total_width_nonneg(chars@.take(i as int));
        }
        width = width.saturating_add(cw);
        i = i + 1;
    }
    assert(chars@.take(chars@.len() as int) =~= chars@);
    width
}

// =============================================================================
// Height measurement
// =============================================================================

/// Scan state after a prefix when wrapping at `avail` cells:
/// (completed lines, width of the current line).
pub open spec fn height_scan(s: Seq<char>, avail: int) -> (int, int)
    decreases s.len(),
{
    if s.len() == 0 {
        (0, 0)
    } else {
        let (lines, cur) = height_scan(s.drop_last(), avail);
        let c = s.last();
        if c == '\n' {
            (sat16(lines + 1), 0)
        } else {
            let w = char_width_spec(c);
            if cur + w > avail && cur > 0 {
                (sat16(lines + 1), w)
            } else {
                (lines, cur + w)
            }
        }
    }
}

/// Number of lines the text occupies when wrapped to `avail` cells.
pub open spec fn text_height_spec(s: Seq<char>, avail: int) -> int {
    if s.len() == 0 {
        0
    } else if avail == 0 {
        1
    } else {
        let (lines, cur) = height_scan(s, avail);
        let total = if cur > 0 || lines == 0 { sat16(lines + 1) } else { lines };
        if total < 1 { 1 } else { total }
    }
}

proof fn lemma_height_scan_bounds(s: Seq<char>, avail: int)
    requires
        avail >= 0,
    ensures
        0 <= height_scan(s, avail).0 <= 65535,
        0 <= height_scan(s, avail).1 <= if avail > 2 { avail } else { 2 },
    decreases s.len(),
{
    if s.len() > 0 {
        lemma_height_scan_bounds(s.drop_last(), avail);
    }
}

/// Measure the number of lines the text takes when wrapped to a width.
///
/// Returns 0 for empty text and at least 1 otherwise.
pub fn measure_text_height(text: &str, available_width: u16) -> (h: u16)
    ensures
        h == text_height_spec(text@, available_width as int),
{
    let chars = str_chars(text);
    if chars.len() == 0 {
        return 0;
    }
    if available_width == 0 {
        return 1;
    }
    let mut lines: u16 = 0;
    let mut current: u32 = 0;
    let mut i: usize = 0;
    while i < chars.len()
        invariant
            i <= chars@.len(),
            available_width > 0,
            (lines as int, current as int) == height_scan(chars@.take(i as int), available_width as int),
        decreases chars.len() - i,
    {
        proof {
            assert(chars@.take(i + 1).drop_last() =~= chars@.take(i as int));
            lemma_height_scan_bounds(chars@.take(i as int), available_width as int);
        }
        let c = chars[i];
        if c == '\n' {
            lines = lines.saturating_add(1);
            current = 0;
        } else {
            let cw = char_width(c) as u32;
            if current + cw > available_width as u32 && current > 0 {
                lines = lines.saturating_add(1);
                current = cw;
            } else {
                current = current + cw;
            }
        }
        i = i + 1;
    }
    assert(chars@.take(chars@.len() as int) =~= chars@);
    if current > 0 || lines == 0 {
        lines = lines.saturating_add(1);
    }
    if lines < 1 { 1 } else { lines }
}

// =============================================================================
// Word wrap
// =============================================================================

/// Scan state after a prefix when wrapping at `width` cells:
/// (finished lines, current line, width of the current line).
pub open spec fn wrap_scan(s: Seq<char>, width: int) -> (Seq<Seq<char>>, Seq<char>, int)
    decreases s.len(),
{
    if s.len() == 0 {
        (Seq::empty(), Seq::empty(), 0)
    } else {
        let (done, cur, cur_w) = wrap_scan(s.drop_last(), width);
        let c = s.last();
        if c == '\n' {
            (done.push(cur), Seq::empty(), 0)
        } else {
            let w = char_width_spec(c);
            if cur_w + w > width && cur.len() > 0 {
                (done.push(cur), seq![c], w)
            } else {
                (done, cur.push(c), cur_w + w)
            }
        }
    }
}

/// The lines of the text word-wrapped to `width` cells.
pub open spec fn wrap_text_spec(s: Seq<char>, width: int) -> Seq<Seq<char>> {
    if s.len() == 0 {
        Seq::empty()
    } else if width == 0 {
        seq![s]
    } else {
        let (done, cur, _w) = wrap_scan(s, width);
        if cur.len() > 0 { done.push(cur) } else { done }
    }
}

proof fn lemma_wrap_scan_width(s: Seq<char>, width: int)
    requires
        width >= 0,
    ensures
        wrap_scan(s, width).2 >= 0,
        wrap_scan(s, width).2 <= if width > 2 { width } else { 2 },
        wrap_scan(s, width).1.len() == 0 ==> wrap_scan(s, width).2 == 0,
    decreases s.len(),
{
    if s.len() > 0 {
        lemma_wrap_scan_width(s.drop_last(), width);
    }
}

/// The character views of a list of strings.
pub open spec fn string_views(v: Seq<String>) -> Seq<Seq<char>> {
    v.map_values(|x: String| x@)
}

/// Word-wrap text to a width, one string per line.
///
/// An explicit newline ends a line; a line is broken before a character that
/// would take it past `width`, unless the line is still empty.
pub fn wrap_text(text: &str, width: u16) -> (lines: Vec<String>)
    ensures
        string_views(lines@) == wrap_text_spec(text@, width as int),
{
    let chars = str_chars(text);
    if chars.len() == 0 {
        let r: Vec<String> = Vec::new();
        assert(string_views(r@) =~= Seq::<Seq<char>>::empty());
        return r;
    }
    if width == 0 {
        let mut r: Vec<String> = Vec::new();
        r.push(text.to_owned());
        assert(string_views(r@) =~= seq![text@]);
        return r;
    }
    let mut lines: Vec<String> = Vec::new();
    let mut current: Vec<char> = Vec::new();
    let mut current_width: u64 = 0;
    let mut i: usize = 0;
    while i < chars.len()
        invariant
            i <= chars@.len(),
            chars@ == text@,
            (string_views(lines@), current@, current_width as int) == wrap_scan(chars@.take(i as int), width as int),
        decreases chars.len() - i,
    {
        proof {
            assert(chars@.take(i + 1).drop_last() =~= chars@.take(i as int));
            lemma_wrap_scan_width(chars@.take(i as int), width as int);
        }
        let c = chars[i];
        if c == '\n' {
            let line = string_from_chars(&current);
            let ghost old_lines = lines@;
            lines.push(line);
            assert(string_views(lines@) =~= string_views(old_lines).push(current@));
            current = Vec::new();
            current_width = 0;
        } else {
            let cw = char_width(c) as u64;
            if current_width + cw > width as u64 && current.len() > 0 {
                let line = string_from_chars(&current);
                let ghost old_lines = lines@;
                lines.push(line);
                assert(string_views(lines@) =~= string_views(old_lines).push(current@));
                current = Vec::new();
                current_width = 0;
            }
            current.push(c);
            current_width = current_width + cw;
        }
        i = i + 1;
    }
    assert(chars@.take(chars@.len() as int) =~= chars@);
    if current.len() > 0 {
        let line = string_from_chars(&current);
        let ghost old_lines = lines@;
        lines.push(line);
        assert(string_views(lines@) =~= string_views(old_lines).push(current@));
    }
    lines
}

// =============================================================================
// Truncation
// =============================================================================

/// How many leading characters fit within `budget` cells.
pub open spec fn fit_count(s: Seq<char>, budget: int) -> nat
    decreases s.len(),
{
    if s.len() == 0 {
        0
    } else if char_width_spec(s[0]) > budget {
        0
    } else {
        1 + fit_count(s.drop_first(), budget - char_width_spec(s[0]))
    }
}

/// The text cut to `width` cells, with an ellipsis when it had to be cut.
pub open spec fn truncate_text_spec(s: Seq<char>, width: int) -> Seq<char> {
    if width == 0 {
        Seq::empty()
    } else if string_width_spec(s) <= width {
        s
    } else {
        s.take(fit_count(s, width - 1) as int).push('…')
    }
}

proof fn lemma_fit_count_step(s: Seq<char>, i: int, budget: int)
    requires
        0 <= i < s.len(),
    ensures
        char_width_spec(s[i]) > budget ==> fit_count(s.subrange(i, s.len() as int), budget) == 0,
        char_width_spec(s[i]) <= budget ==> fit_count(s.subrange(i, s.len() as int), budget)
            == 1 + fit_count(s.subrange(i + 1, s.len() as int), budget - char_width_spec(s[i])),
{
    assert(s.subrange(i, s.len() as int).drop_first() =~= s.subrange(i + 1, s.len() as int));
}

/// Truncate text to fit within a width, adding an ellipsis when cut.
pub fn truncate_text(text: &str, width: u16) -> (r: String)
    ensures
        r@ == truncate_text_spec(text@, width as int),
{
    if width == 0 {
        return String::new();
    }
    let text_width = string_width(text);
    if text_width <= width {
        return text.to_owned();
    }
    let chars = str_chars(text);
    let target: u16 = width - 1;
    let mut result = String::new();
    let mut current: u32 = 0;
    let mut i: usize = 0;
    assert(chars@.subrange(0, chars@.len() as int) =~= chars@);
    while i < chars.len()
        invariant_except_break
            i <= chars@.len(),
            current <= target,
            result@ == chars@.take(i as int),
            fit_count(chars@, target as int) == i + fit_count(
                chars@.subrange(i as int, chars@.len() as int),
                target - current,
            ),
        ensures
            i <= chars@.len(),
            result@ == chars@.take(i as int),
            fit_count(chars@, target as int) == i,
        decreases chars.len() - i,
    {
        let cw = char_width(chars[i]) as u32;
        proof {
            lemma_fit_count_step(chars@, i as int, target - current);
        }
        if current + cw > target as u32 {
            break;
        }
        push_char(&mut result, chars[i]);
        assert(chars@.take(i + 1) =~= chars@.take(i as int).push(chars@[i as int]));
        current = current + cw;
        i = i + 1;
    }
    push_char(&mut result, '…');
    result
}


// =============================================================================
// Laws
// =============================================================================

/// Widths add up: the width of two texts written one after the other is the
/// sum of their widths.
pub proof fn lemma_total_width_concat(a: Seq<char>, b: Seq<char>)
    ensures
        total_width(a + b) == total_width(a) + total_width(b),
    decreases b.len(),
{
    if b.len() > 0 {
        assert((a + b).drop_last() =~= a + b.drop_last());
        lemma_total_width_concat(a, b.drop_last());
    } else {
        assert(a + b =~= a);
    }
}

/// Every line that wrapping produces fits within the width, except a line of
/// one character wider than the width; and no line holds a newline.
pub proof fn lemma_wrapped_lines_fit(s: Seq<char>, width: int)
    requires
        width > 0,
    ensures
        forall|i: int| 0 <= i < wrap_text_spec(s, width).len() ==> {
            let line = #[trigger] wrap_text_spec(s, width)[i];
            &&& (total_width(line) <= width || line.len() == 1)
            &&& !line.contains('\n')
        },
{
    if s.len() > 0 {
        lemma_wrap_scan_lines_fit(s, width);
    }
}

/// Wrapping a text without newlines gives no empty line, and breaks a line
/// only where the next character would not fit on it.
pub proof fn lemma_wrap_breaks(s: Seq<char>, width: int)
    requires
        width > 0,
        !s.contains('\n'),
    ensures
        forall|i: int| 0 <= i < wrap_text_spec(s, width).len() ==> (#[trigger] wrap_text_spec(s, width)[i]).len() > 0,
        forall|i: int|
            0 <= i < wrap_text_spec(s, width).len() - 1 ==> total_width(#[trigger] wrap_text_spec(s, width)[i])
                + char_width_spec(wrap_text_spec(s, width)[i + 1][0]) > width,
{
    if s.len() > 0 {
        lemma_wrap_scan_breaks(s, width);
        let (done, cur, _w) = wrap_scan(s, width);
        let ls = done.push(cur);
        assert(wrap_text_spec(s, width) == ls);
        assert forall|i: int| 0 <= i < ls.len() - 1 implies total_width(#[trigger] ls[i]) + char_width_spec(ls[i + 1][0]) > width by {
            if i < done.len() - 1 {
                assert(ls[i] == done[i] && ls[i + 1] == done[i + 1]);
            } else {
                assert(ls[i] == done.last() && ls[i + 1] == cur);
            }
        }
    }
}

/// The scan over a text without newlines: lines are not empty, and each
/// break (between finished lines, and before the current line) happened
/// because the next character did not fit.
proof fn lemma_wrap_scan_breaks(s: Seq<char>, width: int)
    requires
        width > 0,
        !s.contains('\n'),
    ensures
        ({
            let (done, cur, cur_w) = wrap_scan(s, width);
            &&& s.len() > 0 ==> cur.len() > 0
            &&& s.len() == 0 ==> done.len() == 0 && cur.len() == 0
            &&& forall|i: int| 0 <= i < done.len() ==> (#[trigger] done[i]).len() > 0
            &&& forall|i: int| 0 <= i < done.len() - 1 ==> total_width(#[trigger] done[i]) + char_width_spec(done[i + 1][0]) > width
            &&& done.len() > 0 && cur.len() > 0 ==> total_width(done.last()) + char_width_spec(cur[0]) > width
        }),
    decreases s.len(),
{
    if s.len() > 0 {
        let p = s.drop_last();
        let c = s.last();
        assert(!p.contains('\n')) by {
            if p.contains('\n') {
                let w = choose|w: int| 0 <= w < p.len() && p[w] == '\n';
                assert(s[w] == '\n');
            }
        }
        assert(c != '\n') by {
            assert(s[s.len() - 1] == c);
        }
        lemma_wrap_scan_breaks(p, width);
        lemma_wrap_scan_lines_fit(p, width);
        let (done, cur, cur_w) = wrap_scan(p, width);
        let w = char_width_spec(c);
        if cur_w + w > width && cur.len() > 0 {
            let d2 = done.push(cur);
            assert forall|i: int| 0 <= i < d2.len() - 1 implies total_width(#[trigger] d2[i]) + char_width_spec(d2[i + 1][0]) > width by {
                if i < done.len() - 1 {
                    assert(d2[i] == done[i] && d2[i + 1] == done[i + 1]);
                } else {
                    assert(d2[i] == done.last() && d2[i + 1] == cur);
                }
            }
            assert forall|i: int| 0 <= i < d2.len() implies (#[trigger] d2[i]).len() > 0 by {
                if i < done.len() {
                    assert(d2[i] == done[i]);
                }
            }
            assert(seq![c][0] == c);
        } else {
            if cur.len() > 0 {
                assert(cur.push(c)[0] == cur[0]);
            }
        }
    }
}

/// The scan's finished lines and current line fit, and the current line's
/// recorded width is its width.
proof fn lemma_wrap_scan_lines_fit(s: Seq<char>, width: int)
    requires
        width > 0,
    ensures
        ({
            let (done, cur, cur_w) = wrap_scan(s, width);
            &&& cur_w == total_width(cur)
            &&& (cur_w <= width || cur.len() == 1)
            &&& !cur.contains('\n')
            &&& forall|i: int| 0 <= i < done.len() ==> {
                let line = #[trigger] done[i];
                &&& (total_width(line) <= width || line.len() == 1)
                &&& !line.contains('\n')
            }
        }),
    decreases s.len(),
{
    if s.len() > 0 {
        lemma_wrap_scan_lines_fit(s.drop_last(), width);
        let (done, cur, cur_w) = wrap_scan(s.drop_last(), width);
        let c = s.last();
        if c != '\n' {
            let w = char_width_spec(c);
            if cur_w + w > width && cur.len() > 0 {
                let one = seq![c];
                assert(one.drop_last() =~= Seq::<char>::empty());
                assert(one.last() == c);
                assert(total_width(Seq::<char>::empty()) == 0);
                assert(total_width(one) == w);
                assert(!one.contains('\n')) by {
                    if one.contains('\n') {
                        let k = choose|k: int| 0 <= k < one.len() && one[k] == '\n';
                        assert(k == 0);
                    }
                }
            } else {
                let nc = cur.push(c);
                assert(nc.drop_last() =~= cur);
                assert(!nc.contains('\n')) by {
                    if nc.contains('\n') {
                        let k = choose|k: int| 0 <= k < nc.len() && nc[k] == '\n';
                        if k < cur.len() {
                            assert(cur[k] == '\n');
                        }
                    }
                }
                if cur.len() == 0 {
                    assert(nc.len() == 1);
                } else {
                    assert(cur_w + w <= width);
                }
            }
        } else {
            let e = Seq::<char>::empty();
            assert(!e.contains('\n'));
        }
    }
}

/// The truncated text fits within the width (for texts narrower than the
/// largest 16-bit width, or a width below it).
pub proof fn lemma_truncated_fits(s: Seq<char>, width: int)
    requires
        0 <= width <= 65535,
        width < 65535 || total_width(s) <= 65535,
    ensures
        total_width(truncate_text_spec(s, width)) <= width,
{
    if width > 0 && string_width_spec(s) > width {
        lemma_fit_count_width(s, width - 1);
        let t = s.take(fit_count(s, width - 1) as int);
        let r = t.push('…');
        assert(r.drop_last() =~= t);
        assert(!is_wide_code('…' as u32));
    } else if width > 0 {
        lemma_total_width_nonneg(s);
    }
}

/// The characters that fit within a budget take at most that budget.
proof fn lemma_fit_count_width(s: Seq<char>, budget: int)
    requires
        budget >= 0,
    ensures
        fit_count(s, budget) <= s.len(),
        total_width(s.take(fit_count(s, budget) as int)) <= budget,
    decreases s.len(),
{
    if s.len() == 0 {
        assert(s.take(0) =~= Seq::<char>::empty());
    } else if char_width_spec(s[0]) > budget {
        assert(s.take(0) =~= Seq::<char>::empty());
    } else {
        let w = char_width_spec(s[0]);
        let rest = s.drop_first();
        lemma_fit_count_width(rest, budget - w);
        let k = fit_count(rest, budget - w) as int;
        assert(s.take(k + 1) =~= seq![s[0]] + rest.take(k));
        lemma_total_width_concat(seq![s[0]], rest.take(k));
        assert(seq![s[0]].drop_last() =~= Seq::<char>::empty());
        assert(seq![s[0]].last() == s[0]);
        assert(total_width(Seq::<char>::empty()) == 0);
        assert(total_width(seq![s[0]]) == w);
        assert(fit_count(s, budget) == k + 1);
    }
}

/// Whether every character of the text takes at least one cell.
pub open spec fn all_visible(s: Seq<char>) -> bool {
    forall|i: int| 0 <= i < s.len() ==> char_width_spec(#[trigger] s[i]) > 0
}

/// The scan never counts more lines than it has read characters.
proof fn lemma_height_scan_lines_le(s: Seq<char>, avail: int)
    ensures
        0 <= height_scan(s, avail).0 <= s.len(),
        height_scan(s, avail).1 >= 0,
    decreases s.len(),
{
    if s.len() > 0 {
        lemma_height_scan_lines_le(s.drop_last(), avail);
    }
}

/// After a point where the current line is empty, the scan of the rest
/// runs as a fresh scan would, its lines added to those before.
proof fn lemma_height_scan_concat(p: Seq<char>, q: Seq<char>, avail: int)
    requires
        height_scan(p, avail).1 == 0,
        p.len() + q.len() < 65535,
    ensures
        height_scan(p + q, avail) == (height_scan(p, avail).0 + height_scan(q, avail).0, height_scan(q, avail).1),
    decreases q.len(),
{
    if q.len() == 0 {
        assert(p + q =~= p);
    } else {
        let q0 = q.drop_last();
        assert((p + q).drop_last() =~= p + q0);
        assert((p + q).last() == q.last());
        lemma_height_scan_concat(p, q0, avail);
        lemma_height_scan_lines_le(p, avail);
        lemma_height_scan_lines_le(q0, avail);
        lemma_height_scan_lines_le(p + q0, avail);
    }
}

/// A text with a character that takes space ends with a counted line or
/// a line in progress.
proof fn lemma_height_scan_visible(s: Seq<char>, avail: int)
    requires
        total_width(s) > 0,
        s.len() < 65535,
    ensures
        height_scan(s, avail).0 > 0 || height_scan(s, avail).1 > 0,
    decreases s.len(),
{
    let p = s.drop_last();
    lemma_height_scan_lines_le(p, avail);
    if total_width(p) > 0 {
        lemma_height_scan_visible(p, avail);
    } else {
        assert(char_width_spec(s.last()) > 0);
    }
}

/// Only the empty text has no lines; any other text takes at least one,
/// and a text with no newline that fits in the width takes exactly one.
pub proof fn lemma_height_at_least_one(s: Seq<char>, width: int)
    requires
        width >= 0,
    ensures
        s.len() == 0 <==> text_height_spec(s, width) == 0,
        s.len() > 0 ==> text_height_spec(s, width) >= 1,
        s.len() > 0 && width > 0 && !s.contains('\n') && total_width(s) <= width ==> text_height_spec(s, width) == 1,
{
    if s.len() > 0 && width > 0 && !s.contains('\n') && total_width(s) <= width {
        lemma_height_fits_one_line(s, width);
    }
}

/// A newline-free text within the width is scanned without a break.
proof fn lemma_height_fits_one_line(s: Seq<char>, width: int)
    requires
        width > 0,
        !s.contains('\n'),
        total_width(s) <= width,
    ensures
        height_scan(s, width) == (0int, total_width(s)),
    decreases s.len(),
{
    if s.len() > 0 {
        let p = s.drop_last();
        assert(!p.contains('\n')) by {
            if p.contains('\n') {
                let i = choose|i: int| 0 <= i < p.len() && p[i] == '\n';
                assert(s[i] == '\n');
            }
        }
        assert(s.last() != '\n') by {
            assert(s[s.len() - 1] == s.last());
        }
        lemma_total_width_nonneg(p);
        assert(char_width_spec(s.last()) >= 0);
        lemma_height_fits_one_line(p, width);
    }
}

/// Each newline ends exactly one line. A trailing newline adds one (blank)
/// line to a text that already ends in a newline, and what follows a
/// newline is laid out as a text of its own, its lines added below: for a
/// width above zero, a text `a`, a newline and a text `b` with a character
/// that takes space is as high as `a` with the newline plus `b`.
pub proof fn lemma_newline_lines(a: Seq<char>, b: Seq<char>, width: int)
    requires
        width > 0,
        a.len() + b.len() + 2 < 65535,
    ensures
        text_height_spec(a.push('\n'), width) >= 1,
        text_height_spec(a.push('\n').push('\n'), width) == text_height_spec(a.push('\n'), width) + 1,
        total_width(b) > 0 ==> text_height_spec(a.push('\n') + b, width) == text_height_spec(a.push('\n'), width)
            + text_height_spec(b, width),
{
    let an = a.push('\n');
    assert(an.drop_last() =~= a);
    lemma_height_scan_lines_le(a, width);
    let ann = an.push('\n');
    assert(ann.drop_last() =~= an);
    if total_width(b) > 0 {
        lemma_height_scan_concat(an, b, width);
        lemma_height_scan_visible(b, width);
        lemma_height_scan_lines_le(b, width);
    }
}

/// The measured height of a text is the number of lines wrapping gives it,
/// for texts whose characters all take space and that are shorter than the
/// largest 16-bit count.
pub proof fn lemma_height_matches_wrap(s: Seq<char>, width: int)
    requires
        0 <= width <= 65535,
        all_visible(s),
        s.len() < 65535,
    ensures
        text_height_spec(s, width) == wrap_text_spec(s, width).len(),
{
    if s.len() > 0 && width > 0 {
        lemma_scans_agree(s, width);
    }
}

/// Height and wrap scans move in step on texts of visible characters.
proof fn lemma_scans_agree(s: Seq<char>, width: int)
    requires
        width > 0,
        all_visible(s),
        s.len() < 65535,
    ensures
        height_scan(s, width).0 == wrap_scan(s, width).0.len(),
        height_scan(s, width).1 == wrap_scan(s, width).2,
        wrap_scan(s, width).0.len() <= s.len(),
        wrap_scan(s, width).1.len() > 0 <==> wrap_scan(s, width).2 > 0,
    decreases s.len(),
{
    if s.len() > 0 {
        let p = s.drop_last();
        assert(all_visible(p)) by {
            assert forall|i: int| 0 <= i < p.len() implies char_width_spec(#[trigger] p[i]) > 0 by {
                assert(p[i] == s[i]);
            }
        }
        lemma_scans_agree(p, width);
        lemma_wrap_scan_width(p, width);
        assert(char_width_spec(s[s.len() - 1]) > 0);
    }
}


/// The text with its newlines removed.
pub open spec fn drop_newlines(s: Seq<char>) -> Seq<char> {
    s.filter(|c: char| c != '\n')
}

/// Wrapping loses nothing but newlines: the lines, written one after the
/// other, are the text without its newlines.
pub proof fn lemma_wrapped_lines_rejoin(s: Seq<char>, width: int)
    requires
        width > 0,
    ensures
        wrap_text_spec(s, width).flatten() == drop_newlines(s),
{
    broadcast use Seq::lemma_flatten_push;
    if s.len() == 0 {
        reveal(Seq::filter);
        assert(wrap_text_spec(s, width) =~= Seq::<Seq<char>>::empty());
        assert(drop_newlines(s) =~= Seq::<char>::empty());
    } else {
        lemma_wrap_scan_rejoin(s, width);
        let (done, cur, _w) = wrap_scan(s, width);
        if cur.len() == 0 {
            assert(done.flatten() + cur =~= done.flatten());
        }
    }
}

/// The scan's finished lines followed by its current line are the prefix
/// without newlines.
proof fn lemma_wrap_scan_rejoin(s: Seq<char>, width: int)
    ensures
        wrap_scan(s, width).0.flatten() + wrap_scan(s, width).1 == drop_newlines(s),
    decreases s.len(),
{
    broadcast use Seq::lemma_flatten_push;
    if s.len() == 0 {
        reveal(Seq::filter);
        assert(Seq::<Seq<char>>::empty().flatten() =~= Seq::<char>::empty());
        assert(drop_newlines(s) =~= Seq::<char>::empty());
        assert(Seq::<char>::empty() + Seq::<char>::empty() =~= Seq::<char>::empty());
    } else {
        let p = s.drop_last();
        let c = s.last();
        lemma_wrap_scan_rejoin(p, width);
        assert(s =~= p.push(c));
        p.lemma_filter_push(c, |c: char| c != '\n');
        let (done, cur, cur_w) = wrap_scan(p, width);
        if c == '\n' {
            assert(done.push(cur).flatten() + Seq::<char>::empty() =~= done.flatten() + cur);
        } else {
            let w = char_width_spec(c);
            if cur_w + w > width && cur.len() > 0 {
                assert(done.push(cur).flatten() + seq![c] =~= (done.flatten() + cur).push(c));
            } else {
                assert(done.flatten() + cur.push(c) =~= (done.flatten() + cur).push(c));
            }
        }
    }
}

} // verus!
