//! The single-line text input: what it displays, and how a key edits its
//! value and cursor.

use vstd::prelude::*;
use crate::chars::{str_chars, string_from_chars};
use crate::state::keyboard::{KeyboardEvent, Modifiers};
use crate::state::mouse::{MouseEvent, MouseHandlers, MouseState, on_component};
use crate::handler_list::not_id;
use crate::types::{Attr, BorderStyle, ComponentType, Dimension, Rgba};
use crate::engine::registry::{Registry, allocate_index, get_current_parent_index, index_for, requested_key};
use crate::state::focus::{FocusState, focus, focus_done};
use crate::engine::arrays::Arrays;
use crate::engine::arrays::core_arrays::{set_component_type, set_parent_index, set_visible};
use crate::engine::arrays::text::{set_text_content, set_text_attrs};
use crate::engine::arrays::interaction::{
    InteractionArrays, set_focusable, set_tab_index, set_cursor_position, set_cursor_visible, get_cursor_position,
    set_selection_start, set_selection_end,
};
use crate::engine::arrays::visual::{set_border_style, set_border_color, set_fg_color, set_bg_color, set_opacity};
use crate::engine::flex_node::FlexNode;
use crate::engine::flex_node_registry::{create_flex_node, set_flex_node};
use crate::primitives::box_primitive::{pick, side, border_width, pick_exec, side_exec, border_width_exec, id_ref, starting_node};

verus! {

broadcast use vstd::string::group_string_axioms;

// =============================================================================
// Word boundaries
// =============================================================================

/// The Unicode alphanumeric property for characters outside ASCII.
pub uninterp spec fn non_ascii_alphanumeric(c: char) -> bool;

/// `char::is_alphanumeric`: within ASCII exactly the letters and digits.
pub open spec fn is_alnum(c: char) -> bool {
    if (c as u32) < 128 {
        ('a' <= c && c <= 'z') || ('A' <= c && c <= 'Z') || ('0' <= c && c <= '9')
    } else {
        non_ascii_alphanumeric(c)
    }
}

/// `char::is_alphanumeric` (std): whether the character is alphabetic or
/// numeric. The contract states the ASCII letters and digits exactly and
/// names the rest.
#[verifier::external_body]
pub(crate) fn char_is_alphanumeric(c: char) -> (b: bool)
    ensures
        (c as u32) < 128 ==> b == (('a' <= c && c <= 'z') || ('A' <= c && c <= 'Z') || ('0' <= c && c <= '9')),
        (c as u32) >= 128 ==> b == non_ascii_alphanumeric(c),
{
    c.is_alphanumeric()
}

/// Moving back from `i`, the first position whose left neighbour is not of
/// the given kind (alphanumeric or not).
pub open spec fn skip_back(s: Seq<char>, i: int, alnum: bool) -> int
    decreases i,
{
    if i > 0 && i <= s.len() && is_alnum(s[i - 1]) == alnum {
        skip_back(s, i - 1, alnum)
    } else {
        i
    }
}

/// Moving forward from `i`, the first position whose character is not of
/// the given kind.
pub open spec fn skip_fwd(s: Seq<char>, i: int, alnum: bool) -> int
    decreases s.len() - i,
{
    if 0 <= i && i < s.len() && is_alnum(s[i]) == alnum {
        skip_fwd(s, i + 1, alnum)
    } else {
        i
    }
}

/// Start of the word before `pos`: skip non-word characters, then word
/// characters, going back.
pub open spec fn word_start_spec(s: Seq<char>, pos: int) -> int {
    if pos == 0 {
        0
    } else {
        skip_back(s, skip_back(s, pos, false), true)
    }
}

/// End of the word after `pos`: skip non-word characters, then word
/// characters, going forward.
pub open spec fn word_end_spec(s: Seq<char>, pos: int) -> int {
    if pos >= s.len() {
        s.len() as int
    } else {
        skip_fwd(s, skip_fwd(s, pos, false), true)
    }
}

proof fn lemma_skip_back_range(s: Seq<char>, i: int, alnum: bool)
    requires
        0 <= i <= s.len(),
    ensures
        0 <= skip_back(s, i, alnum) <= i,
    decreases i,
{
    if i > 0 && is_alnum(s[i - 1]) == alnum {
        lemma_skip_back_range(s, i - 1, alnum);
    }
}

proof fn lemma_skip_fwd_range(s: Seq<char>, i: int, alnum: bool)
    requires
        0 <= i <= s.len(),
    ensures
        i <= skip_fwd(s, i, alnum) <= s.len(),
    decreases s.len() - i,
{
    if i < s.len() && is_alnum(s[i]) == alnum {
        lemma_skip_fwd_range(s, i + 1, alnum);
    }
}

/// Skip characters of one kind going back from `i`.
fn skip_back_exec(chars: &Vec<char>, i: usize, alnum: bool) -> (r: usize)
    requires
        i <= chars@.len(),
    ensures
        r == skip_back(chars@, i as int, alnum),
{
    let mut j = i;
    while j > 0 && char_is_alphanumeric(chars[j - 1]) == alnum
        invariant
            j <= i <= chars@.len(),
            skip_back(chars@, j as int, alnum) == skip_back(chars@, i as int, alnum),
        decreases j,
    {
        j = j - 1;
    }
    j
}

/// Skip characters of one kind going forward from `i`.
fn skip_fwd_exec(chars: &Vec<char>, i: usize, alnum: bool) -> (r: usize)
    requires
        i <= chars@.len(),
    ensures
        r == skip_fwd(chars@, i as int, alnum),
{
    let mut j = i;
    while j < chars.len() && char_is_alphanumeric(chars[j]) == alnum
        invariant
            i <= j <= chars@.len(),
            skip_fwd(chars@, j as int, alnum) == skip_fwd(chars@, i as int, alnum),
        decreases chars.len() - j,
    {
        j = j + 1;
    }
    j
}

/// Find the start of the word before `pos` (a word is a run of
/// alphanumeric characters). Positions count characters.
pub fn find_word_start(text: &str, pos: usize) -> (r: usize)
    requires
        pos <= text@.len(),
    ensures
        r == word_start_spec(text@, pos as int),
        r <= pos,
{
    if pos == 0 {
        return 0;
    }
    let chars = str_chars(text);
    let i = skip_back_exec(&chars, pos, false);
    proof {
        lemma_skip_back_range(text@, pos as int, false);
    }
    let r = skip_back_exec(&chars, i, true);
    proof {
        lemma_skip_back_range(text@, i as int, true);
    }
    r
}

/// Find the end of the word after `pos` (a word is a run of alphanumeric
/// characters). Positions count characters.
pub fn find_word_end(text: &str, pos: usize) -> (r: usize)
    ensures
        r == word_end_spec(text@, pos as int),
        pos < text@.len() ==> pos <= r <= text@.len(),
        pos >= text@.len() ==> r == text@.len(),
{
    let chars = str_chars(text);
    let len = chars.len();
    if pos >= len {
        return len;
    }
    let i = skip_fwd_exec(&chars, pos, false);
    proof {
        lemma_skip_fwd_range(text@, pos as int, false);
    }
    let r = skip_fwd_exec(&chars, i, true);
    proof {
        lemma_skip_fwd_range(text@, i as int, true);
    }
    r
}

// =============================================================================
// Display
// =============================================================================

/// What the input shows: the placeholder when the value is empty and one is
/// given, the mask character once per character in password mode, else the
/// value.
pub open spec fn display_text_spec(
    value: Seq<char>,
    placeholder: Option<Seq<char>>,
    password: bool,
    mask_char: char,
) -> Seq<char> {
    if value.len() == 0 && placeholder is Some {
        placeholder->0
    } else if password {
        Seq::new(value.len(), |i: int| mask_char)
    } else {
        value
    }
}

/// The optional placeholder as characters.
pub open spec fn opt_str_view(s: Option<&str>) -> Option<Seq<char>> {
    match s {
        Some(t) => Some(t@),
        None => None,
    }
}

/// The text an input displays for its value.
pub fn input_display_text(value: &str, placeholder: Option<&str>, password: bool, mask_char: char) -> (s: String)
    ensures
        s@ == display_text_spec(value@, opt_str_view(placeholder), password, mask_char),
{
    let chars = str_chars(value);
    if chars.len() == 0 {
        if let Some(ph) = placeholder {
            return ph.to_string();
        }
    }
    if password {
        let mut masked: Vec<char> = Vec::new();
        let mut i: usize = 0;
        while i < chars.len()
            invariant
                i <= chars@.len(),
                masked@ == Seq::new(i as nat, |j: int| mask_char),
            decreases chars.len() - i,
        {
            masked.push(mask_char);
            assert(masked@ =~= Seq::new((i + 1) as nat, |j: int| mask_char));
            i = i + 1;
        }
        string_from_chars(masked.as_slice())
    } else {
        value.to_string()
    }
}

/// The cursor shown for a value: the stored position, clamped to the
/// value's length.
pub fn input_cursor_position(value: &str, cursor: u16) -> (p: u16)
    ensures
        p == (if (cursor as int) < ((value@.len() as u16) as int) { cursor } else { value@.len() as u16 }),
{
    let n = str_chars(value).len();
    #[verifier::truncate]
    let n16 = n as u16;
    if cursor < n16 { cursor } else { n16 }
}

// =============================================================================
// Editing
// =============================================================================

/// What the input reports besides its new value and cursor.
#[derive(Debug, Clone, Copy, PartialEq, Eq, Structural)]
pub enum InputNotice {
    /// Nothing to report.
    Quiet,
    /// The value changed (the change callback runs with the new value).
    Changed,
    /// Enter was pressed (the submit callback runs with the value).
    Submitted,
    /// Escape was pressed (the cancel callback runs).
    Cancelled,
    /// Ctrl+A: select characters 0 up to the given end.
    SelectAll(u16),
}

/// The outcome of one key on the input.
#[derive(Debug)]
pub struct InputKeyResult {
    /// Whether the input consumed the key.
    pub handled: bool,
    /// The value after the key.
    pub value: String,
    /// The stored cursor after the key.
    pub cursor: u16,
    pub notice: InputNotice,
}

/// Whether a key is one printable ASCII character (a key string of one byte).
pub open spec fn is_single_ascii(key: Seq<char>) -> bool {
    key.len() == 1 && (key[0] as u32) < 128
}

/// The cursor the key handler works from: the stored cursor clamped to the
/// value's length, both read as 16-bit numbers.
pub open spec fn working_pos(value: Seq<char>, cursor: u16) -> int {
    if (cursor as int) < ((value.len() as u16) as int) { cursor as int } else { (value.len() as u16) as int }
}

/// The value with the characters in `[a, b)` removed.
pub open spec fn cut(value: Seq<char>, a: int, b: int) -> Seq<char> {
    value.take(a) + value.skip(b)
}

/// One key on the input: (handled, new value, new stored cursor, notice).
/// Ctrl+arrows move by words, Ctrl+Backspace/Delete delete words, Ctrl+A
/// selects all; arrows, Home and End move; Backspace and Delete delete one
/// character; Enter submits; Escape cancels; a single ASCII character without
/// Alt or Meta is inserted unless the value already has `max_length` (when
/// nonzero) characters.
pub open spec fn input_key_spec(
    value: Seq<char>,
    cursor: u16,
    key: Seq<char>,
    m: Modifiers,
    max_length: usize,
) -> (bool, Seq<char>, u16, InputNotice) {
    let n = value.len() as int;
    let pos = working_pos(value, cursor);
    if m.ctrl {
        if key == "ArrowLeft"@ {
            (true, value, word_start_spec(value, pos) as u16, InputNotice::Quiet)
        } else if key == "ArrowRight"@ {
            (true, value, word_end_spec(value, pos) as u16, InputNotice::Quiet)
        } else if key == "Backspace"@ {
            if pos > 0 {
                let ws = word_start_spec(value, pos);
                (true, cut(value, ws, pos), ws as u16, InputNotice::Changed)
            } else {
                (true, value, cursor, InputNotice::Quiet)
            }
        } else if key == "Delete"@ {
            if pos < n {
                (true, cut(value, pos, word_end_spec(value, pos)), cursor, InputNotice::Changed)
            } else {
                (true, value, cursor, InputNotice::Quiet)
            }
        } else if key == "a"@ || key == "A"@ {
            (true, value, cursor, InputNotice::SelectAll(n as u16))
        } else {
            (false, value, cursor, InputNotice::Quiet)
        }
    } else if key == "ArrowLeft"@ {
        (true, value, if pos > 0 { (pos - 1) as u16 } else { cursor }, InputNotice::Quiet)
    } else if key == "ArrowRight"@ {
        (true, value, if pos < n { (pos + 1) as u16 } else { cursor }, InputNotice::Quiet)
    } else if key == "Home"@ {
        (true, value, 0u16, InputNotice::Quiet)
    } else if key == "End"@ {
        (true, value, n as u16, InputNotice::Quiet)
    } else if key == "Backspace"@ {
        if pos > 0 {
            (true, value.remove(pos - 1), (pos - 1) as u16, InputNotice::Changed)
        } else {
            (true, value, cursor, InputNotice::Quiet)
        }
    } else if key == "Delete"@ {
        if pos < n {
            (true, value.remove(pos), cursor, InputNotice::Changed)
        } else {
            (true, value, cursor, InputNotice::Quiet)
        }
    } else if key == "Enter"@ {
        (true, value, cursor, InputNotice::Submitted)
    } else if key == "Escape"@ {
        (true, value, cursor, InputNotice::Cancelled)
    } else if is_single_ascii(key) && !m.alt && !m.meta {
        if max_length > 0 && n >= max_length {
            (true, value, cursor, InputNotice::Quiet)
        } else {
            (true, value.insert(pos, key[0]), (pos + 1) as u16, InputNotice::Changed)
        }
    } else {
        (false, value, cursor, InputNotice::Quiet)
    }
}

/// Whether a key string equals a literal.
fn key_is(key: &String, lit: &str) -> (b: bool)
    ensures
        b == (key@ == lit@),
{
    let a = str_chars(key.as_str());
    let l = str_chars(lit);
    crate::chars::chars_eq(a.as_slice(), l.as_slice())
}

/// The characters with those in `[a, b)` removed.
fn cut_chars(chars: &Vec<char>, a: usize, b: usize) -> (s: String)
    requires
        a <= b <= chars@.len(),
    ensures
        s@ == cut(chars@, a as int, b as int),
{
    let mut out: Vec<char> = Vec::new();
    let mut i: usize = 0;
    while i < a
        invariant
            i <= a <= b <= chars@.len(),
            out@ == chars@.take(i as int),
        decreases a - i,
    {
        out.push(chars[i]);
        assert(chars@.take(i + 1) =~= chars@.take(i as int).push(chars@[i as int]));
        i = i + 1;
    }
    let mut j: usize = b;
    while j < chars.len()
        invariant
            a <= b <= j <= chars@.len(),
            out@ == chars@.take(a as int) + chars@.subrange(b as int, j as int),
        decreases chars.len() - j,
    {
        out.push(chars[j]);
        assert(chars@.subrange(b as int, j + 1) =~= chars@.subrange(b as int, j as int).push(chars@[j as int]));
        j = j + 1;
    }
    assert(chars@.subrange(b as int, chars@.len() as int) =~= chars@.skip(b as int));
    string_from_chars(out.as_slice())
}

/// The characters with `c` inserted at position `p`.
fn insert_char(chars: &Vec<char>, p: usize, c: char) -> (s: String)
    requires
        p <= chars@.len(),
    ensures
        s@ == chars@.insert(p as int, c),
{
    let mut out: Vec<char> = Vec::new();
    let mut i: usize = 0;
    while i < chars.len()
        invariant
            p <= chars@.len(),
            i <= chars@.len(),
            out@ == (if i <= p { chars@.take(i as int) } else { chars@.take(p as int).push(c) + chars@.subrange(p as int, i as int) }),
        decreases chars.len() - i,
    {
        if i == p {
            out.push(c);
            assert(out@ =~= chars@.take(p as int).push(c) + chars@.subrange(p as int, i as int));
        }
        out.push(chars[i]);
        if i < p {
            assert(chars@.take(i + 1) =~= chars@.take(i as int).push(chars@[i as int]));
        } else {
            assert(chars@.subrange(p as int, i + 1) =~= chars@.subrange(p as int, i as int).push(chars@[i as int]));
        }
        i = i + 1;
    }
    if p == chars.len() {
        out.push(c);
        assert(chars@.take(p as int) =~= chars@);
    } else {
        assert(chars@.subrange(p as int, chars@.len() as int) =~= chars@.skip(p as int));
    }
    assert(out@ =~= chars@.insert(p as int, c));
    string_from_chars(out.as_slice())
}

/// Apply one key to an input whose value is `value` and whose stored cursor
/// is `cursor`; `max_length` 0 means unlimited.
pub fn input_handle_key(value: &str, cursor: u16, event: &KeyboardEvent, max_length: usize) -> (r: InputKeyResult)
    ensures
        (r.handled, r.value@, r.cursor, r.notice) == input_key_spec(value@, cursor, event.key@, event.modifiers, max_length),
{
    let chars = str_chars(value);
    let n = chars.len();
    #[verifier::truncate]
    let n16 = n as u16;
    let pos: usize = if cursor < n16 { cursor as usize } else { n16 as usize };
    assert(pos as int == working_pos(value@, cursor));
    let m = event.modifiers;
    let k = &event.key;
    let same = value.to_string();
    if m.ctrl {
        if key_is(k, "ArrowLeft") {
            let ws = find_word_start(value, pos);
            #[verifier::truncate]
            let c = ws as u16;
            InputKeyResult { handled: true, value: same, cursor: c, notice: InputNotice::Quiet }
        } else if key_is(k, "ArrowRight") {
            let we = find_word_end(value, pos);
            #[verifier::truncate]
            let c = we as u16;
            InputKeyResult { handled: true, value: same, cursor: c, notice: InputNotice::Quiet }
        } else if key_is(k, "Backspace") {
            if pos > 0 {
                let ws = find_word_start(value, pos);
                let nv = cut_chars(&chars, ws, pos);
                #[verifier::truncate]
                let c = ws as u16;
                InputKeyResult { handled: true, value: nv, cursor: c, notice: InputNotice::Changed }
            } else {
                InputKeyResult { handled: true, value: same, cursor, notice: InputNotice::Quiet }
            }
        } else if key_is(k, "Delete") {
            if pos < n {
                let we = find_word_end(value, pos);
                let nv = cut_chars(&chars, pos, we);
                InputKeyResult { handled: true, value: nv, cursor, notice: InputNotice::Changed }
            } else {
                InputKeyResult { handled: true, value: same, cursor, notice: InputNotice::Quiet }
            }
        } else if key_is(k, "a") || key_is(k, "A") {
            InputKeyResult { handled: true, value: same, cursor, notice: InputNotice::SelectAll(n16) }
        } else {
            InputKeyResult { handled: false, value: same, cursor, notice: InputNotice::Quiet }
        }
    } else if key_is(k, "ArrowLeft") {
        let c = if pos > 0 { (pos - 1) as u16 } else { cursor };
        InputKeyResult { handled: true, value: same, cursor: c, notice: InputNotice::Quiet }
    } else if key_is(k, "ArrowRight") {
        let c = if pos < n { (pos + 1) as u16 } else { cursor };
        InputKeyResult { handled: true, value: same, cursor: c, notice: InputNotice::Quiet }
    } else if key_is(k, "Home") {
        InputKeyResult { handled: true, value: same, cursor: 0, notice: InputNotice::Quiet }
    } else if key_is(k, "End") {
        InputKeyResult { handled: true, value: same, cursor: n16, notice: InputNotice::Quiet }
    } else if key_is(k, "Backspace") {
        if pos > 0 {
            let nv = cut_chars(&chars, pos - 1, pos);
            assert(cut(chars@, pos - 1, pos as int) =~= chars@.remove(pos - 1));
            InputKeyResult { handled: true, value: nv, cursor: (pos - 1) as u16, notice: InputNotice::Changed }
        } else {
            InputKeyResult { handled: true, value: same, cursor, notice: InputNotice::Quiet }
        }
    } else if key_is(k, "Delete") {
        if pos < n {
            let nv = cut_chars(&chars, pos, pos + 1);
            assert(cut(chars@, pos as int, pos + 1) =~= chars@.remove(pos as int));
            InputKeyResult { handled: true, value: nv, cursor, notice: InputNotice::Changed }
        } else {
            InputKeyResult { handled: true, value: same, cursor, notice: InputNotice::Quiet }
        }
    } else if key_is(k, "Enter") {
        InputKeyResult { handled: true, value: same, cursor, notice: InputNotice::Submitted }
    } else if key_is(k, "Escape") {
        InputKeyResult { handled: true, value: same, cursor, notice: InputNotice::Cancelled }
    } else {
        let kc = str_chars(k.as_str());
        if kc.len() == 1 && (kc[0] as u32) < 128 && !m.alt && !m.meta {
            if max_length > 0 && n >= max_length {
                InputKeyResult { handled: true, value: same, cursor, notice: InputNotice::Quiet }
            } else {
                let nv = insert_char(&chars, pos, kc[0]);
                #[verifier::truncate]
                let c = (pos + 1) as u16;
                InputKeyResult { handled: true, value: nv, cursor: c, notice: InputNotice::Changed }
            }
        } else {
            InputKeyResult { handled: false, value: same, cursor, notice: InputNotice::Quiet }
        }
    }
}


// =============================================================================
// Creation
// =============================================================================

/// Properties of an input; `None` leaves a property as it is.
#[derive(Debug, Clone)]
pub struct InputProps {
    /// A stable ID; one is generated when absent.
    pub id: Option<String>,
    /// The current value.
    pub value: String,
    /// Shown when the value is empty.
    pub placeholder: Option<String>,
    pub attrs: Option<Attr>,
    /// Longest value accepted when typing (0 or absent: unlimited).
    pub max_length: Option<usize>,
    /// Show the mask character in place of each character.
    pub password: bool,
    /// The mask character ('•' when absent).
    pub mask_char: Option<char>,
    pub visible: Option<bool>,
    pub width: Option<Dimension>,
    pub height: Option<Dimension>,
    pub min_width: Option<Dimension>,
    pub max_width: Option<Dimension>,
    pub min_height: Option<Dimension>,
    pub max_height: Option<Dimension>,
    pub padding: Option<u16>,
    pub padding_top: Option<u16>,
    pub padding_right: Option<u16>,
    pub padding_bottom: Option<u16>,
    pub padding_left: Option<u16>,
    pub margin: Option<u16>,
    pub margin_top: Option<u16>,
    pub margin_right: Option<u16>,
    pub margin_bottom: Option<u16>,
    pub margin_left: Option<u16>,
    pub border: Option<BorderStyle>,
    pub border_color: Option<Rgba>,
    pub fg: Option<Rgba>,
    pub bg: Option<Rgba>,
    pub opacity: Option<u8>,
    pub tab_index: Option<i32>,
    /// Focus the input once it is created.
    pub auto_focus: bool,
}

impl InputProps {
    /// Properties with the given value and nothing else set.
    pub fn new(value: String) -> (p: InputProps)
        ensures
            p.value == value,
            p.id is None && p.placeholder is None && p.mask_char is None && p.max_length is None,
            !p.password,
            !p.auto_focus,
    {
        InputProps {
            id: None,
            value,
            placeholder: None,
            attrs: None,
            max_length: None,
            password: false,
            mask_char: None,
            visible: None,
            width: None,
            height: None,
            min_width: None,
            max_width: None,
            min_height: None,
            max_height: None,
            padding: None,
            padding_top: None,
            padding_right: None,
            padding_bottom: None,
            padding_left: None,
            margin: None,
            margin_top: None,
            margin_right: None,
            margin_bottom: None,
            margin_left: None,
            border: None,
            border_color: None,
            fg: None,
            bg: None,
            opacity: None,
            tab_index: None,
            auto_focus: false,
        }
    }
}

/// The FlexNode of an input after applying its size, spacing and border
/// properties.
pub open spec fn input_node_spec(n: FlexNode, p: InputProps) -> FlexNode {
    FlexNode {
        width: pick(p.width, n.width),
        height: pick(p.height, n.height),
        min_width: pick(p.min_width, n.min_width),
        max_width: pick(p.max_width, n.max_width),
        min_height: pick(p.min_height, n.min_height),
        max_height: pick(p.max_height, n.max_height),
        margin_top: side(p.margin_top, p.margin, n.margin_top),
        margin_right: side(p.margin_right, p.margin, n.margin_right),
        margin_bottom: side(p.margin_bottom, p.margin, n.margin_bottom),
        margin_left: side(p.margin_left, p.margin, n.margin_left),
        padding_top: side(p.padding_top, p.padding, n.padding_top),
        padding_right: side(p.padding_right, p.padding, n.padding_right),
        padding_bottom: side(p.padding_bottom, p.padding, n.padding_bottom),
        padding_left: side(p.padding_left, p.padding, n.padding_left),
        border_top: border_width(p.border, n.border_top),
        border_right: border_width(p.border, n.border_right),
        border_bottom: border_width(p.border, n.border_bottom),
        border_left: border_width(p.border, n.border_left),
        ..n
    }
}

/// Each layout property given to an input is what its FlexNode holds: a
/// side given on its own wins over the shorthand (`margin`, `padding`),
/// which wins over what the node held; a border style other than
/// `NoBorder` gives a one-cell border on all four sides and `NoBorder`
/// none; a property not given keeps what the node held.
pub proof fn lemma_input_props_taken(n: FlexNode, p: InputProps)
    ensures
        p.margin_top matches Some(v) ==> input_node_spec(n, p).margin_top == v,
        p.margin is Some && p.margin_top is None ==> input_node_spec(n, p).margin_top == p.margin->0,
        p.margin_top is None && p.margin is None ==> input_node_spec(n, p).margin_top == n.margin_top,
        p.margin_right matches Some(v) ==> input_node_spec(n, p).margin_right == v,
        p.margin is Some && p.margin_right is None ==> input_node_spec(n, p).margin_right == p.margin->0,
        p.margin_right is None && p.margin is None ==> input_node_spec(n, p).margin_right == n.margin_right,
        p.margin_bottom matches Some(v) ==> input_node_spec(n, p).margin_bottom == v,
        p.margin is Some && p.margin_bottom is None ==> input_node_spec(n, p).margin_bottom == p.margin->0,
        p.margin_bottom is None && p.margin is None ==> input_node_spec(n, p).margin_bottom == n.margin_bottom,
        p.margin_left matches Some(v) ==> input_node_spec(n, p).margin_left == v,
        p.margin is Some && p.margin_left is None ==> input_node_spec(n, p).margin_left == p.margin->0,
        p.margin_left is None && p.margin is None ==> input_node_spec(n, p).margin_left == n.margin_left,
        p.padding_top matches Some(v) ==> input_node_spec(n, p).padding_top == v,
        p.padding is Some && p.padding_top is None ==> input_node_spec(n, p).padding_top == p.padding->0,
        p.padding_top is None && p.padding is None ==> input_node_spec(n, p).padding_top == n.padding_top,
        p.padding_right matches Some(v) ==> input_node_spec(n, p).padding_right == v,
        p.padding is Some && p.padding_right is None ==> input_node_spec(n, p).padding_right == p.padding->0,
        p.padding_right is None && p.padding is None ==> input_node_spec(n, p).padding_right == n.padding_right,
        p.padding_bottom matches Some(v) ==> input_node_spec(n, p).padding_bottom == v,
        p.padding is Some && p.padding_bottom is None ==> input_node_spec(n, p).padding_bottom == p.padding->0,
        p.padding_bottom is None && p.padding is None ==> input_node_spec(n, p).padding_bottom == n.padding_bottom,
        p.padding_left matches Some(v) ==> input_node_spec(n, p).padding_left == v,
        p.padding is Some && p.padding_left is None ==> input_node_spec(n, p).padding_left == p.padding->0,
        p.padding_left is None && p.padding is None ==> input_node_spec(n, p).padding_left == n.padding_left,
        p.width matches Some(v) ==> input_node_spec(n, p).width == v,
        p.width is None ==> input_node_spec(n, p).width == n.width,
        p.height matches Some(v) ==> input_node_spec(n, p).height == v,
        p.height is None ==> input_node_spec(n, p).height == n.height,
        p.min_width matches Some(v) ==> input_node_spec(n, p).min_width == v,
        p.min_width is None ==> input_node_spec(n, p).min_width == n.min_width,
        p.max_width matches Some(v) ==> input_node_spec(n, p).max_width == v,
        p.max_width is None ==> input_node_spec(n, p).max_width == n.max_width,
        p.min_height matches Some(v) ==> input_node_spec(n, p).min_height == v,
        p.min_height is None ==> input_node_spec(n, p).min_height == n.min_height,
        p.max_height matches Some(v) ==> input_node_spec(n, p).max_height == v,
        p.max_height is None ==> input_node_spec(n, p).max_height == n.max_height,
        p.border matches Some(s) && s != BorderStyle::NoBorder ==> input_node_spec(n, p).border_top == 1,
        p.border == Some(BorderStyle::NoBorder) ==> input_node_spec(n, p).border_top == 0,
        p.border is None ==> input_node_spec(n, p).border_top == n.border_top,
        p.border matches Some(s) && s != BorderStyle::NoBorder ==> input_node_spec(n, p).border_right == 1,
        p.border == Some(BorderStyle::NoBorder) ==> input_node_spec(n, p).border_right == 0,
        p.border is None ==> input_node_spec(n, p).border_right == n.border_right,
        p.border matches Some(s) && s != BorderStyle::NoBorder ==> input_node_spec(n, p).border_bottom == 1,
        p.border == Some(BorderStyle::NoBorder) ==> input_node_spec(n, p).border_bottom == 0,
        p.border is None ==> input_node_spec(n, p).border_bottom == n.border_bottom,
        p.border matches Some(s) && s != BorderStyle::NoBorder ==> input_node_spec(n, p).border_left == 1,
        p.border == Some(BorderStyle::NoBorder) ==> input_node_spec(n, p).border_left == 0,
        p.border is None ==> input_node_spec(n, p).border_left == n.border_left,
        input_node_spec(n, p).index == n.index,
{
}

/// Apply an input's layout properties to a FlexNode.
pub fn input_node(n: FlexNode, p: &InputProps) -> (r: FlexNode)
    ensures
        r == input_node_spec(n, *p),
{
    FlexNode {
        width: pick_exec(p.width, n.width),
        height: pick_exec(p.height, n.height),
        min_width: pick_exec(p.min_width, n.min_width),
        max_width: pick_exec(p.max_width, n.max_width),
        min_height: pick_exec(p.min_height, n.min_height),
        max_height: pick_exec(p.max_height, n.max_height),
        margin_top: side_exec(p.margin_top, p.margin, n.margin_top),
        margin_right: side_exec(p.margin_right, p.margin, n.margin_right),
        margin_bottom: side_exec(p.margin_bottom, p.margin, n.margin_bottom),
        margin_left: side_exec(p.margin_left, p.margin, n.margin_left),
        padding_top: side_exec(p.padding_top, p.padding, n.padding_top),
        padding_right: side_exec(p.padding_right, p.padding, n.padding_right),
        padding_bottom: side_exec(p.padding_bottom, p.padding, n.padding_bottom),
        padding_left: side_exec(p.padding_left, p.padding, n.padding_left),
        border_top: border_width_exec(p.border, n.border_top),
        border_right: border_width_exec(p.border, n.border_right),
        border_bottom: border_width_exec(p.border, n.border_bottom),
        border_left: border_width_exec(p.border, n.border_left),
        ..n
    }
}

/// The optional placeholder as a string slice.
fn placeholder_ref(p: &Option<String>) -> (r: Option<&str>)
    ensures
        opt_str_view(r) == match p {
            Some(s) => Some(s@),
            None => None::<Seq<char>>,
        },
{
    match p {
        Some(s) => Some(s.as_str()),
        None => None,
    }
}

/// The mask character of an input.
pub open spec fn mask_of(p: InputProps) -> char {
    match p.mask_char {
        Some(c) => c,
        None => '•',
    }
}

/// Apply an input's border, colors, opacity and focus order at `index`
/// (it is focusable), changing nothing else.
fn apply_input_styles(arrays: &mut Arrays, index: usize, props: &InputProps)
    ensures
        old(arrays).fields_kept(&*final(arrays), index as int),
        final(arrays).core == old(arrays).core,
        final(arrays).flex == old(arrays).flex,
        final(arrays).text == old(arrays).text,
        final(arrays).interaction.cursor_position == old(arrays).interaction.cursor_position,
        final(arrays).interaction.cursor_visible == old(arrays).interaction.cursor_visible,
        props.border matches Some(s) ==> final(arrays).visual.border_style.at(index as int) == s,
        props.border_color matches Some(c) ==> final(arrays).visual.border_color.at(index as int) == c,
        props.fg matches Some(c) ==> final(arrays).visual.fg_color.at(index as int) == c,
        props.bg matches Some(c) ==> final(arrays).visual.bg_color.at(index as int) == c,
        props.opacity matches Some(o) ==> final(arrays).visual.opacity.at(index as int) == o,
        final(arrays).interaction.focusable.at(index as int),
        props.tab_index matches Some(t) ==> final(arrays).interaction.tab_index.at(index as int) == t,
{
    if let Some(s) = props.border {
        set_border_style(&mut arrays.visual, index, s);
    }
    if let Some(c) = props.border_color {
        set_border_color(&mut arrays.visual, index, c);
    }
    if let Some(c) = props.fg {
        set_fg_color(&mut arrays.visual, index, c);
    }
    if let Some(c) = props.bg {
        set_bg_color(&mut arrays.visual, index, c);
    }
    if let Some(o) = props.opacity {
        set_opacity(&mut arrays.visual, index, o);
    }
    set_focusable(&mut arrays.interaction, index, true);
    if let Some(t) = props.tab_index {
        set_tab_index(&mut arrays.interaction, index, t);
    }
}

/// Create an input as `input` does and, when `auto_focus` is set, focus it
/// (see `focus`); otherwise focus is left as it was.
pub fn input_with_focus<F: Fn()>(
    reg: &mut Registry,
    arrays: &mut Arrays,
    focus_state: &mut FocusState<F>,
    props: &InputProps,
) -> (index: usize)
    requires
        old(reg).wf(),
        old(reg).next_index_spec() < usize::MAX,
        props.id is None ==> old(reg).id_counter_spec() < usize::MAX,
        old(focus_state).wf(),
    ensures
        final(reg).wf(),
        final(focus_state).wf(),
        final(reg).is_allocated_spec(index as int),
        index == index_for(old(reg), requested_key(old(reg), props.id)),
        old(reg).allocation_frame(&*final(reg), index as int),
        old(arrays).others_kept(&*final(arrays), index as int),
        final(arrays).core.component_type.at(index as int) == ComponentType::Input,
        final(arrays).interaction.focusable.at(index as int),
        props.auto_focus ==> focus_done(*old(focus_state), *final(focus_state), &*final(reg), &*final(arrays), index),
        !props.auto_focus ==> *final(focus_state) == *old(focus_state),
{
    let index = input(reg, arrays, props);
    if props.auto_focus {
        focus(focus_state, reg, arrays, index);
    }
    index
}

/// Create an input: allocate its index (reusing a live component with the
/// same ID), make it an input under the current parent, show its display
/// text, put the cursor at the start and visible, make it focusable, and
/// apply its layout and visual properties. Returns the index; while the
/// input is focused, `input_apply_key` handles its keys.
#[verifier::rlimit(60)]
pub fn input(reg: &mut Registry, arrays: &mut Arrays, props: &InputProps) -> (index: usize)
    requires
        old(reg).wf(),
        old(reg).next_index_spec() < usize::MAX,
        props.id is None ==> old(reg).id_counter_spec() < usize::MAX,
    ensures
        final(reg).wf(),
        final(reg).is_allocated_spec(index as int),
        index == index_for(old(reg), requested_key(old(reg), props.id)),
        old(reg).allocation_frame(&*final(reg), index as int),
        final(reg).id_counter_spec() == if props.id is None {
            old(reg).id_counter_spec() + 1
        } else {
            old(reg).id_counter_spec()
        },
        old(arrays).others_kept(&*final(arrays), index as int),
        final(reg).id_at(index as int) == Some(requested_key(old(reg), props.id)),
        final(reg).parent_stack_spec() == old(reg).parent_stack_spec(),
        final(arrays).core.component_type.at(index as int) == ComponentType::Input,
        old(reg).parent_stack_spec().len() > 0 ==> final(arrays).core.parent_index.at(index as int) == Some(
            old(reg).parent_stack_spec().last(),
        ),
        old(reg).parent_stack_spec().len() == 0 ==> final(arrays).core.parent_index.at(index as int) == old(
            arrays,
        ).core.parent_index.at(index as int),
        props.visible matches Some(v) ==> final(arrays).core.visible.at(index as int) == v,
        final(arrays).text.content.at(index as int) == display_text_spec(
            props.value@,
            match props.placeholder {
                Some(s) => Some(s@),
                None => None::<Seq<char>>,
            },
            props.password,
            mask_of(*props),
        ),
        props.attrs matches Some(a) ==> final(arrays).text.attrs.at(index as int) == a,
        final(arrays).interaction.cursor_position.at(index as int) == 0u16,
        final(arrays).interaction.cursor_visible.at(index as int),
        final(arrays).interaction.focusable.at(index as int),
        props.tab_index matches Some(t) ==> final(arrays).interaction.tab_index.at(index as int) == t,
        final(arrays).flex.node_at(index as int) == Some(input_node_spec(starting_node(&*old(arrays), index), *props)),
        props.border matches Some(s) ==> final(arrays).visual.border_style.at(index as int) == s,
        props.border_color matches Some(c) ==> final(arrays).visual.border_color.at(index as int) == c,
        props.fg matches Some(c) ==> final(arrays).visual.fg_color.at(index as int) == c,
        props.bg matches Some(c) ==> final(arrays).visual.bg_color.at(index as int) == c,
        props.opacity matches Some(o) ==> final(arrays).visual.opacity.at(index as int) == o,
{
    let index = allocate_index(reg, arrays, id_ref(&props.id));
    let ghost a1 = *arrays;
    let start = create_flex_node(&mut arrays.flex, index);
    set_component_type(&mut arrays.core, index, ComponentType::Input);
    if let Some(p) = get_current_parent_index(reg) {
        set_parent_index(&mut arrays.core, index, Some(p));
    }
    let mask = match props.mask_char {
        Some(c) => c,
        None => '•',
    };
    let shown = input_display_text(props.value.as_str(), placeholder_ref(&props.placeholder), props.password, mask);
    set_text_content(&mut arrays.text, index, shown);
    if let Some(a) = props.attrs {
        set_text_attrs(&mut arrays.text, index, a);
    }
    if let Some(v) = props.visible {
        set_visible(&mut arrays.core, index, v);
    }
    set_cursor_position(&mut arrays.interaction, index, 0);
    set_cursor_visible(&mut arrays.interaction, index, true);
    let node = input_node(start, props);
    set_flex_node(&mut arrays.flex, index, node);
    let ghost a2 = *arrays;
    proof {
        assert(a1.fields_kept(&a2, index as int));
        a1.lemma_fields_kept(&a2, index as int);
    }
    apply_input_styles(arrays, index, props);
    proof {
        a2.lemma_fields_kept(&*arrays, index as int);
        a1.lemma_others_kept_trans(&a2, &*arrays, index as int);
        assert(old(arrays).others_kept(&a1, index as int)) by {
            assert forall|j: int| j != index implies #[trigger] old(arrays).same_at(&a1, j) by {
                assert(old(arrays).same_at(&a1, j));
            }
        }
        old(arrays).lemma_others_kept_trans(&a1, &*arrays, index as int);
    }
    index
}

/// Register the mouse handlers of input `index` as the input does when it
/// is created: its own, and a click on it focuses it (see
/// `focus_clicked`).
pub fn register_input_handlers<V: Fn(&MouseEvent), H: Fn(&MouseEvent) -> bool>(
    mouse: &mut MouseState<V, H>,
    index: usize,
    handlers: MouseHandlers<V, H>,
)
    requires
        old(mouse).wf(),
        handlers.callable(),
    ensures
        final(mouse).wf(),
        final(mouse).components_spec() == old(mouse).components_spec().filter(not_id::<MouseHandlers<V, H>>(index)).push(
            (index, (MouseHandlers { focus_on_click: true, ..handlers })),
        ),
        final(mouse).pointer_spec() == old(mouse).pointer_spec(),
        final(mouse).down_spec() == old(mouse).down_spec(),
        final(mouse).up_spec() == old(mouse).up_spec(),
        final(mouse).click_spec() == old(mouse).click_spec(),
        final(mouse).scroll_spec() == old(mouse).scroll_spec(),
        final(mouse).next_id_spec() == old(mouse).next_id_spec(),
{
    let mut h = handlers;
    h.focus_on_click = true;
    on_component(mouse, index, h);
}

/// The longest value typing may reach (0: unlimited).
pub open spec fn max_length_of(p: InputProps) -> usize {
    match p.max_length {
        Some(m) => m,
        None => 0,
    }
}

/// The placeholder as characters.
pub open spec fn placeholder_of(p: InputProps) -> Option<Seq<char>> {
    match p.placeholder {
        Some(s) => Some(s@),
        None => None,
    }
}

/// One key on a mounted input, as the input's key handler does it while
/// focused: the key works on `value` and on the cursor stored for `index`
/// (see `input_handle_key`); the new value is kept in `value`, the new
/// cursor stored, the displayed text refreshed from the new value, and
/// Ctrl+A selects the whole value. Returns whether the key was handled and
/// what to report to the input's callbacks.
pub fn input_apply_key(
    arrays: &mut Arrays,
    index: usize,
    value: &mut String,
    props: &InputProps,
    event: &KeyboardEvent,
) -> (r: (bool, InputNotice))
    ensures
        ({
            let k = input_key_spec(
                old(value)@,
                old(arrays).interaction.cursor_position.at(index as int),
                event.key@,
                event.modifiers,
                max_length_of(*props),
            );
            &&& r == (k.0, k.3)
            &&& final(value)@ == k.1
            &&& old(arrays).interaction.cursor_position.written(
                final(arrays).interaction.cursor_position,
                index as int,
                k.2,
            )
            &&& final(arrays).text.content.at(index as int) == display_text_spec(
                k.1,
                placeholder_of(*props),
                props.password,
                mask_of(*props),
            )
            &&& forall|i: int| i != index ==> #[trigger] final(arrays).text.content.at(i) == old(arrays).text.content.at(i)
            &&& match k.3 {
                InputNotice::SelectAll(e) => old(arrays).interaction.selection_start.written(
                    final(arrays).interaction.selection_start,
                    index as int,
                    0,
                ) && old(arrays).interaction.selection_end.written(
                    final(arrays).interaction.selection_end,
                    index as int,
                    e,
                ),
                _ => final(arrays).interaction.selection_start == old(arrays).interaction.selection_start
                    && final(arrays).interaction.selection_end == old(arrays).interaction.selection_end,
            }
        }),
        final(arrays).interaction == (InteractionArrays {
            cursor_position: final(arrays).interaction.cursor_position,
            selection_start: final(arrays).interaction.selection_start,
            selection_end: final(arrays).interaction.selection_end,
            ..old(arrays).interaction
        }),
        final(arrays).core == old(arrays).core,
        final(arrays).visual == old(arrays).visual,
        final(arrays).flex == old(arrays).flex,
        final(arrays).text.attrs == old(arrays).text.attrs,
        final(arrays).text.align == old(arrays).text.align,
        final(arrays).text.wrap == old(arrays).text.wrap,
{
    let cursor = get_cursor_position(&arrays.interaction, index);
    let max_length = match props.max_length {
        Some(m) => m,
        None => 0,
    };
    let result = input_handle_key(value.as_str(), cursor, event, max_length);
    set_cursor_position(&mut arrays.interaction, index, result.cursor);
    let mask = match props.mask_char {
        Some(c) => c,
        None => '•',
    };
    let shown = input_display_text(result.value.as_str(), placeholder_ref(&props.placeholder), props.password, mask);
    set_text_content(&mut arrays.text, index, shown);
    match result.notice {
        InputNotice::SelectAll(e) => {
            set_selection_start(&mut arrays.interaction, index, 0);
            set_selection_end(&mut arrays.interaction, index, e);
        },
        _ => {},
    }
    *value = result.value;
    (result.handled, result.notice)
}

// =============================================================================
// Laws
// =============================================================================

/// The stored cursor never passes the end of the value: if it is within the
/// value before a key, it is within the value after it (for values shorter
/// than the largest 16-bit position).
pub proof fn lemma_input_cursor_within_value(
    value: Seq<char>,
    cursor: u16,
    key: Seq<char>,
    m: Modifiers,
    max_length: usize,
)
    requires
        cursor <= value.len(),
        value.len() < u16::MAX,
    ensures
        ({
            let r = input_key_spec(value, cursor, key, m, max_length);
            r.2 <= r.1.len()
        }),
{
    let n = value.len() as int;
    let pos = working_pos(value, cursor);
    assert((value.len() as u16) as int == n);
    assert(pos == cursor as int);
    if pos > 0 {
        lemma_skip_back_range(value, pos, false);
        lemma_skip_back_range(value, skip_back(value, pos, false), true);
    }
    if pos < n {
        lemma_skip_fwd_range(value, pos, false);
        lemma_skip_fwd_range(value, skip_fwd(value, pos, false), true);
    }
}

/// Typing a character and then pressing Backspace gives back the value the
/// input had, with the cursor where it was (for an input that accepts the
/// character and a value shorter than the largest 16-bit position).
pub proof fn lemma_input_type_then_backspace(
    value: Seq<char>,
    cursor: u16,
    key: Seq<char>,
    max_length: usize,
)
    requires
        cursor <= value.len(),
        value.len() < u16::MAX,
        is_single_ascii(key),
        max_length == 0 || value.len() < max_length,
        key != "ArrowLeft"@,
        key != "ArrowRight"@,
        key != "Home"@,
        key != "End"@,
        key != "Backspace"@,
        key != "Delete"@,
        key != "Enter"@,
        key != "Escape"@,
    ensures
        ({
            let none = Modifiers { ctrl: false, alt: false, shift: false, meta: false };
            let typed = input_key_spec(value, cursor, key, none, max_length);
            let back = input_key_spec(typed.1, typed.2, "Backspace"@, none, max_length);
            back.1 == value && back.2 == cursor
        }),
{
    let none = Modifiers { ctrl: false, alt: false, shift: false, meta: false };
    let pos = cursor as int;
    reveal_strlit("Backspace");
    reveal_strlit("ArrowLeft");
    reveal_strlit("ArrowRight");
    reveal_strlit("Home");
    reveal_strlit("End");
    assert((value.len() as u16) as int == value.len());
    let typed = input_key_spec(value, cursor, key, none, max_length);
    assert(typed.1 == value.insert(pos, key[0]));
    assert(typed.2 as int == pos + 1);
    assert((typed.1.len() as u16) as int == typed.1.len());
    assert(working_pos(typed.1, typed.2) == pos + 1);
    assert(typed.1.remove(pos) =~= value);
}

} // verus!
