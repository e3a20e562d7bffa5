//! Clipboard: an internal text buffer for copy, cut and paste.

use vstd::prelude::*;

verus! {

broadcast use vstd::string::group_string_axioms;

/// UTF-8 length of a character, in bytes.
pub open spec fn utf8_len(c: char) -> nat {
    if (c as u32) < 0x80 {
        1
    } else if (c as u32) < 0x800 {
        2
    } else if (c as u32) < 0x10000 {
        3
    } else {
        4
    }
}

/// UTF-8 length of a text, in bytes.
pub open spec fn utf8_len_total(s: Seq<char>) -> nat
    decreases s.len(),
{
    if s.len() == 0 {
        0
    } else {
        utf8_len_total(s.drop_last()) + utf8_len(s.last())
    }
}

/// `String::len`: the length of the string in bytes, its UTF-8 encoding.
#[verifier::external_body]
fn string_byte_len(s: &String) -> (n: usize)
    ensures
        n == utf8_len_total(s@),
{
    s.len()
}

/// The clipboard buffer.
pub struct Clipboard {
    buffer: Option<String>,
}

impl Clipboard {
    /// What the clipboard holds.
    pub closed spec fn content(&self) -> Option<Seq<char>> {
        match self.buffer {
            Some(s) => Some(s@),
            None => None,
        }
    }

    /// An empty clipboard.
    pub fn new() -> (c: Clipboard)
        ensures
            c.content() is None,
    {
        Clipboard { buffer: None }
    }
}

/// Copy text to the clipboard; empty text is ignored.
pub fn copy(clip: &mut Clipboard, text: &str)
    ensures
        final(clip).content() == if text@.len() == 0 { old(clip).content() } else { Some(text@) },
{
    if text.unicode_len() == 0 {
        return;
    }
    clip.buffer = Some(text.to_string());
}

/// The most recently copied text, if any.
pub fn paste(clip: &Clipboard) -> (r: Option<String>)
    ensures
        match r {
            Some(s) => clip.content() == Some(s@),
            None => clip.content() is None,
        },
{
    match &clip.buffer {
        Some(s) => Some(s.clone()),
        None => None,
    }
}

/// Cut: copy the text and hand it back for the caller to delete; None (and
/// nothing copied) for empty text.
pub fn cut(clip: &mut Clipboard, text: &str) -> (r: Option<String>)
    ensures
        text@.len() == 0 ==> r is None && final(clip).content() == old(clip).content(),
        text@.len() > 0 ==> (r matches Some(s) && s@ == text@) && final(clip).content() == Some(text@),
{
    if text.unicode_len() == 0 {
        return None;
    }
    copy(clip, text);
    Some(text.to_string())
}

/// Empty the clipboard.
pub fn clear(clip: &mut Clipboard)
    ensures
        final(clip).content() is None,
{
    clip.buffer = None;
}

/// Whether the clipboard holds text.
pub fn has_content(clip: &Clipboard) -> (b: bool)
    ensures
        b == clip.content() is Some,
{
    clip.buffer.is_some()
}

/// Length in bytes of the clipboard text, 0 when empty.
pub fn content_length(clip: &Clipboard) -> (n: usize)
    ensures
        n == match clip.content() {
            Some(s) => utf8_len_total(s),
            None => 0,
        },
{
    match &clip.buffer {
        Some(s) => string_byte_len(s),
        None => 0,
    }
}

} // verus!
