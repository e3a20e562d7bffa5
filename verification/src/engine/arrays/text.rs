//! Text arrays: content, attributes, alignment and wrap mode.

use vstd::prelude::*;
use crate::engine::slot::SlotArray;
use crate::types::{Attr, TextAlign, TextWrap};

verus! {

/// Per-component text content; unset slots read as the empty string.
pub struct TextContent {
    values: Vec<String>,
}

impl TextContent {
    /// The text held at index i.
    pub closed spec fn at(&self, i: int) -> Seq<char> {
        if 0 <= i < self.values@.len() {
            self.values@[i]@
        } else {
            Seq::empty()
        }
    }

    /// Number of slots with storage.
    pub closed spec fn capacity_spec(&self) -> nat {
        self.values@.len()
    }

    /// No text anywhere.
    pub fn new() -> (t: TextContent)
        ensures
            forall|i: int| #[trigger] t.at(i) == Seq::<char>::empty(),
    {
        TextContent { values: Vec::new() }
    }

    /// Read the text at `index`.
    pub fn get(&self, index: usize) -> (s: String)
        ensures
            s@ == self.at(index as int),
    {
        if index < self.values.len() {
            self.values[index].clone()
        } else {
            String::new()
        }
    }

    /// Make room for `index` without changing what any slot reads.
    pub fn ensure_capacity(&mut self, index: usize)
        ensures
            forall|i: int| #[trigger] final(self).at(i) == old(self).at(i),
            final(self).capacity_spec() > index,
    {
        while self.values.len() <= index
            invariant
                old(self).values@.len() <= self.values@.len(),
                forall|i: int|
                    0 <= i < self.values@.len() ==> #[trigger] self.values@[i]@ == (if i < old(
                        self,
                    ).values@.len() {
                        old(self).values@[i]@
                    } else {
                        Seq::<char>::empty()
                    }),
            decreases index + 1 - self.values.len(),
        {
            self.values.push(String::new());
        }
        assert forall|i: int| #[trigger] self.at(i) == old(self).at(i) by {
            if 0 <= i < self.values@.len() {
            }
        }
    }

    /// Write text at `index`.
    pub fn set_value(&mut self, index: usize, content: String)
        ensures
            final(self).at(index as int) == content@,
            forall|i: int| i != index ==> #[trigger] final(self).at(i) == old(self).at(i),
    {
        self.ensure_capacity(index);
        let ghost mid = *self;
        self.values.set(index, content);
        assert forall|i: int| i != index implies #[trigger] self.at(i) == old(self).at(i) by {
            assert(self.at(i) == mid.at(i));
        }
    }

    /// Empty the text at `index`.
    pub fn clear(&mut self, index: usize)
        ensures
            final(self).at(index as int) == Seq::<char>::empty(),
            forall|i: int| i != index ==> #[trigger] final(self).at(i) == old(self).at(i),
    {
        if index < self.values.len() {
            let ghost mid = *self;
            self.values.set(index, String::new());
            assert forall|i: int| i != index implies #[trigger] self.at(i) == old(self).at(i) by {
                assert(self.at(i) == mid.at(i));
            }
        }
    }

    /// Empty every slot.
    pub fn clear_all(&mut self)
        ensures
            forall|i: int| #[trigger] final(self).at(i) == Seq::<char>::empty(),
    {
        self.values = Vec::new();
    }
}

/// Per-component text state.
pub struct TextArrays {
    /// Text content string.
    pub content: TextContent,
    /// Text attributes (bold, italic, ...).
    pub attrs: SlotArray<Attr>,
    /// Text alignment.
    pub align: SlotArray<TextAlign>,
    /// Text wrap mode.
    pub wrap: SlotArray<TextWrap>,
}

impl TextArrays {
    /// Every array has storage for slot `index`.
    pub open spec fn has_room(&self, index: int) -> bool {
        &&& self.content.capacity_spec() > index
        &&& self.attrs.capacity_spec() > index
        &&& self.align.capacity_spec() > index
        &&& self.wrap.capacity_spec() > index
    }

    /// Every array carries its documented default.
    pub open spec fn has_defaults(&self) -> bool {
        &&& self.attrs.default_spec() == (Attr { bits: 0 })
        &&& self.align.default_spec() == TextAlign::Left
        &&& self.wrap.default_spec() == TextWrap::Wrap
    }

    /// Fresh arrays: empty text, no attributes, left aligned, wrapping.
    pub fn new() -> (a: TextArrays)
        ensures
            a.has_defaults(),
            forall|i: int| #[trigger] a.content.at(i) == Seq::<char>::empty(),
            forall|i: int| #[trigger] a.attrs.at(i) == (Attr { bits: 0 }),
            forall|i: int| #[trigger] a.align.at(i) == TextAlign::Left,
            forall|i: int| #[trigger] a.wrap.at(i) == TextWrap::Wrap,
    {
        TextArrays {
            content: TextContent::new(),
            attrs: SlotArray::new(Attr::NONE()),
            align: SlotArray::new(TextAlign::Left),
            wrap: SlotArray::new(TextWrap::Wrap),
        }
    }
}

/// Make room in every array for `index`; no slot changes what it reads.
pub fn ensure_capacity(a: &mut TextArrays, index: usize)
    ensures
        forall|i: int| #[trigger] final(a).content.at(i) == old(a).content.at(i),
        old(a).attrs.same_reads(final(a).attrs),
        old(a).align.same_reads(final(a).align),
        old(a).wrap.same_reads(final(a).wrap),
        final(a).has_room(index as int),
{
    a.content.ensure_capacity(index);
    a.attrs.ensure_capacity(index);
    a.align.ensure_capacity(index);
    a.wrap.ensure_capacity(index);
}

/// Reset every array slot at `index` to its default.
pub fn clear_at_index(a: &mut TextArrays, index: usize)
    ensures
        final(a).content.at(index as int) == Seq::<char>::empty(),
        forall|i: int| i != index ==> #[trigger] final(a).content.at(i) == old(a).content.at(i),
        old(a).attrs.written(final(a).attrs, index as int, old(a).attrs.default_spec()),
        old(a).align.written(final(a).align, index as int, old(a).align.default_spec()),
        old(a).wrap.written(final(a).wrap, index as int, old(a).wrap.default_spec()),
{
    a.content.clear(index);
    a.attrs.clear(index);
    a.align.clear(index);
    a.wrap.clear(index);
}

/// Reset every slot of every array to its default.
pub fn reset(a: &mut TextArrays)
    ensures
        forall|i: int| #[trigger] final(a).content.at(i) == Seq::<char>::empty(),
        old(a).attrs.all_default(final(a).attrs),
        old(a).align.all_default(final(a).align),
        old(a).wrap.all_default(final(a).wrap),
{
    a.content.clear_all();
    a.attrs.clear_all();
    a.align.clear_all();
    a.wrap.clear_all();
}

/// Get the text content at index.
pub fn get_text_content(a: &TextArrays, index: usize) -> (s: String)
    ensures
        s@ == a.content.at(index as int),
{
    a.content.get(index)
}

/// Set the text content at index.
pub fn set_text_content(a: &mut TextArrays, index: usize, content: String)
    ensures
        final(a).content.at(index as int) == content@,
        forall|i: int| i != index ==> #[trigger] final(a).content.at(i) == old(a).content.at(i),
        final(a).attrs == old(a).attrs,
        final(a).align == old(a).align,
        final(a).wrap == old(a).wrap,
{
    a.content.set_value(index, content);
}

/// Get the text attributes at index.
pub fn get_text_attrs(a: &TextArrays, index: usize) -> (v: Attr)
    ensures
        v == a.attrs.at(index as int),
{
    a.attrs.get(index)
}

/// Set the text attributes at index.
pub fn set_text_attrs(a: &mut TextArrays, index: usize, attrs: Attr)
    ensures
        old(a).attrs.written(final(a).attrs, index as int, attrs),
        *final(a) == (TextArrays { attrs: final(a).attrs, ..*old(a) }),
{
    a.attrs.set_value(index, attrs);
}

/// Get the text alignment at index.
pub fn get_text_align(a: &TextArrays, index: usize) -> (v: TextAlign)
    ensures
        v == a.align.at(index as int),
{
    a.align.get(index)
}

/// Set the text alignment at index.
pub fn set_text_align(a: &mut TextArrays, index: usize, align: TextAlign)
    ensures
        old(a).align.written(final(a).align, index as int, align),
        *final(a) == (TextArrays { align: final(a).align, ..*old(a) }),
{
    a.align.set_value(index, align);
}

/// Get the text wrap mode at index.
pub fn get_text_wrap(a: &TextArrays, index: usize) -> (v: TextWrap)
    ensures
        v == a.wrap.at(index as int),
{
    a.wrap.get(index)
}

/// Set the text wrap mode at index.
pub fn set_text_wrap(a: &mut TextArrays, index: usize, wrap: TextWrap)
    ensures
        old(a).wrap.written(final(a).wrap, index as int, wrap),
        *final(a) == (TextArrays { wrap: final(a).wrap, ..*old(a) }),
{
    a.wrap.set_value(index, wrap);
}

} // verus!
