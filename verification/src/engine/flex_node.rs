//! FlexNode: the layout properties of one component, as plain values.
//!
//! Numeric codes follow the layout engine: flex direction 0 column, 1 row,
//! 2 column-reverse, 3 row-reverse; wrap 0 nowrap, 1 wrap; justify 0 start,
//! 1 center, 2 end, 3 space-between, 4 space-around, 5 space-evenly; align
//! 0 stretch, 1 start, 2 center, 3 end; align-self 0 auto, else align + 1;
//! overflow 0 visible, 1 hidden, 2 scroll, 3 auto; position 0 relative,
//! 1 absolute. Grow and shrink factors are whole numbers.

use vstd::prelude::*;
use crate::types::Dimension;

verus! {

/// Layout properties of one component.
#[derive(Debug, Clone, Copy, PartialEq, Eq, Structural)]
pub struct FlexNode {
    /// Component index in the parallel arrays.
    pub index: usize,
    pub flex_direction: u8,
    pub flex_wrap: u8,
    pub justify_content: u8,
    pub align_items: u8,
    pub align_content: u8,
    /// Grow factor (default 0).
    pub flex_grow: u16,
    /// Shrink factor (default 1).
    pub flex_shrink: u16,
    pub flex_basis: Dimension,
    pub align_self: u8,
    pub order: i32,
    pub width: Dimension,
    pub height: Dimension,
    pub min_width: Dimension,
    pub max_width: Dimension,
    pub min_height: Dimension,
    pub max_height: Dimension,
    pub margin_top: u16,
    pub margin_right: u16,
    pub margin_bottom: u16,
    pub margin_left: u16,
    pub padding_top: u16,
    pub padding_right: u16,
    pub padding_bottom: u16,
    pub padding_left: u16,
    pub gap: u16,
    pub row_gap: u16,
    pub column_gap: u16,
    pub border_top: u16,
    pub border_right: u16,
    pub border_bottom: u16,
    pub border_left: u16,
    pub overflow: u8,
    pub position: u8,
}

impl FlexNode {
    /// The default properties: column, no wrap, start, stretch, grow 0,
    /// shrink 1, every size automatic, no spacing, visible, relative.
    pub open spec fn default_spec(index: usize) -> FlexNode {
        FlexNode {
            index,
            flex_direction: 0,
            flex_wrap: 0,
            justify_content: 0,
            align_items: 0,
            align_content: 0,
            flex_grow: 0,
            flex_shrink: 1,
            flex_basis: Dimension::Auto,
            align_self: 0,
            order: 0,
            width: Dimension::Auto,
            height: Dimension::Auto,
            min_width: Dimension::Auto,
            max_width: Dimension::Auto,
            min_height: Dimension::Auto,
            max_height: Dimension::Auto,
            margin_top: 0,
            margin_right: 0,
            margin_bottom: 0,
            margin_left: 0,
            padding_top: 0,
            padding_right: 0,
            padding_bottom: 0,
            padding_left: 0,
            gap: 0,
            row_gap: 0,
            column_gap: 0,
            border_top: 0,
            border_right: 0,
            border_bottom: 0,
            border_left: 0,
            overflow: 0,
            position: 0,
        }
    }

    /// A node with the default properties.
    pub fn new(index: usize) -> (n: FlexNode)
        ensures
            n == FlexNode::default_spec(index),
    {
        FlexNode {
            index,
            flex_direction: 0,
            flex_wrap: 0,
            justify_content: 0,
            align_items: 0,
            align_content: 0,
            flex_grow: 0,
            flex_shrink: 1,
            flex_basis: Dimension::Auto,
            align_self: 0,
            order: 0,
            width: Dimension::Auto,
            height: Dimension::Auto,
            min_width: Dimension::Auto,
            max_width: Dimension::Auto,
            min_height: Dimension::Auto,
            max_height: Dimension::Auto,
            margin_top: 0,
            margin_right: 0,
            margin_bottom: 0,
            margin_left: 0,
            padding_top: 0,
            padding_right: 0,
            padding_bottom: 0,
            padding_left: 0,
            gap: 0,
            row_gap: 0,
            column_gap: 0,
            border_top: 0,
            border_right: 0,
            border_bottom: 0,
            border_left: 0,
            overflow: 0,
            position: 0,
        }
    }

    /// Reset every property to its default, keeping the index.
    pub fn disconnect(&mut self)
        ensures
            *final(self) == FlexNode::default_spec(old(self).index),
    {
        *self = FlexNode::new(self.index);
    }
}

/// The FlexNodes of all components, by component index.
pub struct FlexNodes {
    slots: Vec<Option<FlexNode>>,
}

/// Number of present entries.
pub open spec fn count_present(s: Seq<Option<FlexNode>>) -> nat
    decreases s.len(),
{
    if s.len() == 0 {
        0
    } else {
        count_present(s.drop_last()) + if s.last() is Some { 1nat } else { 0nat }
    }
}

proof fn lemma_count_present_update(s: Seq<Option<FlexNode>>, i: int, x: Option<FlexNode>)
    requires
        0 <= i < s.len(),
    ensures
        count_present(s.update(i, x)) + (if s[i] is Some { 1int } else { 0int })
            == count_present(s) + (if x is Some { 1int } else { 0int }),
    decreases s.len(),
{
    let u = s.update(i, x);
    if i < s.len() - 1 {
        assert(u.drop_last() =~= s.drop_last().update(i, x));
        lemma_count_present_update(s.drop_last(), i, x);
    } else {
        assert(u.drop_last() =~= s.drop_last());
    }
}

proof fn lemma_count_present_push_none(s: Seq<Option<FlexNode>>)
    ensures
        count_present(s.push(None)) == count_present(s),
{
    assert(s.push(None).drop_last() =~= s);
}

/// 1 when the entry is present, else 0.
pub open spec fn present_count(n: Option<FlexNode>) -> int {
    if n is Some { 1 } else { 0 }
}

impl FlexNodes {
    /// The node of a component index, if it has one.
    pub closed spec fn node_at(&self, i: int) -> Option<FlexNode> {
        if 0 <= i < self.slots@.len() {
            self.slots@[i]
        } else {
            None
        }
    }

    /// Number of components that have a node.
    pub closed spec fn count_spec(&self) -> nat {
        count_present(self.slots@)
    }

    /// No component has a node.
    pub fn new() -> (n: FlexNodes)
        ensures
            forall|i: int| #[trigger] n.node_at(i) is None,
            n.count_spec() == 0,
    {
        FlexNodes { slots: Vec::new() }
    }

    /// Store `node` for `index`, growing the table with empty entries.
    pub(crate) fn put(&mut self, index: usize, node: Option<FlexNode>)
        requires
            index < usize::MAX,
        ensures
            final(self).node_at(index as int) == node,
            forall|i: int| i != index ==> #[trigger] final(self).node_at(i) == old(self).node_at(i),
            final(self).count_spec() + present_count(old(self).node_at(index as int))
                == old(self).count_spec() + present_count(node),
    {
        while self.slots.len() <= index
            invariant
                index < usize::MAX,
                forall|i: int| #[trigger] self.node_at(i) == old(self).node_at(i),
                self.count_spec() == old(self).count_spec(),
            decreases index + 1 - self.slots.len(),
        {
            proof {
                lemma_count_present_push_none(self.slots@);
            }
            let ghost before = *self;
            self.slots.push(None);
            assert forall|i: int| #[trigger] self.node_at(i) == before.node_at(i) by {
                if 0 <= i < before.slots@.len() {
                    assert(self.slots@[i] == before.slots@[i]);
                }
            }
        }
        proof {
            lemma_count_present_update(self.slots@, index as int, node);
        }
        let ghost before = *self;
        assert(before.node_at(index as int) == before.slots@[index as int]);
        self.slots.set(index, node);
        assert(self.slots@ == before.slots@.update(index as int, node));
        assert forall|i: int| i != index implies #[trigger] self.node_at(i) == old(self).node_at(i) by {
            assert(self.node_at(i) == before.node_at(i));
        }
    }

    /// Read the node of `index`.
    pub(crate) fn get(&self, index: usize) -> (n: Option<FlexNode>)
        ensures
            n == self.node_at(index as int),
            n is Some ==> index < usize::MAX,
    {
        if index < self.slots.len() {
            self.slots[index]
        } else {
            None
        }
    }

    /// Forget every node.
    pub(crate) fn clear(&mut self)
        ensures
            forall|i: int| #[trigger] final(self).node_at(i) is None,
            final(self).count_spec() == 0,
    {
        self.slots = Vec::new();
    }

    /// Number of components that have a node.
    pub(crate) fn count(&self) -> (c: usize)
        ensures
            c == self.count_spec(),
    {
        let mut c: usize = 0;
        let mut i: usize = 0;
        while i < self.slots.len()
            invariant
                i <= self.slots@.len(),
                c == count_present(self.slots@.take(i as int)),
                c <= i,
            decreases self.slots.len() - i,
        {
            assert(self.slots@.take(i + 1).drop_last() =~= self.slots@.take(i as int));
            if self.slots[i].is_some() {
                c = c + 1;
            }
            assert(self.slots@.take(i + 1).last() == self.slots@[i as int]);
            i = i + 1;
        }
        assert(self.slots@.take(self.slots@.len() as int) =~= self.slots@);
        c
    }

    /// Every (index, node) pair, in index order.
    pub(crate) fn entries(&self) -> (v: Vec<(usize, FlexNode)>)
        ensures
            forall|k: int| 0 <= k < v@.len() ==> self.node_at((#[trigger] v@[k]).0 as int) == Some(v@[k].1),
            forall|i: int| #[trigger] self.node_at(i) is Some ==> exists|k: int| 0 <= k < v@.len() && v@[k].0 == i,
            forall|a: int, b: int| 0 <= a < b < v@.len() ==> (#[trigger] v@[a]).0 < (#[trigger] v@[b]).0,
    {
        let mut v: Vec<(usize, FlexNode)> = Vec::new();
        let mut i: usize = 0;
        while i < self.slots.len()
            invariant
                i <= self.slots@.len(),
                forall|k: int| 0 <= k < v@.len() ==> self.node_at((#[trigger] v@[k]).0 as int) == Some(v@[k].1),
                forall|k: int| 0 <= k < v@.len() ==> (#[trigger] v@[k]).0 < i,
                forall|j: int| 0 <= j < i && (#[trigger] self.node_at(j)) is Some ==> exists|k: int| 0 <= k < v@.len() && v@[k].0 == j,
                forall|a: int, b: int| 0 <= a < b < v@.len() ==> (#[trigger] v@[a]).0 < (#[trigger] v@[b]).0,
            decreases self.slots.len() - i,
        {
            let ghost v_before = v@;
            if let Some(n) = self.slots[i] {
                v.push((i, n));
                assert(v@[v@.len() - 1].0 == i);
            }
            assert forall|j: int| 0 <= j < i + 1 && (#[trigger] self.node_at(j)) is Some implies exists|k: int| 0 <= k < v@.len() && v@[k].0 == j by {
                if j < i {
                    let k = choose|k: int| 0 <= k < v_before.len() && v_before[k].0 == j;
                    assert(v@[k] == v_before[k]);
                } else {
                    assert(v@[v@.len() - 1].0 == j);
                }
            }
            i = i + 1;
        }
        v
    }
}

} // verus!
