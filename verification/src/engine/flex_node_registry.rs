//! FlexNode lifecycle: each component has at most one FlexNode, created by
//! its primitive and destroyed when its index is released.

use vstd::prelude::*;
use crate::engine::flex_node::{FlexNode, FlexNodes, present_count};

verus! {

/// Create the FlexNode of `index`, or return the one it already has.
pub fn create_flex_node(nodes: &mut FlexNodes, index: usize) -> (n: FlexNode)
    requires
        index < usize::MAX,
    ensures
        n == (match old(nodes).node_at(index as int) {
            Some(existing) => existing,
            None => FlexNode::default_spec(index),
        }),
        final(nodes).node_at(index as int) == Some(n),
        forall|i: int| i != index ==> #[trigger] final(nodes).node_at(i) == old(nodes).node_at(i),
        final(nodes).count_spec() == old(nodes).count_spec() + (if old(nodes).node_at(index as int) is Some { 0int } else { 1int }),
{
    match nodes.get(index) {
        Some(existing) => {
            nodes.put(index, Some(existing));
            existing
        },
        None => {
            let n = FlexNode::new(index);
            nodes.put(index, Some(n));
            n
        },
    }
}

/// Replace the properties of the FlexNode of `index`.
pub fn set_flex_node(nodes: &mut FlexNodes, index: usize, node: FlexNode)
    requires
        index < usize::MAX,
    ensures
        final(nodes).node_at(index as int) == Some(node),
        forall|i: int| i != index ==> #[trigger] final(nodes).node_at(i) == old(nodes).node_at(i),
        final(nodes).count_spec() == old(nodes).count_spec() + (if old(nodes).node_at(index as int) is Some { 0int } else { 1int }),
{
    nodes.put(index, Some(node));
}

/// Destroy the FlexNode of `index`, if any.
pub fn destroy_flex_node(nodes: &mut FlexNodes, index: usize)
    ensures
        final(nodes).node_at(index as int) is None,
        forall|i: int| i != index ==> #[trigger] final(nodes).node_at(i) == old(nodes).node_at(i),
        final(nodes).count_spec() + present_count(old(nodes).node_at(index as int)) == old(nodes).count_spec(),
{
    if nodes.get(index).is_some() {
        nodes.put(index, None);
    }
}

/// The FlexNode of `index`, if it has one.
pub fn get_flex_node(nodes: &FlexNodes, index: usize) -> (n: Option<FlexNode>)
    ensures
        n == nodes.node_at(index as int),
{
    nodes.get(index)
}

/// Every (index, FlexNode) pair, in index order.
pub fn get_all_flex_nodes(nodes: &FlexNodes) -> (v: Vec<(usize, FlexNode)>)
    ensures
        forall|k: int| 0 <= k < v@.len() ==> nodes.node_at((#[trigger] v@[k]).0 as int) == Some(v@[k].1),
        forall|i: int| #[trigger] nodes.node_at(i) is Some ==> exists|k: int| 0 <= k < v@.len() && v@[k].0 == i,
        forall|a: int, b: int| 0 <= a < b < v@.len() ==> (#[trigger] v@[a]).0 < (#[trigger] v@[b]).0,
{
    nodes.entries()
}

/// Destroy every FlexNode.
pub fn reset_flex_nodes(nodes: &mut FlexNodes)
    ensures
        forall|i: int| #[trigger] final(nodes).node_at(i) is None,
        final(nodes).count_spec() == 0,
{
    nodes.clear();
}

/// The number of components that have a FlexNode.
pub fn flex_node_count(nodes: &FlexNodes) -> (c: usize)
    ensures
        c == nodes.count_spec(),
{
    nodes.count()
}

} // verus!
