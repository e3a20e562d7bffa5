//! Core arrays: component type, parent index and visibility.

use vstd::prelude::*;
use crate::engine::slot::SlotArray;
use crate::types::ComponentType;

verus! {

/// Per-component structural state.
pub struct CoreArrays {
    /// Component type.
    pub component_type: SlotArray<ComponentType>,
    /// Parent component index (None at the root).
    pub parent_index: SlotArray<Option<usize>>,
    /// Visibility flag.
    pub visible: SlotArray<bool>,
}

impl CoreArrays {
    /// Every array has storage for slot `index`.
    pub open spec fn has_room(&self, index: int) -> bool {
        &&& self.component_type.capacity_spec() > index
        &&& self.parent_index.capacity_spec() > index
        &&& self.visible.capacity_spec() > index
    }

    /// Every array carries its documented default.
    pub open spec fn has_defaults(&self) -> bool {
        &&& self.component_type.default_spec() == ComponentType::Empty
        &&& self.parent_index.default_spec() == None::<usize>
        &&& self.visible.default_spec() == true
    }

    /// Fresh arrays: no component type, no parent, visible.
    pub fn new() -> (a: CoreArrays)
        ensures
            a.has_defaults(),
            forall|i: int| #[trigger] a.component_type.at(i) == ComponentType::Empty,
            forall|i: int| #[trigger] a.parent_index.at(i) == None::<usize>,
            forall|i: int| #[trigger] a.visible.at(i) == true,
    {
        CoreArrays {
            component_type: SlotArray::new(ComponentType::Empty),
            parent_index: SlotArray::new(None),
            visible: SlotArray::new(true),
        }
    }
}

/// The parent chain from `i` reaches the root within `n` steps.
pub open spec fn parent_chain_ends(a: &CoreArrays, i: usize, n: nat) -> bool
    decreases n,
{
    match a.parent_index.at(i as int) {
        None => true,
        Some(p) => n > 0 && parent_chain_ends(a, p, (n - 1) as nat),
    }
}

/// Every component's chain of parents reaches a root: the parent links form
/// a forest, with no cycle.
pub open spec fn parents_acyclic(a: &CoreArrays) -> bool {
    forall|i: usize| #[trigger] chain_finite(a, i)
}

/// The parent chain from `i` reaches the root.
pub open spec fn chain_finite(a: &CoreArrays, i: usize) -> bool {
    exists|n: nat| #[trigger] parent_chain_ends(a, i, n)
}

/// Make room in every array for `index`; no slot changes what it reads.
pub fn ensure_capacity(a: &mut CoreArrays, index: usize)
    ensures
        old(a).component_type.same_reads(final(a).component_type),
        old(a).parent_index.same_reads(final(a).parent_index),
        old(a).visible.same_reads(final(a).visible),
        final(a).has_room(index as int),
{
    a.component_type.ensure_capacity(index);
    a.parent_index.ensure_capacity(index);
    a.visible.ensure_capacity(index);
}

/// Reset every array slot at `index` to its default.
pub fn clear_at_index(a: &mut CoreArrays, index: usize)
    ensures
        old(a).component_type.written(final(a).component_type, index as int, old(a).component_type.default_spec()),
        old(a).parent_index.written(final(a).parent_index, index as int, old(a).parent_index.default_spec()),
        old(a).visible.written(final(a).visible, index as int, old(a).visible.default_spec()),
{
    a.component_type.clear(index);
    a.parent_index.clear(index);
    a.visible.clear(index);
}

/// Reset every slot of every array to its default.
pub fn reset(a: &mut CoreArrays)
    ensures
        old(a).component_type.all_default(final(a).component_type),
        old(a).parent_index.all_default(final(a).parent_index),
        old(a).visible.all_default(final(a).visible),
{
    a.component_type.clear_all();
    a.parent_index.clear_all();
    a.visible.clear_all();
}

/// Get the component type at index.
pub fn get_component_type(a: &CoreArrays, index: usize) -> (t: ComponentType)
    ensures
        t == a.component_type.at(index as int),
{
    a.component_type.get(index)
}

/// Set the component type at index.
pub fn set_component_type(a: &mut CoreArrays, index: usize, t: ComponentType)
    ensures
        old(a).component_type.written(final(a).component_type, index as int, t),
        *final(a) == (CoreArrays { component_type: final(a).component_type, ..*old(a) }),
{
    a.component_type.set_value(index, t);
}

/// Get the parent index at index (None at the root).
pub fn get_parent_index(a: &CoreArrays, index: usize) -> (p: Option<usize>)
    ensures
        p == a.parent_index.at(index as int),
{
    a.parent_index.get(index)
}

/// Set the parent index at index.
pub fn set_parent_index(a: &mut CoreArrays, index: usize, parent: Option<usize>)
    ensures
        old(a).parent_index.written(final(a).parent_index, index as int, parent),
        *final(a) == (CoreArrays { parent_index: final(a).parent_index, ..*old(a) }),
{
    a.parent_index.set_value(index, parent);
}

/// Get the visibility at index.
pub fn get_visible(a: &CoreArrays, index: usize) -> (v: bool)
    ensures
        v == a.visible.at(index as int),
{
    a.visible.get(index)
}

/// Set the visibility at index.
pub fn set_visible(a: &mut CoreArrays, index: usize, visible: bool)
    ensures
        old(a).visible.written(final(a).visible, index as int, visible),
        *final(a) == (CoreArrays { visible: final(a).visible, ..*old(a) }),
{
    a.visible.set_value(index, visible);
}

} // verus!
