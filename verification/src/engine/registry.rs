//! Component registry: index allocation for the parallel arrays.
//!
//! Manages the lifecycle of component indices:
//! - ID <-> index mapping (IDs are unique among live components)
//! - a pool of freed indices, reused last-freed first
//! - the set of allocated indices
//! - the parent context stack for nested component creation

use vstd::prelude::*;
use crate::chars::push_char;
use crate::engine::arrays::{lemma_same_at_trans, lemma_same_defaults_trans, lemma_default_kept, Arrays, ensure_all_capacity, clear_all_at_index, reset_all_arrays};
use crate::engine::arrays::core_arrays::{CoreArrays, get_parent_index};

verus! {

broadcast use vstd::seq::group_seq_axioms;

/// The decimal digits of n.
pub open spec fn decimal_spec(n: nat) -> Seq<char>
    decreases n,
{
    if n < 10 {
        seq![(n + 48) as char]
    } else {
        decimal_spec(n / 10).push(((n % 10) + 48) as char)
    }
}

/// The ID generated for the n-th anonymous component: "c" followed by n.
pub open spec fn generated_id(n: nat) -> Seq<char> {
    seq!['c'] + decimal_spec(n)
}

/// A decimal numeral is never empty.
proof fn lemma_decimal_nonempty(n: nat)
    ensures
        decimal_spec(n).len() >= 1,
        n >= 10 ==> decimal_spec(n).len() >= 2,
    decreases n,
{
    if n >= 10 {
        lemma_decimal_nonempty(n / 10);
    }
}

/// Different numbers have different decimal numerals.
pub proof fn lemma_decimal_injective(a: nat, b: nat)
    requires
        decimal_spec(a) == decimal_spec(b),
    ensures
        a == b,
    decreases a,
{
    lemma_decimal_nonempty(a);
    lemma_decimal_nonempty(b);
    if a < 10 && b < 10 {
        assert(decimal_spec(a)[0] == decimal_spec(b)[0]);
        assert(decimal_spec(a)[0] == (a + 48) as char);
        assert(decimal_spec(b)[0] == (b + 48) as char);
        assert(((a + 48) as char) as int == a + 48);
        assert(((b + 48) as char) as int == b + 48);
        assert(a == b);
    } else if a >= 10 && b >= 10 {
        let da = decimal_spec(a);
        let db = decimal_spec(b);
        assert(da.last() == db.last());
        assert(((a % 10 + 48) as char) as int == a % 10 + 48);
        assert(((b % 10 + 48) as char) as int == b % 10 + 48);
        assert(da.drop_last() =~= decimal_spec(a / 10));
        assert(db.drop_last() =~= decimal_spec(b / 10));
        lemma_decimal_injective(a / 10, b / 10);
        assert(a % 10 == b % 10);
        vstd::arithmetic::div_mod::lemma_fundamental_div_mod(a as int, 10);
        vstd::arithmetic::div_mod::lemma_fundamental_div_mod(b as int, 10);
        assert(a == b);
    } else {
        assert(decimal_spec(a).len() != decimal_spec(b).len());
    }
}

/// Generated IDs differ for different counters.
pub proof fn lemma_generated_ids_distinct(a: nat, b: nat)
    requires
        a != b,
    ensures
        generated_id(a) != generated_id(b),
{
    if generated_id(a) == generated_id(b) {
        assert(generated_id(a).drop_first() =~= decimal_spec(a));
        assert(generated_id(b).drop_first() =~= decimal_spec(b));
        lemma_decimal_injective(a, b);
    }
}

/// The ASCII digit for d < 10.
fn digit_char(d: usize) -> (c: char)
    requires
        d < 10,
    ensures
        c == (d + 48) as char,
{
    match d {
        0 => '0',
        1 => '1',
        2 => '2',
        3 => '3',
        4 => '4',
        5 => '5',
        6 => '6',
        7 => '7',
        8 => '8',
        _ => '9',
    }
}

/// Append the decimal digits of n.
pub(crate) fn push_decimal(s: &mut String, n: usize)
    ensures
        final(s)@ == old(s)@ + decimal_spec(n as nat),
    decreases n,
{
    if n >= 10 {
        push_decimal(s, n / 10);
    }
    push_char(s, digit_char(n % 10));
    proof {
        if n >= 10 {
            assert(old(s)@ + decimal_spec((n / 10) as nat) + seq![((n % 10) + 48) as char] =~= old(s)@
                + decimal_spec(n as nat));
        } else {
            assert(old(s)@.push(((n % 10) + 48) as char) =~= old(s)@ + decimal_spec(n as nat));
        }
    }
}

/// Build the generated ID "c<n>".
fn generate_id(n: usize) -> (s: String)
    ensures
        s@ == generated_id(n as nat),
{
    let mut s = String::new();
    push_char(&mut s, 'c');
    push_decimal(&mut s, n);
    assert(s@ =~= generated_id(n as nat));
    s
}

/// Index allocation state.
pub struct Registry {
    index_to_id: Vec<Option<String>>,
    allocated: Vec<usize>,
    free_indices: Vec<usize>,
    next_index: usize,
    id_counter: usize,
    parent_stack: Vec<usize>,
}

impl Registry {
    /// The ID held by index i, if any.
    pub closed spec fn id_at(&self, i: int) -> Option<Seq<char>> {
        if 0 <= i < self.index_to_id@.len() {
            match self.index_to_id@[i] {
                Some(s) => Some(s@),
                None => None,
            }
        } else {
            None
        }
    }

    /// Allocated indices, oldest allocation first.
    pub closed spec fn allocated_spec(&self) -> Seq<usize> {
        self.allocated@
    }

    /// Whether index i is allocated.
    pub open spec fn is_allocated_spec(&self, i: int) -> bool {
        0 <= i <= usize::MAX && self.allocated_spec().contains(i as usize)
    }

    /// Freed indices waiting for reuse; the last one is reused first.
    pub closed spec fn free_spec(&self) -> Seq<usize> {
        self.free_indices@
    }

    /// The index handed out when the pool is empty.
    pub closed spec fn next_index_spec(&self) -> nat {
        self.next_index as nat
    }

    /// Counter for generated IDs.
    pub closed spec fn id_counter_spec(&self) -> nat {
        self.id_counter as nat
    }

    /// The parent context stack, innermost last.
    pub closed spec fn parent_stack_spec(&self) -> Seq<usize> {
        self.parent_stack@
    }

    /// Registry invariant where the indices in `pending` are being released:
    /// they keep their IDs but are neither allocated nor free.
    pub closed spec fn wf_with(&self, pending: Set<usize>) -> bool {
        &&& self.allocated@.no_duplicates()
        &&& self.free_indices@.no_duplicates()
        &&& forall|k: int|
            0 <= k < self.allocated@.len() ==> (#[trigger] self.allocated@[k]) < self.next_index
                && !pending.contains(self.allocated@[k])
        &&& forall|k: int|
            0 <= k < self.free_indices@.len() ==> (#[trigger] self.free_indices@[k]) < self.next_index
                && !self.allocated@.contains(self.free_indices@[k])
                && !pending.contains(self.free_indices@[k])
        &&& forall|i: usize|
            #![trigger self.allocated@.contains(i)]
            #![trigger self.free_indices@.contains(i)]
            #![trigger pending.contains(i)]
            i < self.next_index ==> (self.allocated@.contains(i) || self.free_indices@.contains(i)
                || pending.contains(i))
        &&& forall|i: int| i < 0 ==> (#[trigger] self.id_at(i)) is None
        &&& forall|i: usize|
            (#[trigger] self.id_at(i as int)) is Some <==> (self.allocated@.contains(i)
                || pending.contains(i))
        &&& forall|i: int, j: int|
            #![trigger self.id_at(i), self.id_at(j)]
            i != j && self.id_at(i) is Some ==> self.id_at(i) != self.id_at(j)
        &&& forall|p: usize| pending.contains(p) ==> p < self.next_index
    }

    /// The invariant depends on the ID table, allocated set, free pool and
    /// next index only.
    proof fn lemma_wf_frame(a: &Registry, b: &Registry, pending: Set<usize>)
        requires
            a.index_to_id == b.index_to_id,
            a.allocated == b.allocated,
            a.free_indices == b.free_indices,
            a.next_index == b.next_index,
            b.wf_with(pending),
        ensures
            a.wf_with(pending),
    {
        assert forall|i: int| #[trigger] a.id_at(i) == b.id_at(i) by {
        }
        assert forall|i: int, j: int|
            #![trigger a.id_at(i), a.id_at(j)]
            i != j && a.id_at(i) is Some implies a.id_at(i) != a.id_at(j) by {
            assert(b.id_at(i) != b.id_at(j));
        }
        assert forall|i: usize| (#[trigger] a.id_at(i as int)) is Some <==> (a.allocated@.contains(i)
            || pending.contains(i)) by {
            assert(b.id_at(i as int) is Some <==> (b.allocated@.contains(i) || pending.contains(i)));
        }
    }

    /// Registry invariant: nothing pending, and an empty registry has an
    /// empty pool and starts indices from zero.
    pub open spec fn wf(&self) -> bool {
        &&& self.wf_with(Set::empty())
        &&& self.allocated_spec().len() == 0 ==> self.free_spec().len() == 0 && self.next_index_spec() == 0
    }

    /// No two indices hold the same ID.
    pub open spec fn ids_unique(&self) -> bool {
        forall|i: int, j: int| #![trigger self.id_at(i), self.id_at(j)] self.id_at(i) is Some && self.id_at(i) == self.id_at(j) ==> i == j
    }

    /// In a well-formed registry IDs are unique.
    pub proof fn lemma_ids_unique(&self)
        requires
            self.wf(),
        ensures
            self.ids_unique(),
    {
    }

    /// In a well-formed registry every allocated index and every pooled one
    /// lies below the next index, no pooled index is allocated, and so the
    /// index the next fresh allocation takes is not allocated; only
    /// allocated indices hold an ID.
    pub proof fn lemma_fresh_unallocated(&self)
        requires
            self.wf(),
        ensures
            forall|i: int| #[trigger] self.is_allocated_spec(i) ==> i < self.next_index_spec(),
            forall|k: int| 0 <= k < self.free_spec().len() ==> !self.is_allocated_spec(#[trigger] self.free_spec()[k] as int)
                && self.free_spec()[k] < self.next_index_spec(),
            !self.is_allocated_spec(fresh_index(self) as int),
            forall|i: int| (#[trigger] self.id_at(i)) is Some ==> self.is_allocated_spec(i),
    {
        assert forall|i: int| (#[trigger] self.id_at(i)) is Some implies self.is_allocated_spec(i) by {
            assert(0 <= i < self.index_to_id@.len());
            vstd::std_specs::vec::axiom_spec_len(&self.index_to_id);
            assert(self.index_to_id@.len() <= usize::MAX);
            assert(self.id_at((i as usize) as int) is Some);
        }
        assert forall|i: int| #[trigger] self.is_allocated_spec(i) implies i < self.next_index_spec() by {
            let k = choose|k: int| 0 <= k < self.allocated@.len() && self.allocated@[k] == i as usize;
            assert(self.allocated@[k] < self.next_index);
        }
        if self.free_spec().len() > 0 {
            let k = self.free_indices@.len() - 1;
            assert(self.free_indices@[k] < self.next_index && !self.allocated@.contains(self.free_indices@[k]));
        }
    }

    /// An empty registry.
    pub fn new() -> (r: Registry)
        ensures
            r.wf(),
            r.allocated_spec().len() == 0,
            r.free_spec().len() == 0,
            r.next_index_spec() == 0,
            r.id_counter_spec() == 0,
            r.parent_stack_spec().len() == 0,
            forall|i: int| #[trigger] r.id_at(i) is None,
    {
        Registry {
            index_to_id: Vec::new(),
            allocated: Vec::new(),
            free_indices: Vec::new(),
            next_index: 0,
            id_counter: 0,
            parent_stack: Vec::new(),
        }
    }
}

// =============================================================================
// Parent context stack
// =============================================================================

/// The current parent index (None at the root).
pub fn get_current_parent_index(reg: &Registry) -> (p: Option<usize>)
    ensures
        p == if reg.parent_stack_spec().len() == 0 {
            None
        } else {
            Some(reg.parent_stack_spec().last())
        },
{
    if reg.parent_stack.len() == 0 {
        None
    } else {
        Some(reg.parent_stack[reg.parent_stack.len() - 1])
    }
}

/// Push a parent index onto the stack.
pub fn push_parent_context(reg: &mut Registry, index: usize)
    ensures
        final(reg).parent_stack_spec() == old(reg).parent_stack_spec().push(index),
        final(reg).allocated_spec() == old(reg).allocated_spec(),
        final(reg).free_spec() == old(reg).free_spec(),
        final(reg).next_index_spec() == old(reg).next_index_spec(),
        final(reg).id_counter_spec() == old(reg).id_counter_spec(),
        forall|i: int| #[trigger] final(reg).id_at(i) == old(reg).id_at(i),
        old(reg).wf() ==> final(reg).wf(),
{
    reg.parent_stack.push(index);
    proof {
        if old(reg).wf() {
            Registry::lemma_wf_frame(&*reg, &*old(reg), Set::empty());
        }
    }
}

/// Pop a parent index from the stack (no effect when it is empty).
pub fn pop_parent_context(reg: &mut Registry)
    ensures
        final(reg).parent_stack_spec() == if old(reg).parent_stack_spec().len() == 0 {
            old(reg).parent_stack_spec()
        } else {
            old(reg).parent_stack_spec().drop_last()
        },
        final(reg).allocated_spec() == old(reg).allocated_spec(),
        final(reg).free_spec() == old(reg).free_spec(),
        final(reg).next_index_spec() == old(reg).next_index_spec(),
        final(reg).id_counter_spec() == old(reg).id_counter_spec(),
        forall|i: int| #[trigger] final(reg).id_at(i) == old(reg).id_at(i),
        old(reg).wf() ==> final(reg).wf(),
{
    reg.parent_stack.pop();
    proof {
        if old(reg).wf() {
            Registry::lemma_wf_frame(&*reg, &*old(reg), Set::empty());
        }
    }
}

// =============================================================================
// Lookups
// =============================================================================

/// Position of an allocated index in the allocation order, if any.
fn find_allocated(reg: &Registry, index: usize) -> (k: Option<usize>)
    ensures
        match k {
            Some(k) => k < reg.allocated_spec().len() && reg.allocated_spec()[k as int] == index,
            None => !reg.is_allocated_spec(index as int),
        },
{
    let mut k: usize = 0;
    while k < reg.allocated.len()
        invariant
            k <= reg.allocated@.len(),
            forall|j: int| 0 <= j < k ==> reg.allocated@[j] != index,
        decreases reg.allocated.len() - k,
    {
        if reg.allocated[k] == index {
            return Some(k);
        }
        k = k + 1;
    }
    None
}

/// Whether an index is currently allocated.
pub fn is_allocated(reg: &Registry, index: usize) -> (b: bool)
    ensures
        b == reg.is_allocated_spec(index as int),
{
    find_allocated(reg, index).is_some()
}

/// The ID of an index, if it is allocated.
pub fn get_id(reg: &Registry, index: usize) -> (id: Option<String>)
    ensures
        match id {
            Some(s) => reg.id_at(index as int) == Some(s@),
            None => reg.id_at(index as int) is None,
        },
{
    if index < reg.index_to_id.len() {
        match &reg.index_to_id[index] {
            Some(s) => Some(s.clone()),
            None => None,
        }
    } else {
        None
    }
}

/// The allocated index whose ID equals `id`, searching the ID table.
fn find_id(reg: &Registry, id: &String) -> (r: Option<usize>)
    ensures
        match r {
            Some(i) => reg.id_at(i as int) == Some(id@),
            None => forall|i: int| #[trigger] reg.id_at(i) != Some(id@),
        },
{
    let mut i: usize = 0;
    while i < reg.index_to_id.len()
        invariant
            i <= reg.index_to_id@.len(),
            forall|j: int| 0 <= j < i ==> #[trigger] reg.id_at(j) != Some(id@),
        decreases reg.index_to_id.len() - i,
    {
        match &reg.index_to_id[i] {
            Some(s) => {
                if *s == *id {
                    return Some(i);
                }
            },
            None => {},
        }
        i = i + 1;
    }
    None
}

/// The index of the component with the given ID.
pub fn get_index(reg: &Registry, id: &str) -> (r: Option<usize>)
    ensures
        match r {
            Some(i) => reg.id_at(i as int) == Some(id@),
            None => forall|i: int| #[trigger] reg.id_at(i) != Some(id@),
        },
        reg.wf() ==> forall|j: int| #[trigger] reg.id_at(j) == Some(id@) ==> r == Some(j as usize),
{
    proof {
        if reg.wf() {
            reg.lemma_ids_unique();
        }
    }
    let owned = id.to_owned();
    find_id(reg, &owned)
}

/// All currently allocated indices, oldest allocation first.
pub fn get_allocated_indices(reg: &Registry) -> (v: Vec<usize>)
    requires
        reg.wf(),
    ensures
        v@ == reg.allocated_spec(),
        v@.no_duplicates(),
        forall|k: int| 0 <= k < v@.len() ==> (#[trigger] v@[k]) < reg.next_index_spec(),
        reg.next_index_spec() <= usize::MAX,
{
    reg.allocated.clone()
}

/// The index the next allocation takes when the free pool is empty.
pub fn get_capacity(reg: &Registry) -> (c: usize)
    ensures
        c == reg.next_index_spec(),
{
    reg.next_index
}

/// The number of allocated components.
pub fn get_allocated_count(reg: &Registry) -> (c: usize)
    ensures
        c == reg.allocated_spec().len(),
{
    reg.allocated.len()
}

// =============================================================================
// Allocation
// =============================================================================

/// The ID an allocation registers: the given one, or the generated "c<n>".
pub open spec fn requested_id(reg: &Registry, id: Option<&str>) -> Seq<char> {
    match id {
        Some(s) => s@,
        None => generated_id(reg.id_counter_spec()),
    }
}

/// The index a fresh allocation takes: the most recently freed one, else the
/// next unused one.
pub open spec fn fresh_index(reg: &Registry) -> nat {
    if reg.free_spec().len() > 0 {
        reg.free_spec().last() as nat
    } else {
        reg.next_index_spec()
    }
}

impl Registry {
    /// `next` is this registry after an allocation of `index`: the
    /// allocated list gains `index` or stays as it is, the next index grows
    /// by at most one, the pool does not grow, the parent stack is kept, and
    /// no other index changes its ID.
    pub open spec fn allocation_frame(&self, next: &Registry, index: int) -> bool {
        &&& (next.allocated_spec() == self.allocated_spec() || next.allocated_spec() == self.allocated_spec().push(
            index as usize,
        ))
        &&& next.next_index_spec() <= self.next_index_spec() + 1
        &&& next.free_spec().len() <= self.free_spec().len()
        &&& next.parent_stack_spec() == self.parent_stack_spec()
        &&& forall|i: int| i != index ==> #[trigger] next.id_at(i) == self.id_at(i)
    }
}

/// The index an allocation under `key` takes: the live component that
/// already holds that ID, else `fresh_index`.
pub open spec fn index_for(reg: &Registry, key: Seq<char>) -> int {
    if exists|i: int| reg.id_at(i) == Some(key) {
        choose|i: int| reg.id_at(i) == Some(key)
    } else {
        fresh_index(reg) as int
    }
}

/// The ID an allocation asks for, given as an optional owned string: that
/// string, else the next generated ID.
pub open spec fn requested_key(reg: &Registry, id: Option<String>) -> Seq<char> {
    match id {
        Some(s) => s@,
        None => generated_id(reg.id_counter_spec()),
    }
}

/// Set the ID slot of `index`, growing the table as needed.
fn set_id_slot(reg: &mut Registry, index: usize, value: Option<String>)
    ensures
        final(reg).allocated == old(reg).allocated,
        final(reg).free_indices == old(reg).free_indices,
        final(reg).next_index == old(reg).next_index,
        final(reg).id_counter == old(reg).id_counter,
        final(reg).parent_stack == old(reg).parent_stack,
        final(reg).id_at(index as int) == match value {
            Some(v) => Some(v@),
            None => None::<Seq<char>>,
        },
        forall|i: int| i != index ==> #[trigger] final(reg).id_at(i) == old(reg).id_at(i),
{
    while reg.index_to_id.len() <= index
        invariant
            reg.allocated == old(reg).allocated,
            reg.free_indices == old(reg).free_indices,
            reg.next_index == old(reg).next_index,
            reg.id_counter == old(reg).id_counter,
            reg.parent_stack == old(reg).parent_stack,
            forall|i: int| #[trigger] reg.id_at(i) == old(reg).id_at(i),
        decreases index + 1 - reg.index_to_id.len(),
    {
        let ghost before = *reg;
        reg.index_to_id.push(None);
        assert forall|i: int| #[trigger] reg.id_at(i) == old(reg).id_at(i) by {
            assert(before.id_at(i) == old(reg).id_at(i));
        }
    }
    let ghost mid = *reg;
    reg.index_to_id.set(index, value);
    assert forall|i: int| i != index implies #[trigger] reg.id_at(i) == old(reg).id_at(i) by {
        assert(mid.id_at(i) == old(reg).id_at(i));
    }
}

/// Allocate an index for a new component.
///
/// With no ID one is generated ("c0", "c1", ...). If a live component already
/// has the ID, its index is returned and nothing else changes. Otherwise the
/// most recently freed index is reused, or the next unused one is taken.
pub fn allocate_index(reg: &mut Registry, arrays: &mut Arrays, id: Option<&str>) -> (index: usize)
    requires
        old(reg).wf(),
        old(reg).next_index_spec() < usize::MAX,
        id is None ==> old(reg).id_counter_spec() < usize::MAX,
    ensures
        final(reg).wf(),
        final(reg).id_counter_spec() == if id is None {
            old(reg).id_counter_spec() + 1
        } else {
            old(reg).id_counter_spec()
        },
        final(reg).parent_stack_spec() == old(reg).parent_stack_spec(),
        final(reg).id_at(index as int) == Some(requested_id(old(reg), id)),
        index == index_for(old(reg), requested_id(old(reg), id)),
        old(reg).allocation_frame(&*final(reg), index as int),
        forall|i: int| #[trigger] old(arrays).same_at(&*final(arrays), i),
        old(arrays).same_defaults(&*final(arrays)),
        forall|i: int| #[trigger] final(arrays).text.content.at(i) == old(arrays).text.content.at(i),
        forall|j: int| #[trigger] final(reg).id_at(j) == Some(requested_id(old(reg), id)) ==> j == index,
        final(reg).is_allocated_spec(index as int),
        index < usize::MAX,
        final(arrays).flex == old(arrays).flex,
        (exists|i: int| old(reg).id_at(i) == Some(requested_id(old(reg), id))) ==> {
            &&& old(reg).is_allocated_spec(index as int)
            &&& final(reg).allocated_spec() == old(reg).allocated_spec()
            &&& final(reg).free_spec() == old(reg).free_spec()
            &&& final(reg).next_index_spec() == old(reg).next_index_spec()
            &&& forall|i: int| #[trigger] final(reg).id_at(i) == old(reg).id_at(i)
            &&& *final(arrays) == *old(arrays)
        },
        !(exists|i: int| old(reg).id_at(i) == Some(requested_id(old(reg), id))) ==> {
            &&& index == fresh_index(old(reg))
            &&& !old(reg).is_allocated_spec(index as int)
            &&& final(reg).allocated_spec() == old(reg).allocated_spec().push(index)
            &&& final(reg).free_spec() == if old(reg).free_spec().len() > 0 {
                old(reg).free_spec().drop_last()
            } else {
                old(reg).free_spec()
            }
            &&& final(reg).next_index_spec() == if old(reg).free_spec().len() > 0 {
                old(reg).next_index_spec()
            } else {
                old(reg).next_index_spec() + 1
            }
            &&& forall|i: int| i != index ==> #[trigger] final(reg).id_at(i) == old(reg).id_at(i)
            &&& old(arrays).core.parent_index.same_reads(final(arrays).core.parent_index)
            &&& old(arrays).core.visible.same_reads(final(arrays).core.visible)
            &&& old(arrays).interaction.focusable.same_reads(final(arrays).interaction.focusable)
        },
{
    let component_id: String = match id {
        Some(s) => s.to_owned(),
        None => {
            let g = generate_id(reg.id_counter);
            reg.id_counter = reg.id_counter + 1;
            g
        },
    };
    proof {
        Registry::lemma_wf_frame(&*reg, &*old(reg), Set::empty());
        assert forall|i: int| #[trigger] reg.id_at(i) == old(reg).id_at(i) by {
        }
    }
    assert(component_id@ == requested_id(old(reg), id));
    match find_id(reg, &component_id) {
        Some(existing) => {
            assert(reg.allocated@.contains(existing));
            proof {
                old(reg).lemma_ids_unique();
                assert(old(reg).id_at(existing as int) == Some(requested_id(old(reg), id)));
            }
            return existing;
        },
        None => {},
    }
    assert(!(exists|i: int| old(reg).id_at(i) == Some(requested_id(old(reg), id)))) by {
        assert forall|i: int| old(reg).id_at(i) != Some(requested_id(old(reg), id)) by {
            assert(reg.id_at(i) == old(reg).id_at(i));
        }
    }
    let ghost before = *reg;
    let index: usize = match reg.free_indices.pop() {
        Some(i) => i,
        None => {
            let i = reg.next_index;
            reg.next_index = reg.next_index + 1;
            i
        },
    };
    assert(!before.allocated@.contains(index));
    assert(reg.index_to_id == before.index_to_id);
    let ghost popped = *reg;
    assert forall|i: int| #[trigger] popped.id_at(i) == before.id_at(i) by {
    }
    set_id_slot(reg, index, Some(component_id));
    let ghost slotted = *reg;
    reg.allocated.push(index);
    proof {
        let r = *reg;
        assert(r.index_to_id == slotted.index_to_id);
        assert forall|i: int| i != index implies #[trigger] r.id_at(i) == before.id_at(i) by {
            assert(r.id_at(i) == slotted.id_at(i));
            assert(slotted.id_at(i) == popped.id_at(i));
        }
        assert(r.id_at(index as int) == slotted.id_at(index as int));
        assert(r.allocated@ == before.allocated@.push(index));
        assert forall|k: int|
            0 <= k < r.free_indices@.len() implies (#[trigger] r.free_indices@[k]) < r.next_index
                && !r.allocated@.contains(r.free_indices@[k]) by {
            assert(before.free_indices@.contains(r.free_indices@[k]));
            assert(before.free_indices@.no_duplicates());
            if r.free_indices@[k] == index {
                assert(before.free_indices@[k] == before.free_indices@.last());
            }
        }
        assert forall|i: usize| i < r.next_index implies (r.allocated@.contains(i) || r.free_indices@.contains(i)
            || Set::<usize>::empty().contains(i)) by {
            if i == index {
                assert(r.allocated@[r.allocated@.len() - 1] == i);
            } else if before.allocated@.contains(i) {
                let k = choose|k: int| 0 <= k < before.allocated@.len() && before.allocated@[k] == i;
                assert(r.allocated@[k] == i);
            } else {
                assert(i < before.next_index);
                assert(before.free_indices@.contains(i));
                let k = choose|k: int| 0 <= k < before.free_indices@.len() && before.free_indices@[k] == i;
                if before.free_indices@.len() > 0 {
                    assert(r.free_indices@ == before.free_indices@.drop_last());
                    assert(k != before.free_indices@.len() - 1);
                    assert(r.free_indices@[k] == i);
                } else {
                    assert(false);
                }
            }
        }
        assert forall|i: usize| (#[trigger] r.id_at(i as int)) is Some <==> (r.allocated@.contains(i)
            || Set::<usize>::empty().contains(i)) by {
            if i != index {
                assert(r.id_at(i as int) == before.id_at(i as int));
                assert(before.id_at(i as int) is Some <==> before.allocated@.contains(i));
            }
        }
        assert forall|i: int, j: int|
            #![trigger r.id_at(i), r.id_at(j)]
            i != j && r.id_at(i) is Some implies r.id_at(i) != r.id_at(j) by {
            if i != index && j != index {
                assert(before.id_at(i) != before.id_at(j));
            }
        }
        assert(r.allocated@.no_duplicates());
    }
    ensure_all_capacity(arrays, index);
    index
}

// =============================================================================
// Destroy callbacks
// =============================================================================

/// The indices of `s` other than `index`, in order.
pub open spec fn without_index(s: Seq<usize>, index: usize) -> Seq<usize>
    decreases s.len(),
{
    if s.len() == 0 {
        s
    } else if s.last() == index {
        without_index(s.drop_last(), index)
    } else {
        without_index(s.drop_last(), index).push(s.last())
    }
}

proof fn lemma_without_index_excludes(s: Seq<usize>, index: usize)
    ensures
        !without_index(s, index).contains(index),
        forall|x: usize| #[trigger] without_index(s, index).contains(x) ==> s.contains(x),
    decreases s.len(),
{
    if s.len() > 0 {
        lemma_without_index_excludes(s.drop_last(), index);
        assert forall|x: usize| #[trigger] without_index(s, index).contains(x) implies s.contains(x) by {
            if without_index(s.drop_last(), index).contains(x) {
                assert(s.drop_last().contains(x));
                let k = choose|k: int| 0 <= k < s.drop_last().len() && s.drop_last()[k] == x;
                assert(s[k] == x);
            } else {
                assert(s[s.len() - 1] == x);
            }
        }
    }
}

/// Callbacks to run when components are destroyed, in registration order.
pub struct DestroyCallbacks<D> {
    entries: Vec<(usize, D)>,
    /// The callbacks run so far, with their indices, in the order they ran.
    ran: Ghost<Seq<(usize, D)>>,
}

impl<D: FnOnce()> DestroyCallbacks<D> {
    /// The component index of each registered callback, in order.
    pub closed spec fn indices(&self) -> Seq<usize> {
        self.entries@.map_values(|e: (usize, D)| e.0)
    }

    /// The registered callbacks with their indices, in order.
    pub closed spec fn entries_spec(&self) -> Seq<(usize, D)> {
        self.entries@
    }

    /// The callbacks run so far, with their indices, in the order they ran.
    pub closed spec fn ran(&self) -> Seq<(usize, D)> {
        self.ran@
    }

    /// Every registered callback may be called, and every callback that ran
    /// was called.
    pub closed spec fn all_callable(&self) -> bool {
        &&& forall|k: int| 0 <= k < self.entries@.len() ==> call_requires(#[trigger] self.entries@[k].1, ())
        &&& forall|k: int| 0 <= k < self.ran@.len() ==> call_ensures(#[trigger] self.ran@[k].1, (), ())
    }

    /// No callbacks.
    pub fn new() -> (c: DestroyCallbacks<D>)
        ensures
            c.indices().len() == 0,
            c.all_callable(),
    {
        DestroyCallbacks { entries: Vec::new(), ran: Ghost(Seq::empty()) }
    }
}

/// Register a callback to run when the component at `index` is destroyed.
pub fn on_destroy<D: FnOnce()>(callbacks: &mut DestroyCallbacks<D>, index: usize, callback: D)
    requires
        old(callbacks).all_callable(),
        call_requires(callback, ()),
    ensures
        final(callbacks).all_callable(),
        final(callbacks).indices() == old(callbacks).indices().push(index),
        final(callbacks).ran() == old(callbacks).ran(),
{
    callbacks.entries.push((index, callback));
    assert(callbacks.indices() =~= old(callbacks).indices().push(index));
}

/// Whether `b` holds the entries of `a` and the callbacks run of `a`, some
/// of the entries having moved to the run ones: every entry or run callback
/// of `a` is in `b` once, and the callbacks `a` had run are still first.
pub open spec fn callbacks_conserved<D>(a: Seq<(usize, D)>, ran_a: Seq<(usize, D)>, b: Seq<(usize, D)>, ran_b: Seq<(usize, D)>) -> bool {
    &&& b.to_multiset().add(ran_b.to_multiset()) == a.to_multiset().add(ran_a.to_multiset())
    &&& ran_a.len() <= ran_b.len()
    &&& ran_b.subrange(0, ran_a.len() as int) == ran_a
}

/// Run, in registration order, and drop the callbacks registered for `index`.
fn run_destroy_callbacks<D: FnOnce()>(callbacks: &mut DestroyCallbacks<D>, index: usize)
    requires
        old(callbacks).all_callable(),
    ensures
        final(callbacks).all_callable(),
        final(callbacks).indices() == without_index(old(callbacks).indices(), index),
        callbacks_conserved(old(callbacks).entries_spec(), old(callbacks).ran(), final(callbacks).entries_spec(), final(callbacks).ran()),
        forall|k: int| old(callbacks).ran().len() <= k < final(callbacks).ran().len() ==> (#[trigger] final(callbacks).ran()[k]).0 == index,
{
    broadcast use vstd::seq_lib::group_to_multiset_ensures, vstd::multiset::group_multiset_axioms;
    let ghost e0 = callbacks.entries@;
    let ghost r0 = callbacks.ran@;
    assert(r0.subrange(0, r0.len() as int) =~= r0);
    let ghost orig = old(callbacks).indices();
    let mut k: usize = 0;
    let ghost mut j: int = 0;
    assert(orig.take(0) =~= Seq::<usize>::empty());
    assert(orig.skip(0) =~= orig);
    while k < callbacks.entries.len()
        invariant
            callbacks.all_callable(),
            0 <= j <= orig.len(),
            k == without_index(orig.take(j), index).len(),
            callbacks.indices() == without_index(orig.take(j), index) + orig.skip(j),
            callbacks_conserved(e0, r0, callbacks.entries@, callbacks.ran@),
            forall|m: int| r0.len() <= m < callbacks.ran@.len() ==> (#[trigger] callbacks.ran@[m]).0 == index,
            e0 == old(callbacks).entries@,
            r0 == old(callbacks).ran@,
        decreases callbacks.entries.len() - k,
    {
        let ghost before = callbacks.indices();
        assert(before[k as int] == orig[j]) by {
            assert((without_index(orig.take(j), index) + orig.skip(j))[k as int] == orig.skip(j)[0]);
        }
        assert(orig.take(j + 1).drop_last() =~= orig.take(j));
        assert(orig.take(j + 1).last() == orig[j]);
        assert(before[k as int] == callbacks.entries@[k as int].0);
        assert(orig.skip(j) =~= seq![orig[j]] + orig.skip(j + 1));
        if callbacks.entries[k].0 == index {
            assert(without_index(orig.take(j + 1), index) == without_index(orig.take(j), index));
            let ghost ents = callbacks.entries@;
            let ghost rn = callbacks.ran@;
            let ghost e = ents[k as int];
            let (_i, cb) = callbacks.entries.remove(k);
            assert(call_requires(e.1, ()));
            cb();
            callbacks.ran = Ghost(rn.push(e));
            proof {
                assert(callbacks.entries@ =~= ents.remove(k as int));
                vstd::seq_lib::to_multiset_remove(ents, k as int);
                assert(callbacks.entries@.to_multiset() == ents.to_multiset().remove(e));
                assert(ents.contains(e)) by {
                    assert(ents[k as int] == e);
                }
                vstd::seq_lib::to_multiset_contains(ents, e);
                assert(ents.to_multiset().count(e) > 0);
                assert(ents.to_multiset() =~= callbacks.entries@.to_multiset().insert(e));
                assert(callbacks.ran@ == rn.push(e));
                vstd::seq_lib::to_multiset_build(rn, e);
                assert(callbacks.ran@.to_multiset() =~= rn.to_multiset().insert(e));
                assert(callbacks.entries@.to_multiset().add(callbacks.ran@.to_multiset()) =~= ents.to_multiset().add(
                    rn.to_multiset(),
                ));
                assert(callbacks.ran@.subrange(0, r0.len() as int) =~= rn.subrange(0, r0.len() as int));
                assert forall|m: int| 0 <= m < callbacks.ran@.len() implies call_ensures(#[trigger] callbacks.ran@[m].1, (), ()) by {
                    if m < rn.len() {
                        assert(callbacks.ran@[m] == rn[m]);
                    }
                }
                assert(callbacks.entries@ =~= ents.remove(k as int));
                assert(callbacks.indices() =~= before.remove(k as int));
                assert(before.remove(k as int) =~= without_index(orig.take(j), index) + orig.skip(j + 1));
                assert(callbacks.indices() =~= without_index(orig.take(j + 1), index) + orig.skip(j + 1));
                j = j + 1;
            }
        } else {
            assert(without_index(orig.take(j + 1), index) == without_index(orig.take(j), index).push(orig[j]));
            k = k + 1;
            proof {
                assert(callbacks.indices() =~= without_index(orig.take(j + 1), index) + orig.skip(j + 1));
                j = j + 1;
            }
        }
    }
    proof {
        assert(j == orig.len());
        assert(orig.take(j) =~= orig);
        assert(callbacks.indices() =~= without_index(orig, index));
    }
}

// =============================================================================
// Release
// =============================================================================

/// The allocated indices whose parent is `index`, in allocation order.
fn children_of(reg: &Registry, arrays: &Arrays, index: usize) -> (v: Vec<usize>)
    ensures
        forall|k: int| 0 <= k < v@.len() ==> reg.allocated_spec().contains(#[trigger] v@[k]),
        forall|k: int| 0 <= k < v@.len() ==> arrays.core.parent_index.at(#[trigger] v@[k] as int) == Some(index),
        forall|j: usize|
            #![trigger reg.allocated_spec().contains(j)]
            reg.allocated_spec().contains(j) && arrays.core.parent_index.at(j as int) == Some(index)
                ==> v@.contains(j),
{
    let mut v: Vec<usize> = Vec::new();
    let mut k: usize = 0;
    while k < reg.allocated.len()
        invariant
            k <= reg.allocated@.len(),
            forall|m: int| 0 <= m < v@.len() ==> reg.allocated@.contains(#[trigger] v@[m]),
            forall|m: int| 0 <= m < v@.len() ==> arrays.core.parent_index.at(#[trigger] v@[m] as int) == Some(index),
            forall|m: int|
                0 <= m < k && arrays.core.parent_index.at(reg.allocated@[m] as int) == Some(index)
                    ==> v@.contains(#[trigger] reg.allocated@[m]),
        decreases reg.allocated.len() - k,
    {
        let c = reg.allocated[k];
        let ghost old_v = v@;
        if get_parent_index(&arrays.core, c) == Some(index) {
            v.push(c);
            assert(v@[v@.len() - 1] == c);
        }
        proof {
            assert forall|m: int|
                0 <= m < k + 1 && arrays.core.parent_index.at(reg.allocated@[m] as int) == Some(index)
                    implies v@.contains(#[trigger] reg.allocated@[m]) by {
                if m == k {
                    assert(v@[v@.len() - 1] == c);
                } else {
                    assert(old_v.contains(reg.allocated@[m]));
                    let w = choose|w: int| 0 <= w < old_v.len() && old_v[w] == reg.allocated@[m];
                    assert(v@[w] == old_v[w]);
                }
            }
        }
        k = k + 1;
    }
    proof {
        assert forall|j: usize|
            #![trigger reg.allocated_spec().contains(j)]
            reg.allocated_spec().contains(j) && arrays.core.parent_index.at(j as int) == Some(index)
                implies v@.contains(j) by {
            let m = choose|m: int| 0 <= m < reg.allocated@.len() && reg.allocated@[m] == j;
        }
    }
    v
}

/// Move an allocated index into the pending set.
proof fn lemma_unallocate(before: Registry, after: Registry, pending: Set<usize>, index: usize, k: int)
    requires
        before.wf_with(pending),
        0 <= k < before.allocated@.len(),
        before.allocated@[k] == index,
        after.allocated@ == before.allocated@.remove(k),
        after.index_to_id == before.index_to_id,
        after.free_indices == before.free_indices,
        after.next_index == before.next_index,
    ensures
        after.wf_with(pending.insert(index)),
        !after.allocated@.contains(index),
        forall|x: usize| #[trigger] after.allocated@.contains(x) <==> (before.allocated@.contains(x) && x != index),
{
    let p2 = pending.insert(index);
    assert forall|i: int| #[trigger] after.id_at(i) == before.id_at(i) by {
    }
    assert forall|x: usize| #[trigger] after.allocated@.contains(x) <==> (before.allocated@.contains(x) && x != index) by {
        if after.allocated@.contains(x) {
            let m = choose|m: int| 0 <= m < after.allocated@.len() && after.allocated@[m] == x;
            if m < k {
                assert(before.allocated@[m] == x);
            } else {
                assert(before.allocated@[m + 1] == x);
                assert(before.allocated@.no_duplicates());
            }
        }
        if before.allocated@.contains(x) && x != index {
            let m = choose|m: int| 0 <= m < before.allocated@.len() && before.allocated@[m] == x;
            if m < k {
                assert(after.allocated@[m] == x);
            } else {
                assert(m != k);
                assert(after.allocated@[m - 1] == x);
            }
        }
    }
    assert(after.allocated@.no_duplicates()) by {
        assert forall|a: int, b: int| 0 <= a < b < after.allocated@.len() implies after.allocated@[a] != after.allocated@[b] by {
            let a2 = if a < k { a } else { a + 1 };
            let b2 = if b < k { b } else { b + 1 };
            assert(before.allocated@[a2] == after.allocated@[a]);
            assert(before.allocated@[b2] == after.allocated@[b]);
        }
    }
    assert forall|m: int|
        0 <= m < after.allocated@.len() implies (#[trigger] after.allocated@[m]) < after.next_index
            && !p2.contains(after.allocated@[m]) by {
        assert(after.allocated@.contains(after.allocated@[m]));
        assert(before.allocated@.contains(after.allocated@[m]));
    }
    assert forall|m: int|
        0 <= m < after.free_indices@.len() implies (#[trigger] after.free_indices@[m]) < after.next_index
            && !after.allocated@.contains(after.free_indices@[m]) && !p2.contains(after.free_indices@[m]) by {
        assert(before.allocated@[k] == index);
        assert(before.allocated@.contains(index));
    }
    assert forall|i: usize| (#[trigger] after.id_at(i as int)) is Some <==> (after.allocated@.contains(i)
        || p2.contains(i)) by {
        assert(before.id_at(i as int) is Some <==> (before.allocated@.contains(i) || pending.contains(i)));
        assert(before.allocated@.contains(index));
    }
    assert forall|i: int, j: int|
        #![trigger after.id_at(i), after.id_at(j)]
        i != j && after.id_at(i) is Some implies after.id_at(i) != after.id_at(j) by {
        assert(before.id_at(i) != before.id_at(j));
    }
    assert forall|i: usize|
        #![trigger after.allocated@.contains(i)]
        #![trigger after.free_indices@.contains(i)]
        #![trigger p2.contains(i)]
        i < after.next_index implies (after.allocated@.contains(i) || after.free_indices@.contains(i)
            || p2.contains(i)) by {
        assert(before.allocated@.contains(i) || before.free_indices@.contains(i) || pending.contains(i));
    }
    assert(before.allocated@.contains(index));
}

/// Finish releasing a pending index: its ID is gone and it joins the pool.
proof fn lemma_free_pending(before: Registry, after: Registry, pending: Set<usize>, index: usize)
    requires
        before.wf_with(pending.insert(index)),
        !pending.contains(index),
        after.allocated == before.allocated,
        after.free_indices@ == before.free_indices@.push(index),
        after.next_index == before.next_index,
        after.id_at(index as int) is None,
        forall|i: int| i != index ==> #[trigger] after.id_at(i) == before.id_at(i),
    ensures
        after.wf_with(pending),
{
    let p2 = pending.insert(index);
    assert(index < before.next_index);
    assert(!before.free_indices@.contains(index)) by {
        if before.free_indices@.contains(index) {
            let m = choose|m: int| 0 <= m < before.free_indices@.len() && before.free_indices@[m] == index;
            assert(!p2.contains(before.free_indices@[m]));
        }
    }
    assert(!before.allocated@.contains(index)) by {
        if before.allocated@.contains(index) {
            let m = choose|m: int| 0 <= m < before.allocated@.len() && before.allocated@[m] == index;
            assert(!p2.contains(before.allocated@[m]));
        }
    }
    assert(after.free_indices@.no_duplicates()) by {
        assert forall|a: int, b: int| 0 <= a < b < after.free_indices@.len() implies after.free_indices@[a] != after.free_indices@[b] by {
            if b == after.free_indices@.len() - 1 {
                assert(before.free_indices@.contains(after.free_indices@[a]));
            }
        }
    }
    assert forall|m: int|
        0 <= m < after.free_indices@.len() implies (#[trigger] after.free_indices@[m]) < after.next_index
            && !after.allocated@.contains(after.free_indices@[m]) && !pending.contains(after.free_indices@[m]) by {
        if m < before.free_indices@.len() {
            assert(before.free_indices@[m] == after.free_indices@[m]);
        }
    }
    assert forall|m: int|
        0 <= m < after.allocated@.len() implies (#[trigger] after.allocated@[m]) < after.next_index
            && !pending.contains(after.allocated@[m]) by {
        assert(!p2.contains(before.allocated@[m]));
    }
    assert forall|i: usize|
        #![trigger after.allocated@.contains(i)]
        #![trigger after.free_indices@.contains(i)]
        #![trigger pending.contains(i)]
        i < after.next_index implies (after.allocated@.contains(i) || after.free_indices@.contains(i)
            || pending.contains(i)) by {
        assert(before.allocated@.contains(i) || before.free_indices@.contains(i) || p2.contains(i));
        if i == index {
            assert(after.free_indices@[after.free_indices@.len() - 1] == index);
        } else if before.free_indices@.contains(i) {
            let m = choose|m: int| 0 <= m < before.free_indices@.len() && before.free_indices@[m] == i;
            assert(after.free_indices@[m] == i);
        }
    }
    assert forall|i: usize| (#[trigger] after.id_at(i as int)) is Some <==> (after.allocated@.contains(i)
        || pending.contains(i)) by {
        if i != index {
            assert(before.id_at(i as int) is Some <==> (before.allocated@.contains(i) || p2.contains(i)));
        }
    }
    assert forall|i: int| i < 0 implies (#[trigger] after.id_at(i)) is None by {
        assert(before.id_at(i) is None);
    }
    assert forall|i: int, j: int|
        #![trigger after.id_at(i), after.id_at(j)]
        i != j && after.id_at(i) is Some implies after.id_at(i) != after.id_at(j) by {
        if j != index {
            assert(before.id_at(i) != before.id_at(j));
        }
    }
    assert forall|p: usize| pending.contains(p) implies p < after.next_index by {
        assert(p2.contains(p));
    }
}

/// `j` is in `before` and not in `after`: released between the two.
pub open spec fn released_between(before: Seq<usize>, after: Seq<usize>, j: usize) -> bool {
    before.contains(j) && !after.contains(j)
}

/// `j` has a parent, and that parent was released between `before` and
/// `after`.
pub open spec fn has_released_parent(core: &CoreArrays, before: Seq<usize>, after: Seq<usize>, j: usize) -> bool {
    match core.parent_index.at(j as int) {
        Some(p) => released_between(before, after, p),
        None => false,
    }
}

/// Conservation composes, and what remains registered after the second
/// step was registered after the first.
proof fn lemma_conserved_trans<D>(
    e0: Seq<(usize, D)>,
    r0: Seq<(usize, D)>,
    e1: Seq<(usize, D)>,
    r1: Seq<(usize, D)>,
    e2: Seq<(usize, D)>,
    r2: Seq<(usize, D)>,
)
    requires
        callbacks_conserved(e0, r0, e1, r1),
        callbacks_conserved(e1, r1, e2, r2),
    ensures
        callbacks_conserved(e0, r0, e2, r2),
        forall|x: (usize, D)| e2.contains(x) ==> e1.contains(x),
        forall|m: int| 0 <= m < r1.len() ==> r2[m] == r1[m],
{
    broadcast use vstd::seq_lib::group_to_multiset_ensures, vstd::multiset::group_multiset_axioms;
    assert forall|m: int| 0 <= m < r1.len() implies r2[m] == r1[m] by {
        assert(r2.subrange(0, r1.len() as int)[m] == r2[m]);
    }
    assert(r2.subrange(0, r0.len() as int) =~= r0) by {
        assert forall|m: int| 0 <= m < r0.len() implies r2.subrange(0, r0.len() as int)[m] == r0[m] by {
            assert(r1.subrange(0, r0.len() as int)[m] == r1[m]);
        }
    }
    let tail = r2.subrange(r1.len() as int, r2.len() as int);
    assert(r2 =~= r1 + tail) by {
        assert forall|m: int| 0 <= m < r2.len() implies r2[m] == (r1 + tail)[m] by {
            if m < r1.len() {
                assert(r2.subrange(0, r1.len() as int)[m] == r2[m]);
            }
        }
    }
    vstd::seq_lib::lemma_multiset_commutative(r1, tail);
    assert forall|x: (usize, D)| e2.contains(x) implies e1.contains(x) by {
        vstd::seq_lib::to_multiset_contains(e2, x);
        vstd::seq_lib::to_multiset_contains(e1, x);
        assert(e2.to_multiset().add(r2.to_multiset()).count(x) == e1.to_multiset().add(r1.to_multiset()).count(x));
        assert(e2.to_multiset().count(x) + r2.to_multiset().count(x) == e1.to_multiset().count(x) + r1.to_multiset().count(x));
        assert((r1 + tail).to_multiset().count(x) == r1.to_multiset().count(x) + tail.to_multiset().count(x));
        assert(e2.to_multiset().count(x) <= e1.to_multiset().count(x));
    }
}

/// One child released within the release of `index`: the callbacks that ran
/// belong to components released so far, and what stays registered for a
/// released component belongs to `index`.
proof fn lemma_release_step<D>(
    o: Seq<usize>,
    m: Seq<usize>,
    a: Seq<usize>,
    eo: Seq<(usize, D)>,
    ro: Seq<(usize, D)>,
    em: Seq<(usize, D)>,
    rm: Seq<(usize, D)>,
    ea: Seq<(usize, D)>,
    ra: Seq<(usize, D)>,
    index: usize,
)
    requires
        callbacks_conserved(eo, ro, em, rm),
        forall|k: int| ro.len() <= k < rm.len() ==> released_between(o, m, (#[trigger] rm[k]).0),
        forall|k: int| 0 <= k < em.len() && released_between(o, m, (#[trigger] em[k]).0) ==> em[k].0 == index,
        callbacks_conserved(em, rm, ea, ra),
        forall|k: int| rm.len() <= k < ra.len() ==> released_between(m, a, (#[trigger] ra[k]).0),
        forall|k: int| 0 <= k < ea.len() ==> !released_between(m, a, (#[trigger] ea[k]).0),
        forall|j: usize| m.contains(j) ==> o.contains(j),
        forall|j: usize| a.contains(j) ==> m.contains(j),
    ensures
        callbacks_conserved(eo, ro, ea, ra),
        forall|k: int| ro.len() <= k < ra.len() ==> released_between(o, a, (#[trigger] ra[k]).0),
        forall|k: int| 0 <= k < ea.len() && released_between(o, a, (#[trigger] ea[k]).0) ==> ea[k].0 == index,
{
    lemma_conserved_trans(eo, ro, em, rm, ea, ra);
    assert forall|k: int| ro.len() <= k < ra.len() implies released_between(o, a, (#[trigger] ra[k]).0) by {
        if k < rm.len() {
            assert(ra[k] == rm[k]);
            assert(released_between(o, m, rm[k].0));
        } else {
            assert(released_between(m, a, ra[k].0));
        }
    }
    assert forall|k: int| 0 <= k < ea.len() && released_between(o, a, (#[trigger] ea[k]).0) implies ea[k].0 == index by {
        assert(!released_between(m, a, ea[k].0));
        assert(ea.contains(ea[k]));
        assert(em.contains(ea[k]));
        let w = choose|w: int| 0 <= w < em.len() && em[w] == ea[k];
        assert(released_between(o, m, em[w].0));
    }
}

/// Release `index` and, first, every allocated descendant.
fn release_rec<D: FnOnce()>(
    reg: &mut Registry,
    arrays: &mut Arrays,
    callbacks: &mut DestroyCallbacks<D>,
    index: usize,
    Ghost(pending): Ghost<Set<usize>>,
)
    requires
        old(reg).wf_with(pending),
        old(reg).allocated_spec().contains(index),
        old(callbacks).all_callable(),
    ensures
        final(reg).wf_with(pending),
        final(callbacks).all_callable(),
        !final(reg).allocated_spec().contains(index),
        final(reg).id_at(index as int) is None,
        forall|j: usize| #[trigger] final(reg).allocated_spec().contains(j) ==> old(reg).allocated_spec().contains(j),
        forall|i: int| #[trigger] final(reg).id_at(i) is Some ==> final(reg).id_at(i) == old(reg).id_at(i),
        !final(callbacks).indices().contains(index),
        callbacks_conserved(old(callbacks).entries_spec(), old(callbacks).ran(), final(callbacks).entries_spec(), final(callbacks).ran()),
        forall|k: int| old(callbacks).ran().len() <= k < final(callbacks).ran().len() ==> released_between(
            old(reg).allocated_spec(),
            final(reg).allocated_spec(),
            (#[trigger] final(callbacks).ran()[k]).0,
        ),
        forall|k: int| 0 <= k < final(callbacks).entries_spec().len() ==> !released_between(
            old(reg).allocated_spec(),
            final(reg).allocated_spec(),
            (#[trigger] final(callbacks).entries_spec()[k]).0,
        ),
        final(reg).next_index_spec() == old(reg).next_index_spec(),
        final(reg).id_counter_spec() == old(reg).id_counter_spec(),
        final(reg).parent_stack_spec() == old(reg).parent_stack_spec(),
        final(reg).allocated_spec().len() < old(reg).allocated_spec().len(),
        final(reg).free_spec().len() >= old(reg).free_spec().len(),
        final(reg).free_spec().len() > 0 && final(reg).free_spec().last() == index,
        old(arrays).same_defaults(&*final(arrays)),
        forall|j: usize|
            old(reg).allocated_spec().contains(j) && !final(reg).allocated_spec().contains(j)
                ==> #[trigger] final(arrays).default_at(j as int),
        forall|j: usize|
            !(old(reg).allocated_spec().contains(j) && !final(reg).allocated_spec().contains(j))
                ==> #[trigger] old(arrays).same_at(&*final(arrays), j as int),
        forall|j: usize|
            #[trigger] released_between(old(reg).allocated_spec(), final(reg).allocated_spec(), j) ==> j == index
                || has_released_parent(&old(arrays).core, old(reg).allocated_spec(), final(reg).allocated_spec(), j),
        forall|j: usize|
            old(reg).allocated_spec().contains(j) && #[trigger] has_released_parent(
                &old(arrays).core,
                old(reg).allocated_spec(),
                final(reg).allocated_spec(),
                j,
            ) ==> released_between(old(reg).allocated_spec(), final(reg).allocated_spec(), j),
    decreases old(reg).allocated_spec().len(),
{
    let k = find_allocated(reg, index).unwrap();
    let ghost before = *reg;
    reg.allocated.remove(k);
    proof {
        lemma_unallocate(before, *reg, pending, index, k as int);
    }
    let ghost p2 = pending.insert(index);
    let children = children_of(reg, arrays, index);
    assert forall|j: usize|
        old(reg).allocated@.contains(j) && j != index && old(arrays).core.parent_index.at(j as int) == Some(index)
            implies #[trigger] children@.contains(j) by {
        assert(reg.allocated@.contains(j));
        assert(reg.allocated_spec().contains(j));
        assert(arrays.core.parent_index.at(j as int) == Some(index));
    }
    assert(old(callbacks).ran().subrange(0, old(callbacks).ran().len() as int) =~= old(callbacks).ran());
    let mut c: usize = 0;
    while c < children.len()
        invariant
            p2 == pending.insert(index),
            old(reg).allocated@.contains(index),
            reg.wf_with(p2),
            callbacks.all_callable(),
            reg.free_indices@.len() >= old(reg).free_indices@.len(),
            reg.allocated@.len() < old(reg).allocated@.len(),
            !reg.allocated@.contains(index),
            forall|j: usize| #[trigger] reg.allocated@.contains(j) ==> old(reg).allocated@.contains(j),
            forall|i: int| #[trigger] reg.id_at(i) is Some ==> reg.id_at(i) == old(reg).id_at(i),
            reg.id_at(index as int) == old(reg).id_at(index as int),
            reg.next_index == old(reg).next_index,
            reg.id_counter@ == old(reg).id_counter@,
            reg.parent_stack@ == old(reg).parent_stack@,
            old(arrays).same_defaults(&*arrays),
            forall|j: usize|
                j != index && old(reg).allocated@.contains(j) && !reg.allocated@.contains(j)
                    ==> #[trigger] arrays.default_at(j as int),
            forall|j: usize|
                (j == index || !(old(reg).allocated@.contains(j) && !reg.allocated@.contains(j)))
                    ==> #[trigger] old(arrays).same_at(&*arrays, j as int),
            forall|m: int| 0 <= m < children@.len() ==> old(arrays).core.parent_index.at(#[trigger] children@[m] as int)
                == Some(index),
            forall|j: usize|
                old(reg).allocated@.contains(j) && j != index && old(arrays).core.parent_index.at(j as int) == Some(index)
                    ==> #[trigger] children@.contains(j),
            forall|m: int| 0 <= m < c ==> !reg.allocated@.contains(#[trigger] children@[m]),
            forall|j: usize|
                #[trigger] released_between(old(reg).allocated@, reg.allocated@, j) ==> j == index
                    || has_released_parent(&old(arrays).core, old(reg).allocated@, reg.allocated@, j),
            forall|j: usize|
                old(reg).allocated@.contains(j) && old(arrays).core.parent_index.at(j as int) != Some(index)
                    && #[trigger] has_released_parent(&old(arrays).core, old(reg).allocated@, reg.allocated@, j)
                    ==> released_between(old(reg).allocated@, reg.allocated@, j),
            callbacks_conserved(old(callbacks).entries_spec(), old(callbacks).ran(), callbacks.entries_spec(), callbacks.ran()),
            forall|k: int| old(callbacks).ran().len() <= k < callbacks.ran().len() ==> released_between(
                old(reg).allocated@,
                reg.allocated@,
                (#[trigger] callbacks.ran()[k]).0,
            ),
            forall|k: int| 0 <= k < callbacks.entries_spec().len() && released_between(
                old(reg).allocated@,
                reg.allocated@,
                (#[trigger] callbacks.entries_spec()[k]).0,
            ) ==> callbacks.entries_spec()[k].0 == index,
        decreases children.len() - c,
    {
        let child = children[c];
        if is_allocated(reg, child) {
            let ghost mid = *reg;
            let ghost mid_arrays = *arrays;
            let ghost cb_mid = *callbacks;
            release_rec(reg, arrays, callbacks, child, Ghost(p2));
            proof {
                lemma_release_step(
                    old(reg).allocated@,
                    mid.allocated@,
                    reg.allocated@,
                    old(callbacks).entries_spec(),
                    old(callbacks).ran(),
                    cb_mid.entries_spec(),
                    cb_mid.ran(),
                    callbacks.entries_spec(),
                    callbacks.ran(),
                    index,
                );
                lemma_same_defaults_trans(&*old(arrays), &mid_arrays, &*arrays);
                assert forall|j: usize|
                    j != index && old(reg).allocated@.contains(j) && !reg.allocated@.contains(j)
                        implies #[trigger] arrays.default_at(j as int) by {
                    if mid.allocated@.contains(j) {
                    } else {
                        assert(mid_arrays.default_at(j as int));
                        assert(mid_arrays.same_at(&*arrays, j as int));
                        lemma_default_kept(&mid_arrays, &*arrays, j as int);
                    }
                }
                assert forall|j: usize|
                    (j == index || !(old(reg).allocated@.contains(j) && !reg.allocated@.contains(j)))
                        implies #[trigger] old(arrays).same_at(&*arrays, j as int) by {
                    assert(!(mid.allocated@.contains(j) && !reg.allocated@.contains(j)));
                    assert(old(arrays).same_at(&mid_arrays, j as int));
                    assert(mid_arrays.same_at(&*arrays, j as int));
                    lemma_same_at_trans(&*old(arrays), &mid_arrays, &*arrays, j as int);
                }
                let ghost o = old(reg).allocated@;
                let ghost m0 = mid.allocated@;
                let ghost n0 = reg.allocated@;
                assert forall|j: usize| #[trigger] released_between(o, n0, j) implies j == index || has_released_parent(
                    &old(arrays).core,
                    o,
                    n0,
                    j,
                ) by {
                    if released_between(o, m0, j) {
                        if j != index {
                            assert(has_released_parent(&old(arrays).core, o, m0, j));
                            let p = old(arrays).core.parent_index.at(j as int)->0;
                            assert(released_between(o, m0, p));
                            if n0.contains(p) {
                                assert(m0.contains(p));
                            }
                            assert(released_between(o, n0, p));
                        }
                    } else {
                        assert(m0.contains(j));
                        assert(released_between(m0, n0, j));
                        if j != child {
                            assert(has_released_parent(&mid_arrays.core, m0, n0, j));
                            assert(old(arrays).same_at(&mid_arrays, j as int));
                            let p = old(arrays).core.parent_index.at(j as int)->0;
                            assert(mid_arrays.core.parent_index.at(j as int) == Some(p));
                            assert(released_between(m0, n0, p));
                            assert(m0.contains(p));
                            assert(o.contains(p));
                            assert(released_between(o, n0, p));
                        } else {
                            assert(children@[c as int] == child);
                            assert(old(arrays).core.parent_index.at(child as int) == Some(index));
                            if n0.contains(index) {
                                assert(m0.contains(index));
                            }
                            assert(released_between(o, n0, index));
                        }
                    }
                }
                assert forall|j: usize|
                    o.contains(j) && old(arrays).core.parent_index.at(j as int) != Some(index)
                        && #[trigger] has_released_parent(&old(arrays).core, o, n0, j) implies released_between(
                    o,
                    n0,
                    j,
                ) by {
                    let p = old(arrays).core.parent_index.at(j as int)->0;
                    if released_between(o, m0, p) {
                        assert(has_released_parent(&old(arrays).core, o, m0, j));
                    } else if m0.contains(j) {
                        assert(old(arrays).same_at(&mid_arrays, j as int));
                        assert(has_released_parent(&mid_arrays.core, m0, n0, j));
                    }
                }
                assert forall|m: int| 0 <= m < c + 1 implies !n0.contains(#[trigger] children@[m]) by {
                    if m < c {
                        assert(!m0.contains(children@[m]));
                    }
                }
                assert(p2.contains(index));
                assert(reg.id_at(index as int) is Some) by {
                    assert(mid.id_at(index as int) is Some);
                }
            }
        }
        c = c + 1;
    }
    proof {
        let o = old(reg).allocated@;
        let n0 = reg.allocated@;
        assert forall|j: usize|
            o.contains(j) && #[trigger] has_released_parent(&old(arrays).core, o, n0, j) implies released_between(
            o,
            n0,
            j,
        ) by {
            if old(arrays).core.parent_index.at(j as int) == Some(index) && j != index {
                assert(children@.contains(j));
                let m = choose|m: int| 0 <= m < children@.len() && children@[m] == j;
                assert(!n0.contains(children@[m]));
            }
        }
    }
    let ghost cb_before = callbacks.indices();
    let ghost cbs0 = *callbacks;
    run_destroy_callbacks(callbacks, index);
    proof {
        lemma_without_index_excludes(cb_before, index);
        lemma_conserved_trans(
            old(callbacks).entries_spec(),
            old(callbacks).ran(),
            cbs0.entries_spec(),
            cbs0.ran(),
            callbacks.entries_spec(),
            callbacks.ran(),
        );
        assert forall|k: int| 0 <= k < callbacks.entries_spec().len() implies !released_between(
            old(reg).allocated@,
            reg.allocated@,
            (#[trigger] callbacks.entries_spec()[k]).0,
        ) by {
            let x = callbacks.entries_spec()[k];
            assert(callbacks.indices()[k] == x.0);
            assert(callbacks.entries_spec().contains(x));
            assert(cbs0.entries_spec().contains(x));
            let w = choose|w: int| 0 <= w < cbs0.entries_spec().len() && cbs0.entries_spec()[w] == x;
            assert(callbacks.indices().contains(x.0));
        }
        assert forall|k: int| old(callbacks).ran().len() <= k < callbacks.ran().len() implies released_between(
            old(reg).allocated@,
            reg.allocated@,
            (#[trigger] callbacks.ran()[k]).0,
        ) by {
            if k < cbs0.ran().len() {
                assert(callbacks.ran()[k] == cbs0.ran()[k]);
            }
        }
    }
    let ghost before_free = *reg;
    set_id_slot(reg, index, None);
    let ghost slotted = *reg;
    reg.free_indices.push(index);
    let ghost before_clear = *arrays;
    clear_all_at_index(arrays, index);
    proof {
        lemma_same_defaults_trans(&*old(arrays), &before_clear, &*arrays);
        assert forall|j: usize|
            old(reg).allocated@.contains(j) && !reg.allocated@.contains(j)
                implies #[trigger] arrays.default_at(j as int) by {
            if j != index {
                assert(before_clear.default_at(j as int));
                assert(before_clear.same_at(&*arrays, j as int));
                lemma_default_kept(&before_clear, &*arrays, j as int);
            }
        }
        assert forall|j: usize|
            !(old(reg).allocated@.contains(j) && !reg.allocated@.contains(j))
                implies #[trigger] old(arrays).same_at(&*arrays, j as int) by {
            assert(j != index);
            assert(old(arrays).same_at(&before_clear, j as int));
            assert(before_clear.same_at(&*arrays, j as int));
            lemma_same_at_trans(&*old(arrays), &before_clear, &*arrays, j as int);
        }
        assert(reg.index_to_id == slotted.index_to_id);
        assert forall|i: int| i != index implies #[trigger] reg.id_at(i) == before_free.id_at(i) by {
            assert(reg.id_at(i) == slotted.id_at(i));
        }
        assert(reg.id_at(index as int) == slotted.id_at(index as int));
        assert(!pending.contains(index)) by {
            assert(!old(reg).allocated@.contains(index) || !pending.contains(index));
        }
        lemma_free_pending(before_free, *reg, pending, index);
        assert forall|i: int| #[trigger] reg.id_at(i) is Some implies reg.id_at(i) == old(reg).id_at(i) by {
            if i != index {
                assert(reg.id_at(i) == before_free.id_at(i));
            }
        }
    }
}

/// Release an index back to the pool, first releasing all its children.
///
/// The released components are `index` and, with it, every allocated
/// component whose parent is released: each released component other than
/// `index` has a released parent, and every allocated component with a
/// released parent is released. Destroy callbacks of each released index
/// run before its slots are cleared, so a released index reads the
/// defaults and every other index reads as before. The callbacks that run
/// are exactly those registered for released components, each once, and
/// each was called: they move from the registered ones to the run ones
/// (`callbacks_conserved`), every newly run one belongs to a released
/// component and none registered for one stays. When no component remains,
/// the arrays are reset and the pool and next index start over.
pub fn release_index<D: FnOnce()>(
    reg: &mut Registry,
    arrays: &mut Arrays,
    callbacks: &mut DestroyCallbacks<D>,
    index: usize,
)
    requires
        old(reg).wf(),
        old(callbacks).all_callable(),
    ensures
        final(reg).wf(),
        final(callbacks).all_callable(),
        !final(reg).is_allocated_spec(index as int),
        forall|j: usize| !final(reg).allocated_spec().contains(j) ==> #[trigger] final(reg).id_at(j as int) is None,
        !old(reg).is_allocated_spec(index as int) ==> {
            &&& *final(reg) == *old(reg)
            &&& *final(arrays) == *old(arrays)
            &&& *final(callbacks) == *old(callbacks)
        },
        forall|j: int| #[trigger] final(reg).is_allocated_spec(j) ==> old(reg).is_allocated_spec(j)
            && final(reg).id_at(j) == old(reg).id_at(j),
        old(reg).is_allocated_spec(index as int) ==> !final(callbacks).indices().contains(index),
        callbacks_conserved(old(callbacks).entries_spec(), old(callbacks).ran(), final(callbacks).entries_spec(), final(callbacks).ran()),
        forall|k: int| old(callbacks).ran().len() <= k < final(callbacks).ran().len() ==> released_between(
            old(reg).allocated_spec(),
            final(reg).allocated_spec(),
            (#[trigger] final(callbacks).ran()[k]).0,
        ),
        forall|k: int| 0 <= k < final(callbacks).entries_spec().len() ==> !released_between(
            old(reg).allocated_spec(),
            final(reg).allocated_spec(),
            (#[trigger] final(callbacks).entries_spec()[k]).0,
        ),
        final(reg).allocated_spec().len() == 0 ==> final(reg).free_spec().len() == 0
            && final(reg).next_index_spec() == 0,
        final(reg).next_index_spec() <= old(reg).next_index_spec(),
        final(reg).id_counter_spec() == old(reg).id_counter_spec(),
        final(reg).parent_stack_spec() == old(reg).parent_stack_spec(),
        old(reg).is_allocated_spec(index as int) && final(reg).allocated_spec().len() > 0 ==> fresh_index(
            &*final(reg),
        ) == index,
        old(arrays).same_defaults(&*final(arrays)),
        forall|j: int|
            old(reg).is_allocated_spec(j) && !final(reg).is_allocated_spec(j) ==> #[trigger] final(arrays).default_at(j),
        final(reg).allocated_spec().len() > 0 ==> forall|j: usize|
            !(old(reg).is_allocated_spec(j as int) && !final(reg).is_allocated_spec(j as int))
                ==> #[trigger] old(arrays).same_at(&*final(arrays), j as int),
        old(reg).is_allocated_spec(index as int) && final(reg).allocated_spec().len() == 0 ==> forall|j: int|
            #[trigger] final(arrays).default_at(j),
        forall|j: usize|
            #[trigger] released_between(old(reg).allocated_spec(), final(reg).allocated_spec(), j) ==> j == index
                || has_released_parent(&old(arrays).core, old(reg).allocated_spec(), final(reg).allocated_spec(), j),
        forall|j: usize|
            old(reg).allocated_spec().contains(j) && #[trigger] has_released_parent(
                &old(arrays).core,
                old(reg).allocated_spec(),
                final(reg).allocated_spec(),
                j,
            ) ==> released_between(old(reg).allocated_spec(), final(reg).allocated_spec(), j),
{
    assert(old(callbacks).ran().subrange(0, old(callbacks).ran().len() as int) =~= old(callbacks).ran());
    if !is_allocated(reg, index) {
        return;
    }
    release_rec(reg, arrays, callbacks, index, Ghost(Set::empty()));
    assert forall|j: int| old(reg).is_allocated_spec(j) && !reg.is_allocated_spec(j) implies #[trigger] arrays.default_at(
        j,
    ) by {
        assert(arrays.default_at((j as usize) as int));
    }
    assert forall|j: int| #[trigger] reg.is_allocated_spec(j) implies old(reg).is_allocated_spec(j)
        && reg.id_at(j) == old(reg).id_at(j) by {
        assert(reg.allocated@.contains(j as usize));
        assert(reg.id_at(j) is Some);
    }
    if reg.allocated.len() == 0 {
        let ghost after_rec = *reg;
        reset_all_arrays(arrays);
        reg.free_indices.clear();
        reg.next_index = 0;
        proof {
            let r = *reg;
            assert(r.index_to_id == after_rec.index_to_id);
            assert forall|i: int| #[trigger] r.id_at(i) == after_rec.id_at(i) by {
            }
            assert forall|i: usize| (#[trigger] r.id_at(i as int)) is Some <==> (r.allocated@.contains(i)
                || Set::<usize>::empty().contains(i)) by {
                assert(after_rec.id_at(i as int) is Some <==> after_rec.allocated@.contains(i));
            }
            assert forall|i: int, j: int|
                #![trigger r.id_at(i), r.id_at(j)]
                i != j && r.id_at(i) is Some implies r.id_at(i) != r.id_at(j) by {
                if 0 <= i <= usize::MAX {
                    assert(r.id_at((i as usize) as int) is Some);
                }
            }
        }
    }
}

/// Reset all registry state: no allocations, empty pool, counters at zero,
/// empty parent stack, no destroy callbacks, arrays at their defaults.
pub fn reset_registry<D: FnOnce()>(
    reg: &mut Registry,
    arrays: &mut Arrays,
    callbacks: &mut DestroyCallbacks<D>,
)
    ensures
        final(reg).wf(),
        final(reg).allocated_spec().len() == 0,
        final(reg).free_spec().len() == 0,
        final(reg).next_index_spec() == 0,
        final(reg).id_counter_spec() == 0,
        final(reg).parent_stack_spec().len() == 0,
        forall|i: int| #[trigger] final(reg).id_at(i) is None,
        final(callbacks).indices().len() == 0,
        final(callbacks).all_callable(),
        old(arrays).core.parent_index.all_default(final(arrays).core.parent_index),
        old(arrays).interaction.focusable.all_default(final(arrays).interaction.focusable),
        old(arrays).same_defaults(&*final(arrays)),
        forall|i: int| #[trigger] final(arrays).default_at(i),
{
    *reg = Registry::new();
    *callbacks = DestroyCallbacks::new();
    reset_all_arrays(arrays);
}

} // verus!
