//! A growable per-index value array with a default for unset slots.

use vstd::prelude::*;

verus! {

/// Per-component values indexed by component index. A slot that was never
/// written (or was cleared) reads as the array's default.
pub struct SlotArray<T> {
    values: Vec<T>,
    default_value: T,
}

impl<T: Copy> SlotArray<T> {
    /// The value read at index i.
    pub closed spec fn at(&self, i: int) -> T {
        if 0 <= i < self.values@.len() {
            self.values@[i]
        } else {
            self.default_value
        }
    }

    /// The value unset slots read as.
    pub closed spec fn default_spec(&self) -> T {
        self.default_value
    }

    /// Number of slots with storage.
    pub closed spec fn capacity_spec(&self) -> nat {
        self.values@.len()
    }

    /// `next` is this array with slot i holding v and nothing else changed.
    pub open spec fn written(self, next: Self, i: int, v: T) -> bool {
        &&& next.default_spec() == self.default_spec()
        &&& next.at(i) == v
        &&& forall|j: int| j != i ==> #[trigger] next.at(j) == self.at(j)
    }

    /// `next` reads the same as this array everywhere but at `i`, with the
    /// same default.
    pub open spec fn kept_except(self, next: Self, i: int) -> bool {
        &&& next.default_spec() == self.default_spec()
        &&& forall|j: int| j != i ==> #[trigger] next.at(j) == self.at(j)
    }

    /// `next` reads the same as this array everywhere.
    pub open spec fn same_reads(self, next: Self) -> bool {
        &&& next.default_spec() == self.default_spec()
        &&& forall|j: int| #[trigger] next.at(j) == self.at(j)
    }

    /// Every slot of `next` reads as this array's default.
    pub open spec fn all_default(self, next: Self) -> bool {
        &&& next.default_spec() == self.default_spec()
        &&& forall|j: int| #[trigger] next.at(j) == self.default_spec()
    }

    /// A new array where every slot reads as `default_value`.
    pub fn new(default_value: T) -> (a: SlotArray<T>)
        ensures
            a.default_spec() == default_value,
            forall|i: int| #[trigger] a.at(i) == default_value,
    {
        SlotArray { values: Vec::new(), default_value }
    }

    /// Read the value at `index`.
    pub fn get(&self, index: usize) -> (v: T)
        ensures
            v == self.at(index as int),
    {
        if index < self.values.len() {
            self.values[index]
        } else {
            self.default_value
        }
    }

    /// Make room for `index` without changing what any slot reads.
    pub fn ensure_capacity(&mut self, index: usize)
        ensures
            final(self).default_spec() == old(self).default_spec(),
            forall|i: int| #[trigger] final(self).at(i) == old(self).at(i),
            final(self).capacity_spec() > index,
    {
        while self.values.len() <= index
            invariant
                self.default_value == old(self).default_value,
                old(self).values@.len() <= self.values@.len(),
                forall|i: int|
                    0 <= i < self.values@.len() ==> #[trigger] self.values@[i] == (if i < old(
                        self,
                    ).values@.len() {
                        old(self).values@[i]
                    } else {
                        self.default_value
                    }),
            decreases index + 1 - self.values.len(),
        {
            let d = self.default_value;
            self.values.push(d);
        }
        assert forall|i: int| #[trigger] self.at(i) == old(self).at(i) by {
            if 0 <= i < self.values@.len() {
            }
        }
    }

    /// Write `value` at `index`.
    pub fn set_value(&mut self, index: usize, value: T)
        ensures
            final(self).default_spec() == old(self).default_spec(),
            final(self).at(index as int) == value,
            forall|i: int| i != index ==> #[trigger] final(self).at(i) == old(self).at(i),
    {
        self.ensure_capacity(index);
        let ghost mid = *self;
        self.values.set(index, value);
        assert forall|i: int| i != index implies #[trigger] self.at(i) == old(self).at(i) by {
            assert(self.at(i) == mid.at(i));
        }
    }

    /// Reset the slot at `index` to the default.
    pub fn clear(&mut self, index: usize)
        ensures
            final(self).default_spec() == old(self).default_spec(),
            final(self).at(index as int) == old(self).default_spec(),
            forall|i: int| i != index ==> #[trigger] final(self).at(i) == old(self).at(i),
    {
        if index < self.values.len() {
            let d = self.default_value;
            let ghost mid = *self;
            self.values.set(index, d);
            assert forall|i: int| i != index implies #[trigger] self.at(i) == old(self).at(i) by {
                assert(self.at(i) == mid.at(i));
            }
        }
    }

    /// Reset every slot to the default and drop the storage.
    pub fn clear_all(&mut self)
        ensures
            final(self).default_spec() == old(self).default_spec(),
            forall|i: int| #[trigger] final(self).at(i) == old(self).default_spec(),
    {
        self.values = Vec::new();
    }
}

} // verus!
