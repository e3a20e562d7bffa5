//! Asynchronous state for conditional rendering, which branch shows, and
//! how a keyed list is reconciled with its new items.

use vstd::prelude::*;
use crate::chars::{str_chars, chars_eq};

verus! {

/// The state of an asynchronous operation.
#[derive(Clone, Debug, PartialEq)]
pub enum AsyncState<T, E> {
    /// In progress.
    Pending,
    /// Completed with a value.
    Resolved(T),
    /// Failed with an error.
    Rejected(E),
}

/// What to render for each state: the pending and error renderers are
/// optional, the value renderer is not.
pub struct WhenOptions<PendingF, ThenF, CatchF> {
    pub pending: Option<PendingF>,
    pub then_fn: ThenF,
    pub catch_fn: Option<CatchF>,
}

/// The branch that renders for a state.
#[derive(Clone, Copy, Debug, PartialEq, Eq, Structural)]
pub enum WhenBranch {
    /// The pending renderer.
    Pending,
    /// The value renderer.
    Then,
    /// The error renderer.
    Catch,
    /// Nothing is rendered.
    Nothing,
}

/// Which branch renders a state: pending and error render only when their
/// renderer is given; a value always renders.
pub fn when_branch<T, E, PendingF, ThenF, CatchF>(
    state: &AsyncState<T, E>,
    options: &WhenOptions<PendingF, ThenF, CatchF>,
) -> (b: WhenBranch)
    ensures
        b == match state {
            AsyncState::Pending => if options.pending is Some {
                WhenBranch::Pending
            } else {
                WhenBranch::Nothing
            },
            AsyncState::Resolved(_) => WhenBranch::Then,
            AsyncState::Rejected(_) => if options.catch_fn is Some {
                WhenBranch::Catch
            } else {
                WhenBranch::Nothing
            },
        },
{
    match state {
        AsyncState::Pending => if options.pending.is_some() {
            WhenBranch::Pending
        } else {
            WhenBranch::Nothing
        },
        AsyncState::Resolved(_) => WhenBranch::Then,
        AsyncState::Rejected(_) => if options.catch_fn.is_some() {
            WhenBranch::Catch
        } else {
            WhenBranch::Nothing
        },
    }
}


// =============================================================================
// Keyed lists
// =============================================================================

/// The keys as character sequences.
pub open spec fn key_views(v: Seq<String>) -> Seq<Seq<char>> {
    v.map_values(|s: String| s@)
}

/// The first occurrences in `s` of keys that are (`inside`) or are not in
/// `other`, in order; later repeats are skipped.
pub open spec fn first_keys(s: Seq<Seq<char>>, other: Seq<Seq<char>>, inside: bool) -> Seq<Seq<char>>
    decreases s.len(),
{
    if s.len() == 0 {
        Seq::empty()
    } else {
        let r = first_keys(s.drop_last(), other, inside);
        let x = s.last();
        if !s.drop_last().contains(x) && other.contains(x) == inside {
            r.push(x)
        } else {
            r
        }
    }
}

/// The keys of `s` that are not in `other`, in order.
pub open spec fn keys_absent(s: Seq<Seq<char>>, other: Seq<Seq<char>>) -> Seq<Seq<char>>
    decreases s.len(),
{
    if s.len() == 0 {
        Seq::empty()
    } else {
        let r = keys_absent(s.drop_last(), other);
        if other.contains(s.last()) {
            r
        } else {
            r.push(s.last())
        }
    }
}

/// How a keyed list goes from its current keys to the next items' keys:
/// components to create, to keep (their item is updated) and to remove.
pub struct EachPlan {
    pub create: Vec<String>,
    pub keep: Vec<String>,
    pub remove: Vec<String>,
}

/// Whether two strings are equal.
fn same_key(a: &String, b: &String) -> (r: bool)
    ensures
        r == (a@ == b@),
{
    let x = str_chars(a.as_str());
    let y = str_chars(b.as_str());
    chars_eq(x.as_slice(), y.as_slice())
}

/// Whether one of the first `n` keys of `v` is `x`.
fn has_key(v: &Vec<String>, n: usize, x: &String) -> (r: bool)
    requires
        n <= v@.len(),
    ensures
        r == key_views(v@).take(n as int).contains(x@),
{
    let mut k: usize = 0;
    while k < n
        invariant
            k <= n <= v@.len(),
            forall|m: int| 0 <= m < k ==> v@[m]@ != x@,
        decreases n - k,
    {
        if same_key(&v[k], x) {
            assert(key_views(v@).take(n as int)[k as int] == x@);
            return true;
        }
        k = k + 1;
    }
    assert forall|m: int| 0 <= m < n implies key_views(v@).take(n as int)[m] != x@ by {
        assert(key_views(v@).take(n as int)[m] == v@[m]@);
    }
    false
}

/// Reconcile a keyed list: walking the next keys in order, the first
/// occurrence of a key not among the current ones is created and of one
/// among them is kept; repeated keys are skipped. Current keys absent from
/// the next ones are removed, in their order.
pub fn each_reconcile(current: &Vec<String>, next: &Vec<String>) -> (plan: EachPlan)
    ensures
        key_views(plan.create@) == first_keys(key_views(next@), key_views(current@), false),
        key_views(plan.keep@) == first_keys(key_views(next@), key_views(current@), true),
        key_views(plan.remove@) == keys_absent(key_views(current@), key_views(next@)),
{
    let mut create: Vec<String> = Vec::new();
    let mut keep: Vec<String> = Vec::new();
    let mut k: usize = 0;
    while k < next.len()
        invariant
            k <= next@.len(),
            key_views(create@) == first_keys(key_views(next@).take(k as int), key_views(current@), false),
            key_views(keep@) == first_keys(key_views(next@).take(k as int), key_views(current@), true),
        decreases next.len() - k,
    {
        let x = &next[k];
        proof {
            assert(key_views(next@).take(k + 1).drop_last() =~= key_views(next@).take(k as int));
            assert(key_views(next@).take(k + 1).last() == x@);
        }
        if !has_key(next, k, x) {
            let in_current = has_key(current, current.len(), x);
            assert(key_views(current@).take(current@.len() as int) =~= key_views(current@));
            if in_current {
                let ghost before = keep@;
                keep.push(x.clone());
                assert(key_views(keep@) =~= key_views(before).push(x@));
            } else {
                let ghost before = create@;
                create.push(x.clone());
                assert(key_views(create@) =~= key_views(before).push(x@));
            }
        }
        k = k + 1;
    }
    assert(key_views(next@).take(next@.len() as int) =~= key_views(next@));
    let mut remove: Vec<String> = Vec::new();
    let mut j: usize = 0;
    while j < current.len()
        invariant
            j <= current@.len(),
            key_views(remove@) == keys_absent(key_views(current@).take(j as int), key_views(next@)),
        decreases current.len() - j,
    {
        let x = &current[j];
        proof {
            assert(key_views(current@).take(j + 1).drop_last() =~= key_views(current@).take(j as int));
            assert(key_views(current@).take(j + 1).last() == x@);
        }
        let in_next = has_key(next, next.len(), x);
        assert(key_views(next@).take(next@.len() as int) =~= key_views(next@));
        if !in_next {
            let ghost before = remove@;
            remove.push(x.clone());
            assert(key_views(remove@) =~= key_views(before).push(x@));
        }
        j = j + 1;
    }
    assert(key_views(current@).take(current@.len() as int) =~= key_views(current@));
    EachPlan { create, keep, remove }
}

} // verus!
