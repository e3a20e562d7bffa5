//! Lists of registered handlers, each under a registration id.

use vstd::prelude::*;

verus! {

/// Whether an entry is not registered under `id`.
pub open spec fn not_id<X>(id: usize) -> spec_fn((usize, X)) -> bool {
    |e: (usize, X)| e.0 != id
}

/// Filtering a sequence whose elements all pass leaves it unchanged.
pub proof fn lemma_filter_all_pass<A>(s: Seq<A>, p: spec_fn(A) -> bool)
    requires
        forall|j: int| 0 <= j < s.len() ==> p(#[trigger] s[j]),
    ensures
        s.filter(p) == s,
    decreases s.len(),
{
    reveal(Seq::filter);
    if s.len() > 0 {
        lemma_filter_all_pass(s.drop_last(), p);
        assert(s.drop_last().push(s.last()) =~= s);
    }
}

/// Removing an element that fails the filter does not change the filtered
/// sequence.
pub proof fn lemma_filter_remove_failing<A>(s: Seq<A>, k: int, p: spec_fn(A) -> bool)
    requires
        0 <= k < s.len(),
        !p(s[k]),
    ensures
        s.remove(k).filter(p) == s.filter(p),
{
    let a = s.take(k);
    let b = s.skip(k + 1);
    let one = seq![s[k]];
    assert(s =~= a + one + b);
    assert(s.remove(k) =~= a + b);
    Seq::filter_distributes_over_add(a + one, b, p);
    Seq::filter_distributes_over_add(a, one, p);
    Seq::filter_distributes_over_add(a, b, p);
    reveal_with_fuel(Seq::filter, 2);
    assert(one.drop_last() =~= Seq::<A>::empty());
    assert(one.filter(p) =~= Seq::<A>::empty());
    assert(a.filter(p) + one.filter(p) =~= a.filter(p));
}

/// Remove every entry registered under `id`, keeping the order of the rest.
pub fn remove_id<X>(v: &mut Vec<(usize, X)>, id: usize)
    ensures
        final(v)@ == old(v)@.filter(not_id::<X>(id)),
{
    let ghost p = not_id::<X>(id);
    let mut k: usize = 0;
    while k < v.len()
        invariant
            p == not_id::<X>(id),
            k <= v@.len(),
            v@.filter(p) == old(v)@.filter(p),
            forall|j: int| 0 <= j < k ==> p(#[trigger] v@[j]),
        decreases v@.len() - k,
    {
        if v[k].0 == id {
            let ghost before = v@;
            proof {
                lemma_filter_remove_failing(before, k as int, p);
            }
            v.remove(k);
            assert(v@ =~= before.remove(k as int));
            assert forall|j: int| 0 <= j < k implies p(#[trigger] v@[j]) by {
                assert(v@[j] == before[j]);
            }
        } else {
            k = k + 1;
        }
    }
    proof {
        lemma_filter_all_pass(v@, p);
    }
}

} // verus!

verus! {

/// The value registered under `key` (the first such entry), if any.
pub open spec fn lookup<X>(s: Seq<(usize, X)>, key: usize) -> Option<X>
    decreases s.len(),
{
    if s.len() == 0 {
        None
    } else if s[0].0 == key {
        Some(s[0].1)
    } else {
        lookup(s.drop_first(), key)
    }
}

/// Position of the first entry registered under `key`.
pub fn find_key<X>(v: &Vec<(usize, X)>, key: usize) -> (r: Option<usize>)
    ensures
        match r {
            Some(p) => p < v@.len() && v@[p as int].0 == key && lookup(v@, key) == Some(v@[p as int].1) && (forall|
                j: int,
            | 0 <= j < p ==> (#[trigger] v@[j]).0 != key),
            None => lookup(v@, key) is None,
        },
{
    let mut k: usize = 0;
    assert(v@.skip(0) =~= v@);
    while k < v.len()
        invariant
            k <= v@.len(),
            lookup(v@, key) == lookup(v@.skip(k as int), key),
            forall|j: int| 0 <= j < k ==> (#[trigger] v@[j]).0 != key,
        decreases v.len() - k,
    {
        assert(v@.skip(k as int).drop_first() =~= v@.skip(k + 1));
        if v[k].0 == key {
            return Some(k);
        }
        k = k + 1;
    }
    None
}

/// After filtering out `key` and appending an entry for it, looking `key`
/// up finds the new entry, and other keys find what they found before.
pub proof fn lemma_lookup_replace<X>(s: Seq<(usize, X)>, key: usize, x: X, other: usize)
    ensures
        lookup(s.filter(not_id::<X>(key)).push((key, x)), key) == Some(x),
        other != key ==> lookup(s.filter(not_id::<X>(key)).push((key, x)), other) == lookup(s, other),
    decreases s.len(),
{
    reveal(Seq::filter);
    let p = not_id::<X>(key);
    lemma_lookup_absent_push(s.filter(p), key, x);
    if other != key {
        lemma_lookup_filter_other(s, key, other);
        lemma_lookup_push_other(s.filter(p), key, x, other);
    }
}

proof fn lemma_lookup_absent_push<X>(s: Seq<(usize, X)>, key: usize, x: X)
    requires
        forall|j: int| 0 <= j < s.len() ==> (#[trigger] s[j]).0 != key,
    ensures
        lookup(s.push((key, x)), key) == Some(x),
    decreases s.len(),
{
    if s.len() > 0 {
        assert(s.push((key, x)).drop_first() =~= s.drop_first().push((key, x)));
        lemma_lookup_absent_push(s.drop_first(), key, x);
    }
}

proof fn lemma_lookup_push_other<X>(s: Seq<(usize, X)>, key: usize, x: X, other: usize)
    requires
        other != key,
    ensures
        lookup(s.push((key, x)), other) == lookup(s, other),
    decreases s.len(),
{
    if s.len() > 0 {
        assert(s.push((key, x)).drop_first() =~= s.drop_first().push((key, x)));
        lemma_lookup_push_other(s.drop_first(), key, x, other);
    } else {
        assert(s.push((key, x)).drop_first() =~= Seq::<(usize, X)>::empty());
        reveal_with_fuel(lookup, 2);
    }
}

pub proof fn lemma_lookup_filter_other<X>(s: Seq<(usize, X)>, key: usize, other: usize)
    requires
        other != key,
    ensures
        lookup(s.filter(not_id::<X>(key)), other) == lookup(s, other),
    decreases s.len(),
{
    reveal(Seq::filter);
    let p = not_id::<X>(key);
    if s.len() > 0 {
        let t = s.drop_first();
        lemma_lookup_filter_other(t, key, other);
        assert(s =~= seq![s[0]] + t);
        Seq::filter_distributes_over_add(seq![s[0]], t, p);
        reveal_with_fuel(Seq::filter, 2);
        assert(seq![s[0]].drop_last() =~= Seq::<(usize, X)>::empty());
        if p(s[0]) {
            assert(seq![s[0]].filter(p) =~= seq![s[0]]);
            let f = seq![s[0]] + t.filter(p);
            assert(f.drop_first() =~= t.filter(p));
        } else {
            assert(seq![s[0]].filter(p) =~= Seq::<(usize, X)>::empty());
            assert(Seq::<(usize, X)>::empty() + t.filter(p) =~= t.filter(p));
        }
    }
}

/// Filtering out `key` leaves no entry under it.
pub proof fn lemma_filter_no_key<X>(s: Seq<(usize, X)>, key: usize)
    ensures
        forall|j: int| 0 <= j < s.filter(not_id::<X>(key)).len() ==> (#[trigger] s.filter(not_id::<X>(key))[j]).0 != key,
{
    broadcast use vstd::seq_lib::group_filter_ensures;
}

/// Every element of a filtered sequence is an element of the sequence.
pub proof fn lemma_filter_keeps<A>(s: Seq<A>, p: spec_fn(A) -> bool)
    ensures
        forall|j: int| 0 <= j < s.filter(p).len() ==> s.contains(#[trigger] s.filter(p)[j]),
    decreases s.len(),
{
    reveal(Seq::filter);
    if s.len() > 0 {
        lemma_filter_keeps(s.drop_last(), p);
        assert forall|j: int| 0 <= j < s.filter(p).len() implies s.contains(#[trigger] s.filter(p)[j]) by {
            let f = s.drop_last().filter(p);
            if j < f.len() {
                assert(s.filter(p)[j] == f[j]);
                assert(s.drop_last().contains(f[j]));
                let m = choose|m: int| 0 <= m < s.drop_last().len() && s.drop_last()[m] == f[j];
                assert(s[m] == f[j]);
            } else {
                assert(s.filter(p)[j] == s.last());
                assert(s[s.len() - 1] == s.last());
            }
        }
    }
}

/// Replacing the first entry under `key` changes what `key` finds and
/// nothing else.
pub proof fn lemma_lookup_update<X>(s: Seq<(usize, X)>, p: int, key: usize, x: X, other: usize)
    requires
        0 <= p < s.len(),
        s[p].0 == key,
        forall|j: int| 0 <= j < p ==> (#[trigger] s[j]).0 != key,
    ensures
        lookup(s.update(p, (key, x)), key) == Some(x),
        other != key ==> lookup(s.update(p, (key, x)), other) == lookup(s, other),
    decreases p,
{
    if p > 0 {
        assert(s.update(p, (key, x)).drop_first() =~= s.drop_first().update(p - 1, (key, x)));
        assert forall|j: int| 0 <= j < p - 1 implies (#[trigger] s.drop_first()[j]).0 != key by {
            assert(s.drop_first()[j] == s[j + 1]);
        }
        lemma_lookup_update(s.drop_first(), p - 1, key, x, other);
    } else {
        assert(s.update(p, (key, x)).drop_first() =~= s.drop_first());
    }
}

/// Appending an entry under a key nothing is registered under makes it
/// found, and changes nothing else.
pub proof fn lemma_lookup_push_new<X>(s: Seq<(usize, X)>, key: usize, x: X, other: usize)
    requires
        lookup(s, key) is None,
    ensures
        lookup(s.push((key, x)), key) == Some(x),
        other != key ==> lookup(s.push((key, x)), other) == lookup(s, other),
    decreases s.len(),
{
    if s.len() > 0 {
        assert(s.push((key, x)).drop_first() =~= s.drop_first().push((key, x)));
        lemma_lookup_push_new(s.drop_first(), key, x, other);
    } else {
        assert(s.push((key, x)).drop_first() =~= Seq::<(usize, X)>::empty());
        reveal_with_fuel(lookup, 2);
    }
}

/// With no entry under `key`, looking it up finds nothing.
pub proof fn lemma_lookup_absent<X>(s: Seq<(usize, X)>, key: usize)
    requires
        forall|j: int| 0 <= j < s.len() ==> (#[trigger] s[j]).0 != key,
    ensures
        lookup(s, key) is None,
    decreases s.len(),
{
    if s.len() > 0 {
        assert forall|j: int| 0 <= j < s.drop_first().len() implies (#[trigger] s.drop_first()[j]).0 != key by {
            assert(s.drop_first()[j] == s[j + 1]);
        }
        lemma_lookup_absent(s.drop_first(), key);
    }
}

/// Filtering out the key of the first entry makes the sequence shorter.
pub proof fn lemma_filter_shrinks<X>(s: Seq<(usize, X)>, key: usize)
    requires
        s.len() > 0,
        s[0].0 == key,
    ensures
        s.filter(not_id::<X>(key)).len() < s.len(),
{
    let p = not_id::<X>(key);
    let rest = s.drop_first();
    assert(s =~= seq![s[0]] + rest);
    Seq::filter_distributes_over_add(seq![s[0]], rest, p);
    reveal_with_fuel(Seq::filter, 2);
    assert(seq![s[0]].drop_last() =~= Seq::<(usize, X)>::empty());
    assert(seq![s[0]].filter(p) =~= Seq::<(usize, X)>::empty());
    assert(Seq::<(usize, X)>::empty() + rest.filter(p) =~= rest.filter(p));
    rest.lemma_filter_len(p);
}

} // verus!
