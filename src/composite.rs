//! Sets derived from smaller canonical sets: one-element sequences, and
//! single-entry maps over a cross product.
use std::sync::Arc;
use vstd::arithmetic::div_mod::{lemma_fundamental_div_mod, lemma_fundamental_div_mod_converse};
use vstd::prelude::*;

use crate::slot::{serve, runs_needed, OnceSlot};

verus! {

/// A map with exactly one entry.
#[derive(Clone, Copy, Debug, PartialEq, Eq, Hash)]
pub struct SingleEntryMap<K, V> {
    key: K,
    value: V,
}

impl<K, V> SingleEntryMap<K, V> {
    pub open spec fn view(&self) -> Map<K, V> {
        map![self.spec_key() => self.spec_value()]
    }

    pub closed spec fn spec_key(&self) -> K {
        self.key
    }

    pub closed spec fn spec_value(&self) -> V {
        self.value
    }

    /// The entry as a pair.
    pub open spec fn pair(&self) -> (K, V) {
        (self.spec_key(), self.spec_value())
    }

    pub fn new(key: K, value: V) -> (m: Self)
        ensures
            m.pair() == (key, value),
    {
        SingleEntryMap { key, value }
    }

    pub fn key(&self) -> (k: &K)
        ensures
            *k == self.spec_key(),
    {
        &self.key
    }

    pub fn value(&self) -> (v: &V)
        ensures
            *v == self.spec_value(),
    {
        &self.value
    }
}

/// Each element of `base`, in order, as a one-element sequence.
pub open spec fn singletons<T>(base: Seq<T>) -> Seq<Seq<T>> {
    base.map_values(|x: T| seq![x])
}

/// The views of a sequence of vectors.
pub open spec fn lists_view<T>(lists: Seq<Vec<T>>) -> Seq<Seq<T>> {
    lists.map_values(|l: Vec<T>| l@)
}

/// Every (key, value) pair, keys in the outer order and values in the inner
/// one: pair `i * |values| + j` is `(keys[i], values[j])`.
pub open spec fn cross_pairs<K, V>(keys: Seq<K>, values: Seq<V>) -> Seq<(K, V)> {
    Seq::new(
        keys.len() * values.len(),
        |n: int| (keys[n / values.len() as int], values[n % values.len() as int]),
    )
}

/// The entries of a sequence of single-entry maps, as pairs.
pub open spec fn entries_of<K, V>(maps: Seq<SingleEntryMap<K, V>>) -> Seq<(K, V)> {
    maps.map_values(|m: SingleEntryMap<K, V>| m.pair())
}

/// Wraps each element of `base` in a vector of its own.
pub fn singleton_lists<T: Copy>(base: &Vec<T>) -> (r: Vec<Vec<T>>)
    ensures
        lists_view(r@) == singletons(base@),
{
    let mut out: Vec<Vec<T>> = Vec::new();
    let mut i: usize = 0;
    while i < base.len()
        invariant
            i <= base.len(),
            out@.len() == i,
            forall|k: int| 0 <= k < i ==> (#[trigger] out@[k])@ == seq![base@[k]],
        decreases base.len() - i,
    {
        let mut one: Vec<T> = Vec::new();
        one.push(base[i]);
        out.push(one);
        i = i + 1;
    }
    assert(lists_view(out@) =~= singletons(base@));
    out
}

proof fn lemma_split_index(n: int, kl: int, vl: int)
    requires
        0 <= n < kl * vl,
        vl > 0,
    ensures
        0 <= n / vl < kl,
        0 <= n % vl < vl,
        n == (n / vl) * vl + n % vl,
{
    lemma_fundamental_div_mod(n, vl);
    let q = n / vl;
    let r = n % vl;
    assert(n == q * vl + r) by (nonlinear_arith)
        requires
            n == vl * q + r,
    ;
    assert(0 <= q < kl) by (nonlinear_arith)
        requires
            n == q * vl + r,
            0 <= r < vl,
            0 <= n < kl * vl,
    ;
}

/// One single-entry map per (key, value) pair, across the whole cross product.
pub fn pairs_as_maps<K: Copy, V: Copy>(keys: &Vec<K>, values: &Vec<V>) -> (r: Vec<
    SingleEntryMap<K, V>,
>)
    ensures
        entries_of(r@) == cross_pairs(keys@, values@),
{
    let ghost kl = keys@.len() as int;
    let ghost vl = values@.len() as int;
    let mut out: Vec<SingleEntryMap<K, V>> = Vec::new();
    let mut i: usize = 0;
    while i < keys.len()
        invariant
            kl == keys@.len(),
            vl == values@.len(),
            i <= kl,
            out@.len() == i * vl,
            forall|n: int|
                0 <= n < out@.len() ==> (#[trigger] out@[n]).pair() == (
                    keys@[n / vl],
                    values@[n % vl],
                ),
        decreases kl - i,
    {
        let mut j: usize = 0;
        while j < values.len()
            invariant
                kl == keys@.len(),
                vl == values@.len(),
                i < kl,
                j <= vl,
                out@.len() == i * vl + j,
                forall|n: int|
                    0 <= n < out@.len() ==> (#[trigger] out@[n]).pair() == (
                        keys@[n / vl],
                        values@[n % vl],
                    ),
            decreases vl - j,
        {
            proof {
                lemma_fundamental_div_mod_converse(i * vl + j, vl, i as int, j as int);
            }
            out.push(SingleEntryMap::new(keys[i], values[j]));
            j = j + 1;
        }
        assert((i + 1) * vl == i * vl + vl) by (nonlinear_arith);
        i = i + 1;
    }
    assert(entries_of(out@) =~= cross_pairs(keys@, values@));
    out
}

/// Singleton lists of a set: one list per element, each of length one,
/// none repeated, and together they are exactly the elements wrapped.
pub proof fn lemma_singletons_of_set<T>(base: Seq<T>)
    requires
        base.no_duplicates(),
    ensures
        singletons(base).len() == base.len(),
        forall|i: int| 0 <= i < base.len() ==> (#[trigger] singletons(base)[i]).len() == 1,
        singletons(base).no_duplicates(),
        singletons(base).to_set() == base.to_set().map(|x: T| seq![x]),
{
    let s = singletons(base);
    assert forall|a: int, b: int| 0 <= a < s.len() && 0 <= b < s.len() && a != b implies s[a]
        != s[b] by {
        if s[a] == s[b] {
            assert(s[a][0] == base[a]);
            assert(s[b][0] == base[b]);
        }
    }
    assert forall|l: Seq<T>| s.to_set().contains(l) <==> base.to_set().map(
        |x: T| seq![x],
    ).contains(l) by {
        if s.to_set().contains(l) {
            let i = choose|i: int| 0 <= i < s.len() && s[i] == l;
            assert(base.to_set().contains(base[i]));
        }
        if base.to_set().map(|x: T| seq![x]).contains(l) {
            let x = choose|x: T| base.to_set().contains(x) && seq![x] == l;
            let i = choose|i: int| 0 <= i < base.len() && base[i] == x;
            assert(s[i] == l);
        }
    }
    assert(s.to_set() =~= base.to_set().map(|x: T| seq![x]));
}

/// The cross product of two sets: |keys| * |values| pairs, none repeated,
/// holding a pair exactly when its key is a key and its value a value.
pub proof fn lemma_cross_product_of_sets<K, V>(keys: Seq<K>, values: Seq<V>)
    requires
        keys.no_duplicates(),
        values.no_duplicates(),
    ensures
        cross_pairs(keys, values).len() == keys.len() * values.len(),
        cross_pairs(keys, values).no_duplicates(),
        forall|k: K, v: V|
            cross_pairs(keys, values).contains((k, v)) <==> keys.contains(k) && values.contains(v),
{
    let c = cross_pairs(keys, values);
    let kl = keys.len() as int;
    let vl = values.len() as int;
    assert(c.len() == kl * vl);
    assert forall|a: int, b: int| 0 <= a < c.len() && 0 <= b < c.len() && a != b implies c[a]
        != c[b] by {
        lemma_split_index(a, kl, vl);
        lemma_split_index(b, kl, vl);
    }
    assert forall|k: K, v: V| c.contains((k, v)) <==> keys.contains(k) && values.contains(v) by {
        if c.contains((k, v)) {
            let n = choose|n: int| 0 <= n < c.len() && c[n] == (k, v);
            lemma_split_index(n, kl, vl);
        }
        if keys.contains(k) && values.contains(v) {
            let i = choose|i: int| 0 <= i < kl && keys[i] == k;
            let j = choose|j: int| 0 <= j < vl && values[j] == v;
            let n = i * vl + j;
            assert(0 <= n < kl * vl) by (nonlinear_arith)
                requires
                    0 <= i < kl,
                    0 <= j < vl,
                    n == i * vl + j,
            ;
            lemma_fundamental_div_mod_converse(n, vl, i, j);
            assert(c[n] == (k, v));
        }
    }
}

/// Singleton lists of `base`, memoized in `slot`, the cache entry of the
/// shape "sequence of T". The slot is keyed by that shape alone: once it
/// holds a result, a request with another base gets that same result.
pub fn wrap_as_singleton_lists<T: Copy>(slot: &mut OnceSlot<Vec<Vec<T>>>, base: &Vec<T>) -> (r: Arc<
    Vec<Vec<T>>,
>)
    requires
        old(slot).wf(),
    ensures
        final(slot).wf(),
        (final(slot)@, *r) == serve(old(slot)@, *r),
        old(slot)@ is None ==> lists_view(r@) == singletons(base@),
        final(slot).inits() == old(slot).inits() + runs_needed(old(slot)@),
{
    let build = || -> (out: Vec<Vec<T>>)
        ensures
            lists_view(out@) == singletons(base@),
    {
        singleton_lists(base)
    };
    slot.get_or_create(build)
}

/// The cross product of `keys` and `values` as single-entry maps, memoized
/// in `slot`, the cache entry of the shape "map from K to V". The slot is
/// keyed by that shape alone: once it holds a result, a request with other
/// sets gets that same result.
pub fn cartesian_pairs_as_maps<K: Copy, V: Copy>(
    slot: &mut OnceSlot<Vec<SingleEntryMap<K, V>>>,
    keys: &Vec<K>,
    values: &Vec<V>,
) -> (r: Arc<Vec<SingleEntryMap<K, V>>>)
    requires
        old(slot).wf(),
    ensures
        final(slot).wf(),
        (final(slot)@, *r) == serve(old(slot)@, *r),
        old(slot)@ is None ==> entries_of(r@) == cross_pairs(keys@, values@),
        final(slot).inits() == old(slot).inits() + runs_needed(old(slot)@),
{
    let build = || -> (out: Vec<SingleEntryMap<K, V>>)
        ensures
            entries_of(out@) == cross_pairs(keys@, values@),
    {
        pairs_as_maps(keys, values)
    };
    slot.get_or_create(build)
}

} // verus!
