use std::collections::HashSet;
use std::sync::Arc;

use canonical_values::composite::{
    cartesian_pairs_as_maps, pairs_as_maps, singleton_lists, wrap_as_singleton_lists,
    SingleEntryMap,
};
use canonical_values::primitive::{bool_values, int_values, str_values, Corpus};
use canonical_values::slot::OnceSlot;

#[test]
fn int_set_is_exact() {
    let mut corpus = Corpus::new();
    let ints = corpus.int_canonical_set();
    assert_eq!(ints.len(), 9);
    let got: HashSet<i64> = ints.iter().copied().collect();
    let want: HashSet<i64> = [
        0,
        1,
        -1,
        2,
        -2,
        2147483647,
        -2147483648,
        9223372036854775807,
        -9223372036854775808,
    ]
    .into_iter()
    .collect();
    assert_eq!(got, want);
    assert_eq!(int_values(), *ints);
}

#[test]
fn bool_set_is_exact() {
    let mut corpus = Corpus::new();
    let bools = corpus.bool_canonical_set();
    assert_eq!(bools.len(), 2);
    let got: HashSet<bool> = bools.iter().copied().collect();
    assert_eq!(got, [true, false].into_iter().collect::<HashSet<bool>>());
    assert_eq!(bool_values(), *bools);
}

#[test]
fn string_set_is_exact() {
    let mut corpus = Corpus::new();
    let strs = corpus.string_canonical_set();
    assert_eq!(*strs, vec!["hello", "world"]);
    assert_eq!(str_values(), *strs);
}

#[test]
fn primitive_sets_are_memoized() {
    let mut corpus = Corpus::new();
    let a = corpus.int_canonical_set();
    let b = corpus.int_canonical_set();
    assert!(Arc::ptr_eq(&a, &b));
    let c = corpus.bool_canonical_set();
    let d = corpus.bool_canonical_set();
    assert!(Arc::ptr_eq(&c, &d));
    let e = corpus.string_canonical_set();
    let f = corpus.string_canonical_set();
    assert!(Arc::ptr_eq(&e, &f));
}

#[test]
fn cross_product_of_two_pairs() {
    let mut slot: OnceSlot<Vec<SingleEntryMap<i64, &'static str>>> = OnceSlot::new();
    let maps = cartesian_pairs_as_maps(&mut slot, &vec![1, 2], &vec!["a", "b"]);
    assert_eq!(maps.len(), 4);
    let got: HashSet<(i64, &str)> = maps.iter().map(|m| (*m.key(), *m.value())).collect();
    let want: HashSet<(i64, &str)> = [(1, "a"), (1, "b"), (2, "a"), (2, "b")].into_iter().collect();
    assert_eq!(got, want);
}

#[test]
fn cross_product_order_and_empty_side() {
    let maps = pairs_as_maps(&vec![true, false], &vec![3u8, 4, 5]);
    let pairs: Vec<(bool, u8)> = maps.iter().map(|m| (*m.key(), *m.value())).collect();
    assert_eq!(
        pairs,
        vec![(true, 3), (true, 4), (true, 5), (false, 3), (false, 4), (false, 5)]
    );
    assert!(pairs_as_maps(&vec![1i64, 2], &Vec::<bool>::new()).is_empty());
    assert!(pairs_as_maps(&Vec::<bool>::new(), &vec![1i64]).is_empty());
}

#[test]
fn singleton_lists_of_three() {
    let mut slot: OnceSlot<Vec<Vec<i64>>> = OnceSlot::new();
    let lists = wrap_as_singleton_lists(&mut slot, &vec![1, 2, 3]);
    assert_eq!(lists.len(), 3);
    let got: HashSet<Vec<i64>> = lists.iter().cloned().collect();
    let want: HashSet<Vec<i64>> = [vec![1], vec![2], vec![3]].into_iter().collect();
    assert_eq!(got, want);
    for l in lists.iter() {
        assert_eq!(l.len(), 1);
    }
    assert!(singleton_lists(&Vec::<u8>::new()).is_empty());
}

#[test]
fn composite_cache_is_keyed_by_shape() {
    let mut lists: OnceSlot<Vec<Vec<bool>>> = OnceSlot::new();
    let first = wrap_as_singleton_lists(&mut lists, &vec![true]);
    let second = wrap_as_singleton_lists(&mut lists, &vec![false, true]);
    assert_eq!(*second, vec![vec![true]]);
    assert!(Arc::ptr_eq(&first, &second));

    let mut maps: OnceSlot<Vec<SingleEntryMap<u8, u8>>> = OnceSlot::new();
    let m1 = cartesian_pairs_as_maps(&mut maps, &vec![1], &vec![2]);
    let m2 = cartesian_pairs_as_maps(&mut maps, &vec![5, 6], &vec![7]);
    assert_eq!(m2.len(), 1);
    assert_eq!((*m2[0].key(), *m2[0].value()), (1, 2));
    assert!(Arc::ptr_eq(&m1, &m2));
}

#[test]
fn single_entry_map_holds_its_pair() {
    let m = SingleEntryMap::new('k', 9u32);
    assert_eq!(*m.key(), 'k');
    assert_eq!(*m.value(), 9);
}
