use std::collections::VecDeque;
use std_collection_traits::allocator::GlobalAllocator;
use std_collection_traits::associated::{
    AssociatedMap, AssociatedMapIter, AssociatedMapOrd, AssociatedSet, AssociatedSetOperation,
    AssociatedSetOrd,
};
use std_collection_traits::bag::Bag;
use std_collection_traits::capacity::{
    CapacityAware, CapacityConstructible, CapacityReserve, CapacityReserveExact, CapacityShrink,
};
use std_collection_traits::elem::{ExtendOwned, IntoIteratorOwned};
use std_collection_traits::exact_size::ExactSized;
use std_collection_traits::iter::{
    AssociatedDrainFilter, AssociatedDrainFilterSet, AssociatedDrainFull, AssociatedIterable,
    AssociatedIterableMut, AssociatedRange, DrainFilter, DrainFull, DrainRange, Iterable,
    IterableMut, Range,
};
use std_collection_traits::laws::{
    allocator_capacity_round_trip, allocator_round_trip, capacity_round_trip,
    deque_pop_front_matches_native, deque_push_front_matches_native, len_matches_native,
    random_insert_matches_native, seq_pop_matches_native, seq_push_matches_native,
};
use std_collection_traits::list::List;
use std_collection_traits::misc::{AssociatedContains, Contains, EmptyConstructible, Erasable};
use std_collection_traits::ord_map::OrdMap;
use std_collection_traits::ord_set::OrdSet;
use std_collection_traits::sequential::{Contiguous, DoubleEnded, RandomAccess, Sequential};
use std_collection_traits::vec_map::VecMap;
use std_collection_traits::vec_set::VecSet;

#[test]
fn sequential_on_vec_matches_native() {
    let mut v: Vec<u64> = Vec::new();
    Sequential::push_back(&mut v, 1);
    Sequential::push_back(&mut v, 2);
    Sequential::push_back(&mut v, 3);
    assert_eq!(v, vec![1, 2, 3]);
    assert_eq!(Sequential::back(&v), Some(&3));
    assert_eq!(Sequential::pop_back(&mut v), Some(3));
    assert_eq!(Sequential::remove(&mut v, 0), Some(1));
    assert_eq!(v, vec![2]);
    let mut w: Vec<u64> = vec![7, 8];
    Sequential::append(&mut v, &mut w);
    assert_eq!(v, vec![2, 7, 8]);
    assert!(w.is_empty());
    let tail = Sequential::split_off(&mut v, 1);
    assert_eq!(v, vec![2]);
    assert_eq!(tail, vec![7, 8]);
}

#[test]
fn random_access_on_vec() {
    let mut v: Vec<u64> = vec![1, 2, 3, 4, 5];
    RandomAccess::rotate_left(&mut v, 2);
    assert_eq!(v, vec![3, 4, 5, 1, 2]);
    RandomAccess::rotate_right(&mut v, 2);
    assert_eq!(v, vec![1, 2, 3, 4, 5]);
    RandomAccess::swap(&mut v, 0, 4);
    assert_eq!(v, vec![5, 2, 3, 4, 1]);
    assert_eq!(RandomAccess::get(&v, 2), Some(&3));
    assert_eq!(RandomAccess::get(&v, 9), None);
    RandomAccess::insert(&mut v, 1, 9);
    assert_eq!(v, vec![5, 9, 2, 3, 4, 1]);
    assert_eq!(RandomAccess::swap_remove_back(&mut v, 0), Some(5));
    assert_eq!(v, vec![1, 9, 2, 3, 4]);
    let sorted: Vec<u64> = vec![1, 2, 3, 10, 11];
    let p = RandomAccess::partition_point(&sorted, |x: &u64| *x < 10);
    assert_eq!(p, 3);
}

#[test]
fn vec_traversal_and_ranges() {
    let mut v: Vec<u64> = vec![10, 20, 30, 40];
    assert_eq!(*Iterable::nth(&v, 2), 30);
    IterableMut::set_nth(&mut v, 1, 25);
    assert_eq!(v, vec![10, 25, 30, 40]);
    assert_eq!(Range::range(&v, 1, 3), &[25, 30]);
    assert_eq!(Contiguous::as_slice(&v), &[10, 25, 30, 40]);
    let mid = DrainRange::drain_range(&mut v, 1, 3);
    assert_eq!(mid, vec![25, 30]);
    assert_eq!(v, vec![10, 40]);
}

#[test]
fn drain_filter_keeps_rest_in_order() {
    let mut v: Vec<u64> = vec![1, 2, 3, 4, 5, 6];
    let evens = DrainFilter::drain_filter(&mut v, |x: &u64| *x % 2 == 0);
    assert_eq!(evens, vec![2, 4, 6]);
    assert_eq!(v, vec![1, 3, 5]);

    let mut l: List<u64> = List::new();
    for x in [5u64, 6, 7, 8] {
        Sequential::push_back(&mut l, x);
    }
    let small = DrainFilter::drain_filter(&mut l, |x: &u64| *x < 7);
    assert_eq!(small, vec![5, 6]);
    assert_eq!(l.into_elements(), vec![7, 8]);
}

#[test]
fn deque_both_ends_and_rotation() {
    let mut d: VecDeque<u64> = VecDeque::new();
    DoubleEnded::push_front(&mut d, 2);
    Sequential::push_back(&mut d, 3);
    DoubleEnded::push_front(&mut d, 1);
    assert_eq!(DoubleEnded::front(&d), Some(&1));
    assert_eq!(Sequential::back(&d), Some(&3));
    RandomAccess::rotate_left(&mut d, 1);
    assert_eq!(d.clone().into_elements(), vec![2, 3, 1]);
    assert_eq!(DoubleEnded::pop_front(&mut d), Some(2));
    assert_eq!(Sequential::pop_back(&mut d), Some(1));
    assert_eq!(ExactSized::len(&d), 1);
}

#[test]
fn list_front_back() {
    let mut l: List<u64> = List::new();
    assert!(DoubleEnded::front(&l).is_none());
    assert!(Sequential::back(&l).is_none());
    assert!(Sequential::pop_back(&mut l).is_none());
    assert!(DoubleEnded::pop_front(&mut l).is_none());
    DoubleEnded::push_front(&mut l, 4);
    DoubleEnded::push_front(&mut l, 3);
    Sequential::push_back(&mut l, 5);
    assert_eq!(DoubleEnded::front(&l), Some(&3));
    assert_eq!(Sequential::back(&l), Some(&5));
    assert_eq!(l.into_elements(), vec![3, 4, 5]);
}

#[test]
fn bag_accumulates_and_drains() {
    let mut b: Bag<u64> = Bag::with_capacity(8);
    assert_eq!(b.capacity(), 8);
    b.extend_one(4);
    b.extend_from_vec(vec![5, 6]);
    assert_eq!(b.len(), 3);
    let all = DrainFull::drain(&mut b);
    assert_eq!(all, vec![4, 5, 6]);
    assert!(b.is_empty());
    b.shrink_to_fit();
    assert_eq!(b.capacity(), 0);
}

#[test]
fn ord_set_keeps_elements_sorted() {
    let mut s = OrdSet::new();
    assert!(AssociatedSet::insert(&mut s, 3));
    assert!(AssociatedSet::insert(&mut s, 1));
    assert!(AssociatedSet::insert(&mut s, 2));
    assert!(!AssociatedSet::insert(&mut s, 2));
    assert_eq!(ExactSized::len(&s), 3);
    assert!(Contains::contains(&s, &2));
    assert_eq!(AssociatedSet::get(&s, &3), Some(&3));
    assert!(AssociatedSet::get(&s, &9).is_none());
    assert_eq!(AssociatedSetOrd::first(&s), Some(&1));
    assert_eq!(AssociatedSetOrd::last(&s), Some(&3));
    assert_eq!(s.into_elements(), vec![1, 2, 3]);
}

#[test]
fn ord_set_algebra() {
    let mut a = OrdSet::new();
    let mut b = OrdSet::new();
    for x in [1u64, 2, 3, 4] {
        AssociatedSet::insert(&mut a, x);
    }
    for x in [3u64, 4, 5] {
        AssociatedSet::insert(&mut b, x);
    }
    assert!(!AssociatedSet::is_disjoint(&a, &b));
    assert!(!AssociatedSet::is_subset(&a, &b));
    assert!(AssociatedSet::is_superset(&a, &a));
    assert_eq!(AssociatedSetOperation::difference(&a, &b), vec![1, 2]);
    assert_eq!(AssociatedSetOperation::intersection(&a, &b), vec![3, 4]);
    assert_eq!(AssociatedSetOperation::symmetric_difference(&a, &b), vec![1, 2, 5]);
    assert_eq!(AssociatedSetOperation::union(&a, &b), vec![1, 2, 3, 4, 5]);
}

#[test]
fn ord_set_split_append_take() {
    let mut s = OrdSet::new();
    for x in [1u64, 3, 5, 7] {
        AssociatedSet::insert(&mut s, x);
    }
    let mut high = AssociatedSetOrd::split_off(&mut s, &4);
    assert_eq!(AssociatedSetOrd::first(&high), Some(&5));
    assert_eq!(AssociatedSetOrd::pop_first(&mut s), Some(1));
    assert_eq!(AssociatedSetOrd::pop_last(&mut high), Some(7));
    AssociatedSetOrd::append(&mut s, &mut high);
    assert!(ExactSized::is_empty(&high));
    assert_eq!(s.into_elements(), vec![3, 5]);

    let mut t = OrdSet::new();
    AssociatedSet::insert(&mut t, 8);
    assert_eq!(AssociatedSet::take(&mut t, &8), Some(8));
    assert_eq!(AssociatedSet::take(&mut t, &8), None);
    assert_eq!(AssociatedSet::replace(&mut t, 9), None);
    assert_eq!(AssociatedSet::replace(&mut t, 9), Some(9));
    assert!(AssociatedSet::remove(&mut t, &9));
    assert!(!AssociatedSet::remove(&mut t, &9));
}

#[test]
fn vec_set_keeps_insertion_order() {
    let mut s = VecSet::new();
    assert!(AssociatedSet::insert(&mut s, 3));
    assert!(AssociatedSet::insert(&mut s, 1));
    assert!(AssociatedSet::insert(&mut s, 2));
    assert!(!AssociatedSet::insert(&mut s, 3));
    assert_eq!(*Iterable::nth(&s, 0), 3);
    let drained = DrainFull::drain(&mut s);
    assert_eq!(drained, vec![3, 1, 2]);
    assert!(ExactSized::is_empty(&s));
}

#[test]
fn vec_set_capacity_and_reserve() {
    let mut s = VecSet::with_capacity(4);
    assert_eq!(CapacityAware::capacity(&s), 4);
    AssociatedSet::insert(&mut s, 1);
    CapacityReserve::reserve(&mut s, 10);
    assert_eq!(CapacityAware::capacity(&s), 11);
    assert!(CapacityReserve::try_reserve(&mut s, usize::MAX).is_err());
    assert!(CapacityReserve::try_reserve(&mut s, 1).is_ok());
    CapacityShrink::shrink_to(&mut s, 2);
    assert_eq!(CapacityAware::capacity(&s), 2);
    CapacityShrink::shrink_to_fit(&mut s);
    assert_eq!(CapacityAware::capacity(&s), 1);
}

#[test]
fn ord_map_keeps_keys_sorted() {
    let mut m: OrdMap<&str> = OrdMap::new();
    assert_eq!(AssociatedMap::insert(&mut m, 30, "c"), None);
    assert_eq!(AssociatedMap::insert(&mut m, 10, "a"), None);
    assert_eq!(AssociatedMap::insert(&mut m, 20, "b"), None);
    assert_eq!(AssociatedMap::insert(&mut m, 10, "a2"), Some("a"));
    assert_eq!(AssociatedMapIter::keys(&m), vec![10, 20, 30]);
    assert_eq!(AssociatedMap::get(&m, &20), Some(&"b"));
    assert!(AssociatedContains::contains_key(&m, &30));
    assert!(!AssociatedContains::contains_key(&m, &40));
    assert_eq!(AssociatedMap::get_key_value(&m, &10), Some(&(10, "a2")));
    assert_eq!(AssociatedMap::remove_entry(&mut m, &20), Some((20, "b")));
    assert_eq!(AssociatedMap::remove(&mut m, &20), None);
    assert_eq!(ExactSized::len(&m), 2);
}

#[test]
fn ord_map_ends_and_split() {
    let mut m: OrdMap<u64> = OrdMap::new();
    for (k, v) in [(4u64, 40u64), (1, 10), (3, 30), (2, 20)] {
        AssociatedMap::insert(&mut m, k, v);
    }
    assert_eq!(AssociatedMapOrd::first_key_value(&m), Some(&(1, 10)));
    assert_eq!(AssociatedMapOrd::last_key_value(&m), Some(&(4, 40)));
    assert_eq!(AssociatedMapOrd::pop_first(&mut m), Some((1, 10)));
    assert_eq!(AssociatedMapOrd::pop_last(&mut m), Some((4, 40)));
    let high = AssociatedMapOrd::split_off(&mut m, &3);
    assert_eq!(AssociatedMapIter::keys(&m), vec![2]);
    assert_eq!(AssociatedMapIter::keys(&high), vec![3]);
}

#[test]
fn ord_map_append_prefers_other() {
    let mut a: OrdMap<u64> = OrdMap::new();
    AssociatedMap::insert(&mut a, 1, 100);
    AssociatedMap::insert(&mut a, 2, 200);
    let mut b: OrdMap<u64> = OrdMap::new();
    AssociatedMap::insert(&mut b, 2, 999);
    AssociatedMap::insert(&mut b, 3, 300);
    AssociatedMapOrd::append(&mut a, &mut b);
    assert!(ExactSized::is_empty(&b));
    assert_eq!(AssociatedMap::get(&a, &1), Some(&100));
    assert_eq!(AssociatedMap::get(&a, &2), Some(&999));
    assert_eq!(AssociatedMap::get(&a, &3), Some(&300));
}

#[test]
fn ord_map_range_and_values() {
    let mut m: OrdMap<u64> = OrdMap::new();
    for (k, v) in [(1u64, 10u64), (2, 20), (3, 30), (5, 50)] {
        AssociatedMap::insert(&mut m, k, v);
    }
    let mid = AssociatedRange::range_between(&m, &2, &5);
    assert_eq!(mid, &[(2, 20), (3, 30)]);
    assert_eq!(AssociatedMapIter::values(&m), vec![10, 20, 30, 50]);
    assert_eq!(*AssociatedIterable::entry_at(&m, 0), (1, 10));
    let mut m2 = m;
    AssociatedIterableMut::set_value_at(&mut m2, 0, 11);
    assert_eq!(AssociatedMap::get(&m2, &1), Some(&11));
}

#[test]
fn ord_map_try_insert_reports_occupied_key() {
    let mut m: OrdMap<u64> = OrdMap::new();
    assert!(AssociatedMapIter::try_insert(&mut m, 7, 70).is_ok());
    assert_eq!(AssociatedMapIter::try_insert(&mut m, 7, 71), Err((7, 71)));
    assert_eq!(AssociatedMap::get(&m, &7), Some(&70));
}

#[test]
fn vec_map_keeps_insertion_order() {
    let mut m: VecMap<u64> = VecMap::new();
    AssociatedMap::insert(&mut m, 30, 3);
    AssociatedMap::insert(&mut m, 10, 1);
    AssociatedMap::insert(&mut m, 20, 2);
    assert_eq!(AssociatedMapIter::keys(&m), vec![30, 10, 20]);
    assert_eq!(AssociatedMap::insert(&mut m, 10, 9), Some(1));
    assert_eq!(AssociatedMapIter::keys(&m), vec![30, 10, 20]);
    assert_eq!(AssociatedMapIter::try_insert(&mut m, 20, 5), Err((20, 5)));
    let drained = AssociatedDrainFull::drain(&mut m);
    assert_eq!(drained, vec![(30, 3), (10, 9), (20, 2)]);
    assert!(ExactSized::is_empty(&m));
}

#[test]
fn capacity_and_allocator_laws_hold_at_runtime() {
    assert_eq!(capacity_round_trip::<VecSet>(7), (0, 7));
    assert_eq!(capacity_round_trip::<VecMap<u64>>(9), (0, 9));
    let (n, _alloc) = allocator_round_trip::<Vec<u64>>(GlobalAllocator);
    assert_eq!(n, 0);
    let (n, k, _alloc) = allocator_capacity_round_trip::<VecSet>(5, GlobalAllocator);
    assert_eq!(n, 0);
    assert_eq!(k, 5);
}

#[test]
fn sets_deduplicate_when_extended() {
    let mut s = OrdSet::new();
    s.extend_from_vec(vec![2, 1, 2, 3, 1]);
    assert_eq!(s.into_elements(), vec![1, 2, 3]);
    let mut v = VecSet::new();
    v.extend_from_vec(vec![2, 1, 2, 3, 1]);
    assert_eq!(v.into_elements(), vec![2, 1, 3]);
}

#[test]
fn set_and_map_drain_filters() {
    let mut s = OrdSet::new();
    for x in [1u64, 2, 3, 4, 5] {
        AssociatedSet::insert(&mut s, x);
    }
    let big = AssociatedDrainFilterSet::drain_filter(&mut s, |x: &u64| *x > 3);
    assert_eq!(big, vec![4, 5]);
    assert_eq!(s.into_elements(), vec![1, 2, 3]);

    let mut v = VecSet::new();
    for x in [5u64, 1, 4, 2] {
        AssociatedSet::insert(&mut v, x);
    }
    let small = AssociatedDrainFilterSet::drain_filter(&mut v, |x: &u64| *x < 3);
    assert_eq!(small, vec![1, 2]);
    assert_eq!(v.into_elements(), vec![5, 4]);

    let mut m: OrdMap<u64> = OrdMap::new();
    for (k, val) in [(2u64, 20u64), (1, 10), (3, 30)] {
        AssociatedMap::insert(&mut m, k, val);
    }
    let odd_keys = AssociatedDrainFilter::drain_filter(&mut m, |p: &(u64, u64)| p.0 % 2 == 1);
    assert_eq!(odd_keys, vec![(1, 10), (3, 30)]);
    assert_eq!(AssociatedMapIter::keys(&m), vec![2]);

    let mut w: VecMap<u64> = VecMap::new();
    for (k, val) in [(9u64, 90u64), (8, 80), (7, 70)] {
        AssociatedMap::insert(&mut w, k, val);
    }
    let low = AssociatedDrainFilter::drain_filter(&mut w, |p: &(u64, u64)| p.1 < 85);
    assert_eq!(low, vec![(8, 80), (7, 70)]);
    assert_eq!(AssociatedMapIter::keys(&w), vec![9]);
}

#[test]
fn reserve_exact_behaves_like_reserve_here() {
    let mut s = VecSet::new();
    AssociatedSet::insert(&mut s, 1);
    CapacityReserveExact::reserve_exact(&mut s, 3);
    assert_eq!(CapacityAware::capacity(&s), 4);
    assert!(CapacityReserveExact::try_reserve_exact(&mut s, usize::MAX).is_err());
    let mut m: VecMap<u64> = VecMap::new();
    assert!(CapacityReserveExact::try_reserve_exact(&mut m, 6).is_ok());
    assert_eq!(CapacityAware::capacity(&m), 6);
}

#[test]
fn trait_calls_match_native_calls() {
    let (a, b) = seq_push_matches_native(vec![1u64, 2], vec![1u64, 2], 3, 3);
    assert_eq!(a, b);
    let (pa, pb, a, b) = seq_pop_matches_native(a, b);
    assert_eq!(pa, pb);
    assert_eq!(a, b);
    let (a, b) = random_insert_matches_native(a, b, 1, 9, 9);
    assert_eq!(a, b);
    let mut d1: VecDeque<u64> = VecDeque::new();
    d1.push_back(5);
    let d2 = d1.clone();
    let (d1, d2) = deque_push_front_matches_native(d1, d2, 4, 4);
    assert_eq!(d1, d2);
    let (fa, fb, d1, d2) = deque_pop_front_matches_native(d1, d2);
    assert_eq!(fa, fb);
    assert_eq!(d1, d2);
    let (la, lb) = len_matches_native(&vec![1u64, 2, 3]);
    assert_eq!(la, lb);
}
