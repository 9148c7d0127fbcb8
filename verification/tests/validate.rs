use std::collections::VecDeque;
use std_collection_traits::bag::Bag;
use std_collection_traits::elem::{ExtendOwned, IntoIteratorOwned, Owned};
use std_collection_traits::exact_size::ExactSized;
use std_collection_traits::iter::{AssociatedIterable, Iterable};
use std_collection_traits::list::List;
use std_collection_traits::misc::{EmptyConstructible, Erasable};
use std_collection_traits::ord_map::OrdMap;
use std_collection_traits::ord_set::OrdSet;
use std_collection_traits::vec_map::VecMap;
use std_collection_traits::vec_set::VecSet;
use std_collection_traits::{
    AllocatorAwareCollection, AssociatedCapacityAwareCollection, AssociatedCollection,
    CapacityAwareCollection, Collection, ContiguousCollection, DoubleEndedCollection,
    MapContainer, OrderedMap, OrderedSet, RandomAccessCollection, SequentialCollection,
    SetContainer,
};

fn accept_collection<C: Collection>(c: C) {
    let n = c.len();
    let mut i: usize = 0;
    while i < n {
        let _ = c.nth(i);
        i += 1;
    }
    let _ = c.is_empty();
}

fn accept_associated_collection<C: AssociatedCollection>(c: C) {
    let n = c.len();
    let mut i: usize = 0;
    while i < n {
        let _ = c.entry_at(i);
        i += 1;
    }
    let _ = c.is_empty();
}

#[test]
fn test_collection() {
    accept_collection(vec![1u64, 2, 3]);
    let mut d: VecDeque<u64> = VecDeque::new();
    d.push_back(1);
    accept_collection(d);
    accept_collection(List::<u64>::new());
    accept_collection(Bag::<u64>::new());
    accept_collection(OrdSet::new());
    accept_collection(VecSet::new());
    accept_associated_collection(OrdMap::<u64>::new());
    accept_associated_collection(VecMap::<u64>::new());
}

fn accept_owned_collection<U: Collection + Owned>()
where
    U::ElemType: Default,
{
    let mut c = U::new();
    let mut items: Vec<U::ElemType> = Vec::new();
    for _ in 0..3 {
        items.push(Default::default());
    }
    c.extend_from_vec(items);
    c.clear();
    let mut items: Vec<U::ElemType> = Vec::new();
    for _ in 0..3 {
        items.push(Default::default());
    }
    c.extend_from_vec(items);
    let _ = c.into_elements();
}

fn accept_assoc_owned_collection<U: AssociatedCollection + Owned>()
where
    U::KeyType: Default,
    U::ValueType: Default,
{
    let mut c = U::new();
    let mut items: Vec<(U::KeyType, U::ValueType)> = Vec::new();
    for _ in 0..3 {
        items.push((Default::default(), Default::default()));
    }
    c.extend_from_vec(items);
    c.clear();
    let mut items: Vec<(U::KeyType, U::ValueType)> = Vec::new();
    for _ in 0..3 {
        items.push((Default::default(), Default::default()));
    }
    c.extend_from_vec(items);
    let _ = c.into_elements();
}

#[test]
fn test_owned_collection() {
    accept_owned_collection::<Vec<u64>>();
    accept_owned_collection::<VecDeque<u64>>();
    accept_owned_collection::<List<u64>>();
    accept_owned_collection::<OrdSet>();
    accept_owned_collection::<VecSet>();
    accept_owned_collection::<Bag<u64>>();
    accept_assoc_owned_collection::<OrdMap<i64>>();
    accept_assoc_owned_collection::<VecMap<i64>>();
}

fn contiguous<C: ContiguousCollection>() {}

fn seq<C: SequentialCollection>() {}

fn own_seq<C: SequentialCollection + Owned>() {}

fn double<C: DoubleEndedCollection>() {}

fn own_double<C: DoubleEndedCollection + Owned>() {}

fn random<C: RandomAccessCollection>() {}

fn own_random<C: RandomAccessCollection + Owned>() {}

#[test]
fn test_sequential() {
    contiguous::<Vec<u64>>();

    seq::<Vec<u64>>();
    seq::<VecDeque<u64>>();
    seq::<List<u64>>();

    own_seq::<Vec<u64>>();
    own_seq::<VecDeque<u64>>();
    own_seq::<List<u64>>();

    double::<VecDeque<u64>>();
    double::<List<u64>>();

    own_double::<VecDeque<u64>>();
    own_double::<List<u64>>();

    random::<Vec<u64>>();
    random::<VecDeque<u64>>();

    own_random::<Vec<u64>>();
    own_random::<VecDeque<u64>>();
}

fn set<S, C: SetContainer<S>>() {}

fn order_set<S, C: OrderedSet<S>>() {}

fn map<S, C: MapContainer<S>>() {}

fn order_map<S, C: OrderedMap<S>>() {}

#[test]
fn test_set_map() {
    set::<(), OrdSet>();
    set::<(), VecSet>();

    order_set::<(), OrdSet>();

    map::<(), OrdMap<i64>>();
    map::<(), VecMap<i64>>();

    order_map::<(), OrdMap<i64>>();
}

fn allocator<C: AllocatorAwareCollection>() {}

#[test]
fn test_allocator() {
    allocator::<Vec<u64>>();
    allocator::<VecSet>();
    allocator::<VecMap<i64>>();
}

fn cap<C: CapacityAwareCollection>() {}

fn assoc_cap<C: AssociatedCapacityAwareCollection>() {}

#[test]
fn test_capacity() {
    cap::<VecSet>();
    assoc_cap::<VecMap<i64>>();
}
