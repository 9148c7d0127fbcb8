//! `VecMap<V>`: a map from machine words to values that keeps its
//! entries in insertion order, standing where a hash map would in the
//! capability taxonomy.  It tracks the capacity it reports itself.

use vstd::prelude::*;

verus! {

use crate::allocator::{
    AllocatorAware, AllocatorCapacityConstructible, AllocatorConstructible, GlobalAllocator,
};
use crate::associated::{AssociatedMap, AssociatedMapIter};
use crate::capacity::{
    CapacityAware, CapacityConstructible, CapacityReserve, CapacityReserveExact, CapacityShrink,
    ReserveOverflow,
};
use crate::elem::{
    extended_with, AssociatedCollectionTrait, CollectionTrait, ExtendOwned, IntoIteratorOwned,
    Mutable, Owned,
};
use crate::exact_size::ExactSized;
use crate::iter::{AssociatedDrainFilter, AssociatedDrainFull, AssociatedIterable, AssociatedIterableMut, Iterable};
use crate::misc::{AssociatedContains, EmptyConstructible, Erasable};
use crate::model::{
    entries_of, key_seq, lemma_entries_append, lemma_entries_of_dom, lemma_entries_remove_absent,
    lemma_entries_remove_at, lemma_entries_replace,
};
use crate::support::find_key;
use crate::{HasAssociatedExactSizeIterator, HasExactSizeIterator};
use vstd::slice::slice_index_get;

/// A map from machine words to values, kept in insertion order.  The
/// capacity it reports is the larger of the capacity last asked for and
/// the number of entries held.
pub struct VecMap<V> {
    items: Vec<(u64, V)>,
    cap: usize,
}

impl<V> VecMap<V> {
    /// No two entries share a key.
    #[verifier::type_invariant]
    spec fn keys_distinct(&self) -> bool {
        key_seq(self.items@).no_duplicates()
    }
}

impl<V> CollectionTrait for VecMap<V> {
    type ElemType = (u64, V);

    closed spec fn contents(&self) -> Seq<(u64, V)> {
        self.items@
    }
}

impl<V> AssociatedCollectionTrait for VecMap<V> {
    type KeyType = u64;

    type ValueType = V;
}

impl<V> Mutable for VecMap<V> {

}

impl<V> Owned for VecMap<V> {

}

impl<V> HasExactSizeIterator for VecMap<V> {

}

impl<V> HasAssociatedExactSizeIterator for VecMap<V> {

}

impl<V> ExactSized for VecMap<V> {
    fn is_empty(&self) -> (r: bool) {
        self.items.len() == 0
    }

    fn len(&self) -> (r: usize) {
        self.items.len()
    }
}

impl<V> EmptyConstructible for VecMap<V> {
    fn new() -> (r: Self) {
        VecMap { items: Vec::new(), cap: 0 }
    }
}

impl<V> Erasable for VecMap<V> {
    fn clear(&mut self) {
        proof {
            use_type_invariant(&*self);
        }
        let mut v: Vec<(u64, V)> = Vec::new();
        core::mem::swap(&mut self.items, &mut v);
    }
}

impl<V> Iterable for VecMap<V> {
    fn nth(&self, i: usize) -> (r: &(u64, V)) {
        slice_index_get(self.items.as_slice(), i)
    }
}

impl<V> AssociatedIterable for VecMap<V> {
    fn entry_at(&self, i: usize) -> (r: &(u64, V)) {
        slice_index_get(self.items.as_slice(), i)
    }
}

impl<V> AssociatedIterableMut for VecMap<V> {
    fn set_value_at(&mut self, i: usize, v2: V) {
        proof {
            use_type_invariant(&*self);
        }
        let cap = self.cap;
        let mut w: Vec<(u64, V)> = Vec::new();
        core::mem::swap(&mut self.items, &mut w);
        let ghost s = w@;
        let k = slice_index_get(w.as_slice(), i).0;
        let _ = w.remove(i);
        w.insert(i, (k, v2));
        proof {
            assert(w@ =~= s.update(i as int, (s[i as int].0, v2)));
            assert(key_seq(w@) =~= key_seq(s)) by {
                assert(forall|j: int| 0 <= j < w@.len() ==> key_seq(w@)[j] == (#[trigger] w@[j]).0);
                assert(forall|j: int| 0 <= j < s.len() ==> key_seq(s)[j] == (#[trigger] s[j]).0);
            }
        }
        self.items = w;
        self.cap = cap;
    }
}

impl<V> AssociatedContains for VecMap<V> {
    fn contains_key(&self, k: &u64) -> (r: bool) {
        proof {
            use_type_invariant(&*self);
            lemma_entries_of_dom(self.items@);
        }
        match find_key(&self.items, *k) {
            Some(i) => {
                proof {
                    assert(key_seq(self.items@)[i as int] == self.items@[i as int].0);
                }
                true
            },
            None => false,
        }
    }
}

impl<V> AssociatedMap for VecMap<V> {
    open spec fn one_inserted(s: Seq<(u64, V)>, k: u64, v: V) -> Seq<(u64, V)> {
        if key_seq(s).contains(k) {
            crate::model::pairs_updated(s, k, v)
        } else {
            s.push((k, v))
        }
    }

    open spec fn one_removed(s: Seq<(u64, V)>, k: u64) -> Seq<(u64, V)> {
        crate::model::pairs_without_key(s, k)
    }

    fn distinct_keys(&self) {
        proof {
            use_type_invariant(&*self);
        }
    }

    fn insert(&mut self, key: u64, value: V) -> (r: Option<V>) {
        proof {
            use_type_invariant(&*self);
            lemma_entries_of_dom(self.items@);
        }
        let cap = self.cap;
        let mut v: Vec<(u64, V)> = Vec::new();
        core::mem::swap(&mut self.items, &mut v);
        let ghost s = v@;
        let r = match find_key(&v, key) {
            Some(i) => {
                let p = v.remove(i);
                v.insert(i, (key, value));
                proof {
                    assert(v@ =~= s.update(i as int, (key, value)));
                    lemma_entries_replace(s, i as int, key, value);
                }
                Some(p.1)
            },
            None => {
                v.push((key, value));
                proof {
                    assert forall|j: int| 0 <= j < s.len() implies (#[trigger] s[j]).0 != key by {
                        assert(key_seq(s)[j] == s[j].0);
                    }
                    lemma_entries_append(s, key, value);
                }
                None
            },
        };
        self.items = v;
        self.cap = cap;
        r
    }

    fn remove(&mut self, key: &u64) -> (r: Option<V>) {
        let e = <Self as AssociatedMap>::remove_entry(self, key);
        match e {
            Some(p) => Some(p.1),
            None => None,
        }
    }

    fn remove_entry(&mut self, key: &u64) -> (r: Option<(u64, V)>) {
        proof {
            use_type_invariant(&*self);
            lemma_entries_of_dom(self.items@);
        }
        let cap = self.cap;
        let mut v: Vec<(u64, V)> = Vec::new();
        core::mem::swap(&mut self.items, &mut v);
        let ghost s = v@;
        let r = match find_key(&v, *key) {
            Some(i) => {
                let p = v.remove(i);
                proof {
                    lemma_entries_remove_at(s, i as int, *key);
                }
                Some(p)
            },
            None => {
                proof {
                    assert forall|j: int| 0 <= j < s.len() implies (#[trigger] s[j]).0 != *key by {
                        assert(key_seq(s)[j] == s[j].0);
                    }
                    lemma_entries_remove_absent(s, *key);
                }
                None
            },
        };
        self.items = v;
        self.cap = cap;
        r
    }

    fn get(&self, key: &u64) -> (r: Option<&V>) {
        proof {
            use_type_invariant(&*self);
            lemma_entries_of_dom(self.items@);
        }
        match find_key(&self.items, *key) {
            Some(i) => {
                let p = slice_index_get(self.items.as_slice(), i);
                proof {
                    crate::model::lemma_entries_of_index(self.items@, i as int);
                }
                Some(&p.1)
            },
            None => {
                proof {
                    assert forall|j: int|
                        0 <= j < key_seq(self.items@).len() implies key_seq(self.items@)[j]
                        != *key by {
                        assert(key_seq(self.items@)[j] == self.items@[j].0);
                    }
                }
                None
            },
        }
    }

    fn get_key_value(&self, key: &u64) -> (r: Option<&(u64, V)>) {
        proof {
            use_type_invariant(&*self);
            lemma_entries_of_dom(self.items@);
        }
        match find_key(&self.items, *key) {
            Some(i) => {
                let p = slice_index_get(self.items.as_slice(), i);
                proof {
                    crate::model::lemma_entries_of_index(self.items@, i as int);
                }
                Some(p)
            },
            None => None,
        }
    }
}

impl<V> AssociatedMapIter<()> for VecMap<V> {
    type TryInsertError = (u64, V);

    open spec fn occupied_error(key: u64, value: V) -> (u64, V) {
        (key, value)
    }

    fn try_insert(&mut self, key: u64, value: V) -> (r: Result<(), (u64, V)>) {
        proof {
            use_type_invariant(&*self);
            lemma_entries_of_dom(self.items@);
        }
        match find_key(&self.items, key) {
            Some(i) => {
                proof {
                    assert(key_seq(self.items@)[i as int] == self.items@[i as int].0);
                }
                Err((key, value))
            },
            None => {
                proof {
                    assert forall|j: int|
                        0 <= j < key_seq(self.items@).len() implies key_seq(self.items@)[j]
                        != key by {
                        assert(key_seq(self.items@)[j] == self.items@[j].0);
                    }
                }
                let _ = <Self as AssociatedMap>::insert(self, key, value);
                Ok(())
            },
        }
    }

    #[verifier::loop_isolation(false)]
    fn keys(&self) -> (r: Vec<u64>) {
        let mut out: Vec<u64> = Vec::new();
        let mut i: usize = 0;
        while i < self.items.len()
            invariant
                i <= self.items@.len(),
                out@.len() == i,
                forall|j: int| 0 <= j < i ==> out@[j] == (#[trigger] self.items@[j]).0,
            decreases self.items@.len() - i,
        {
            let p = slice_index_get(self.items.as_slice(), i);
            out.push(p.0);
            i += 1;
        }
        proof {
            assert(forall|j: int|
                0 <= j < self.items@.len() ==> key_seq(self.items@)[j] == (
                #[trigger] self.items@[j]).0);
            assert(out@ =~= key_seq(self.contents()));
        }
        out
    }

    #[verifier::loop_isolation(false)]
    fn values(&self) -> (r: Vec<V>) where V: Copy {
        let mut out: Vec<V> = Vec::new();
        let mut i: usize = 0;
        while i < self.items.len()
            invariant
                i <= self.items@.len(),
                out@.len() == i,
                forall|j: int| 0 <= j < i ==> out@[j] == (#[trigger] self.items@[j]).1,
            decreases self.items@.len() - i,
        {
            let p = slice_index_get(self.items.as_slice(), i);
            out.push(p.1);
            i += 1;
        }
        out
    }
}

impl<V> ExtendOwned for VecMap<V> {
    open spec fn one_extended(s: Seq<(u64, V)>, x: (u64, V)) -> Seq<(u64, V)> {
        <VecMap<V> as AssociatedMap>::one_inserted(s, x.0, x.1)
    }

    fn extend_one(&mut self, x: (u64, V)) {
        let (k, v) = x;
        let _ = <Self as AssociatedMap>::insert(self, k, v);
    }

    #[verifier::loop_isolation(false)]
    fn extend_from_vec(&mut self, items: Vec<(u64, V)>) {
        let mut items = items;
        let ghost step = |s: Seq<(u64, V)>, x: (u64, V)| Self::one_extended(s, x);
        let ghost goal = extended_with(self.contents(), items@, step);
        while items.len() > 0
            invariant
                extended_with(self.contents(), items@, step) == goal,
            decreases items@.len(),
        {
            let ghost prev = self.contents();
            let ghost before = items@;
            let x = items.remove(0);
            proof {
                assert(before.drop_first() =~= before.remove(0));
            }
            self.extend_one(x);
            proof {
                assert(extended_with(prev, before, step) == extended_with(
                    step(prev, before[0]),
                    before.drop_first(),
                    step,
                ));
                assert(step(prev, before[0]) == Self::one_extended(prev, x));
            }
        }
    }
}

impl<V> IntoIteratorOwned for VecMap<V> {
    fn into_elements(self) -> (r: Vec<(u64, V)>) {
        self.items
    }
}

impl<V> AssociatedDrainFull for VecMap<V> {
    fn drain(&mut self) -> (r: Vec<(u64, V)>) {
        proof {
            use_type_invariant(&*self);
        }
        let mut out: Vec<(u64, V)> = Vec::new();
        core::mem::swap(&mut self.items, &mut out);
        out
    }
}

impl<V> AssociatedDrainFilter for VecMap<V> {
    fn drain_filter<P: Fn(&(u64, V)) -> bool>(&mut self, pred: P) -> (r: Vec<(u64, V)>) {
        proof {
            use_type_invariant(&*self);
        }
        let cap = self.cap;
        let mut v: Vec<(u64, V)> = Vec::new();
        core::mem::swap(&mut self.items, &mut v);
        let ghost s = v@;
        let out = crate::vec_impls::drain_filter_vec(&mut v, pred);
        proof {
            crate::model::lemma_filter_distinct_keys(
                s,
                |x: (u64, V)| !crate::model::accepted(&pred, x),
            );
        }
        self.items = v;
        self.cap = cap;
        out
    }
}

impl<V> CapacityAware for VecMap<V> {
    closed spec fn spec_capacity(&self) -> nat {
        if self.cap >= self.items@.len() {
            self.cap as nat
        } else {
            self.items@.len()
        }
    }

    fn capacity(&self) -> (r: usize) {
        if self.cap >= self.items.len() {
            self.cap
        } else {
            self.items.len()
        }
    }
}

impl<V> CapacityConstructible for VecMap<V> {
    fn with_capacity(capacity: usize) -> (r: Self) {
        VecMap { items: Vec::new(), cap: capacity }
    }
}

impl<V> CapacityShrink for VecMap<V> {
    fn shrink_to_fit(&mut self) {
        proof {
            use_type_invariant(&*self);
        }
        let n = self.items.len();
        self.cap = n;
    }

    fn shrink_to(&mut self, min_capacity: usize) {
        proof {
            use_type_invariant(&*self);
        }
        let effective = self.capacity();
        if effective > min_capacity {
            if self.items.len() >= min_capacity {
                let n = self.items.len();
                self.cap = n;
            } else {
                self.cap = min_capacity;
            }
        }
    }
}

impl<V> AllocatorAware for VecMap<V> {
    type Allocator = GlobalAllocator;

    open spec fn spec_allocator(&self) -> GlobalAllocator {
        GlobalAllocator
    }

    fn allocator(&self) -> (r: GlobalAllocator) {
        GlobalAllocator
    }
}

impl<V> AllocatorConstructible for VecMap<V> {
    fn new_in(alloc: GlobalAllocator) -> (r: Self) {
        let _ = alloc;
        VecMap { items: Vec::new(), cap: 0 }
    }
}

impl<V> AllocatorCapacityConstructible for VecMap<V> {
    fn with_capacity_in(capacity: usize, alloc: GlobalAllocator) -> (r: Self) {
        let _ = alloc;
        VecMap { items: Vec::new(), cap: capacity }
    }
}

impl<V> CapacityReserve for VecMap<V> {
    fn reserve(&mut self, additional: usize) {
        proof {
            use_type_invariant(&*self);
        }
        let effective = self.capacity();
        let want = self.items.len() + additional;
        if effective < want {
            self.cap = want;
        }
    }

    fn try_reserve(&mut self, additional: usize) -> (r: Result<(), ReserveOverflow>) {
        proof {
            use_type_invariant(&*self);
        }
        if additional <= usize::MAX - self.items.len() {
            let effective = self.capacity();
            let want = self.items.len() + additional;
            if effective < want {
                self.cap = want;
            }
            Ok(())
        } else {
            Err(ReserveOverflow)
        }
    }
}

impl<V> CapacityReserveExact for VecMap<V> {
    fn reserve_exact(&mut self, additional: usize) {
        proof {
            use_type_invariant(&*self);
        }
        let effective = self.capacity();
        let want = self.items.len() + additional;
        if effective < want {
            self.cap = want;
        }
    }

    fn try_reserve_exact(&mut self, additional: usize) -> (r: Result<(), ReserveOverflow>) {
        proof {
            use_type_invariant(&*self);
        }
        if additional <= usize::MAX - self.items.len() {
            let effective = self.capacity();
            let want = self.items.len() + additional;
            if effective < want {
                self.cap = want;
            }
            Ok(())
        } else {
            Err(ReserveOverflow)
        }
    }
}

} // verus!
