//! `VecSet`: a set of machine words kept in insertion order, standing
//! where a hash set would in the capability taxonomy.  It tracks the
//! capacity it reports itself.

use vstd::prelude::*;

verus! {

use crate::allocator::{
    AllocatorAware, AllocatorCapacityConstructible, AllocatorConstructible, GlobalAllocator,
};
use crate::associated::{AssociatedSet, AssociatedSetOperation};
use crate::capacity::{
    CapacityAware, CapacityConstructible, CapacityReserve, CapacityReserveExact, CapacityShrink,
    ReserveOverflow,
};
use crate::elem::{extended_with, CollectionTrait, ExtendOwned, IntoIteratorOwned, Mutable, Owned};
use crate::exact_size::ExactSized;
use crate::iter::{AssociatedDrainFilterSet, DrainFull, Iterable};
use crate::misc::{Contains, EmptyConstructible, Erasable};
use crate::model::{accepted, lemma_absent_remove, lemma_unique_remove};
use crate::support::{all_in, diff_vec, inter_vec, none_in, word_contains, word_index};
use crate::HasExactSizeIterator;
use vstd::slice::slice_index_get;

/// A set of machine words, kept in insertion order.  The capacity it
/// reports is the larger of the capacity last asked for and the number
/// of elements held.
pub struct VecSet {
    items: Vec<u64>,
    cap: usize,
}

impl VecSet {
    /// No element occurs twice.
    #[verifier::type_invariant]
    spec fn elements_distinct(&self) -> bool {
        self.items@.no_duplicates()
    }
}

impl CollectionTrait for VecSet {
    type ElemType = u64;

    closed spec fn contents(&self) -> Seq<u64> {
        self.items@
    }
}

impl Mutable for VecSet {

}

impl Owned for VecSet {

}

impl HasExactSizeIterator for VecSet {

}

impl ExactSized for VecSet {
    fn is_empty(&self) -> (r: bool) {
        self.items.len() == 0
    }

    fn len(&self) -> (r: usize) {
        self.items.len()
    }
}

impl EmptyConstructible for VecSet {
    fn new() -> (r: Self) {
        VecSet { items: Vec::new(), cap: 0 }
    }
}

impl Erasable for VecSet {
    fn clear(&mut self) {
        proof {
            use_type_invariant(&*self);
        }
        let mut v: Vec<u64> = Vec::new();
        core::mem::swap(&mut self.items, &mut v);
    }
}

impl Iterable for VecSet {
    fn nth(&self, i: usize) -> (r: &u64) {
        slice_index_get(self.items.as_slice(), i)
    }
}

impl Contains for VecSet {
    fn contains(&self, x: &u64) -> (r: bool) {
        word_contains(&self.items, *x)
    }
}

impl ExtendOwned for VecSet {
    open spec fn one_extended(s: Seq<u64>, x: u64) -> Seq<u64> {
        if s.contains(x) {
            s
        } else {
            <VecSet as AssociatedSet>::one_added(s, x)
        }
    }

    fn extend_one(&mut self, x: u64) {
        let _ = <Self as AssociatedSet>::insert(self, x);
    }

    #[verifier::loop_isolation(false)]
    fn extend_from_vec(&mut self, items: Vec<u64>) {
        let mut items = items;
        let ghost step = |s: Seq<u64>, x: u64| Self::one_extended(s, x);
        let ghost goal = extended_with(self.contents(), items@, step);
        while items.len() > 0
            invariant
                extended_with(self.contents(), items@, step) == goal,
            decreases items@.len(),
        {
            let ghost prev = self.contents();
            let ghost before = items@;
            let x = items.remove(0);
            proof {
                assert(before.drop_first() =~= before.remove(0));
            }
            self.extend_one(x);
            proof {
                assert(extended_with(prev, before, step) == extended_with(
                    step(prev, before[0]),
                    before.drop_first(),
                    step,
                ));
                assert(step(prev, before[0]) == Self::one_extended(prev, x));
            }
        }
    }
}

impl IntoIteratorOwned for VecSet {
    fn into_elements(self) -> (r: Vec<u64>) {
        self.items
    }
}

impl AssociatedSet for VecSet {
    open spec fn one_added(s: Seq<u64>, x: u64) -> Seq<u64> {
        s.push(x)
    }

    fn distinct_elements(&self) {
        proof {
            use_type_invariant(&*self);
        }
    }

    fn is_disjoint(&self, other: &Self) -> (r: bool) {
        let r = none_in(&self.items, &other.items);
        proof {
            if r {
                assert forall|x: u64|
                    !(#[trigger] self.contents().contains(x)
                        && other.contents().contains(x)) by {
                    assert(!(self.items@.contains(x) && other.items@.contains(x)));
                }
            } else {
                let w = choose|x: u64| #[trigger]
                    self.items@.contains(x) && other.items@.contains(x);
                assert(self.contents().contains(w) && other.contents().contains(w));
            }
        }
        r
    }

    fn is_subset(&self, other: &Self) -> (r: bool) {
        let r = all_in(&self.items, &other.items);
        proof {
            if r {
                assert forall|x: u64| #[trigger]
                    self.contents().contains(x) implies other.contents().contains(x) by {
                    assert(self.items@.contains(x));
                }
            } else {
                let w = choose|x: u64| #[trigger]
                    self.items@.contains(x) && !other.items@.contains(x);
                assert(self.contents().contains(w) && !other.contents().contains(w));
            }
        }
        r
    }

    fn is_superset(&self, other: &Self) -> (r: bool) {
        let r = all_in(&other.items, &self.items);
        proof {
            if r {
                assert forall|x: u64| #[trigger]
                    other.contents().contains(x) implies self.contents().contains(x) by {
                    assert(other.items@.contains(x));
                }
            } else {
                let w = choose|x: u64| #[trigger]
                    other.items@.contains(x) && !self.items@.contains(x);
                assert(other.contents().contains(w) && !self.contents().contains(w));
            }
        }
        r
    }

    fn take(&mut self, value: &u64) -> (r: Option<u64>) {
        proof {
            use_type_invariant(&*self);
        }
        let cap = self.cap;
        let mut v: Vec<u64> = Vec::new();
        core::mem::swap(&mut self.items, &mut v);
        let ghost s = v@;
        let r = match word_index(&v, *value) {
            Some(i) => {
                let y = v.remove(i);
                proof {
                    lemma_unique_remove(s, i as int, *value);
                    assert(s.contains(*value)) by {
                        assert(s[i as int] == *value);
                    }
                }
                Some(y)
            },
            None => {
                proof {
                    lemma_absent_remove(s, *value);
                }
                None
            },
        };
        self.items = v;
        self.cap = cap;
        r
    }

    fn insert(&mut self, value: u64) -> (r: bool) {
        proof {
            use_type_invariant(&*self);
        }
        let cap = self.cap;
        let mut v: Vec<u64> = Vec::new();
        core::mem::swap(&mut self.items, &mut v);
        let ghost s = v@;
        let r = if word_contains(&v, value) {
            proof {
                assert(s.to_set().insert(value) =~= s.to_set());
            }
            false
        } else {
            v.push(value);
            proof {
                assert(v@.no_duplicates()) by {
                    assert(forall|j: int| 0 <= j < s.len() ==> v@[j] == s[j]);
                    assert forall|j: int| 0 <= j < s.len() implies s[j] != value by {
                        assert(s.contains(s[j]));
                    }
                }
                assert(v@.to_set() =~= s.to_set().insert(value)) by {
                    assert forall|q: u64| v@.to_set().contains(q) implies s.to_set().insert(
                        value,
                    ).contains(q) by {
                        let j = choose|j: int| 0 <= j < v@.len() && v@[j] == q;
                        if j < s.len() {
                            assert(s[j] == q);
                        }
                    }
                    assert forall|q: u64|
                        s.to_set().insert(value).contains(q) implies v@.to_set().contains(q) by {
                        if q == value {
                            assert(v@[s.len() as int] == q);
                        } else {
                            let j = choose|j: int| 0 <= j < s.len() && s[j] == q;
                            assert(v@[j] == q);
                        }
                    }
                }
            }
            true
        };
        self.items = v;
        self.cap = cap;
        r
    }

    fn get(&self, value: &u64) -> (r: Option<&u64>) {
        match word_index(&self.items, *value) {
            Some(i) => {
                proof {
                    assert(self.items@.contains(*value)) by {
                        assert(self.items@[i as int] == *value);
                    }
                }
                Some(slice_index_get(self.items.as_slice(), i))
            },
            None => None,
        }
    }

    fn remove(&mut self, value: &u64) -> (r: bool) {
        let taken = <Self as AssociatedSet>::take(self, value);
        match taken {
            Some(_) => true,
            None => false,
        }
    }

    fn replace(&mut self, value: u64) -> (r: Option<u64>) {
        proof {
            use_type_invariant(&*self);
        }
        if word_contains(&self.items, value) {
            proof {
                assert(self.contents().to_set().insert(value) =~= self.contents().to_set());
            }
            Some(value)
        } else {
            let _ = <Self as AssociatedSet>::insert(self, value);
            None
        }
    }
}

impl AssociatedSetOperation<()> for VecSet {
    fn difference(&self, other: &Self) -> (r: Vec<u64>) {
        diff_vec(&self.items, &other.items)
    }

    fn intersection(&self, other: &Self) -> (r: Vec<u64>) {
        inter_vec(&self.items, &other.items)
    }

    fn symmetric_difference(&self, other: &Self) -> (r: Vec<u64>) {
        let mut out = diff_vec(&self.items, &other.items);
        let mut rest = diff_vec(&other.items, &self.items);
        out.append(&mut rest);
        out
    }

    fn union(&self, other: &Self) -> (r: Vec<u64>) {
        let mut out = vstd::slice::slice_to_vec(self.items.as_slice());
        let mut rest = diff_vec(&other.items, &self.items);
        out.append(&mut rest);
        out
    }
}

impl AssociatedDrainFilterSet for VecSet {
    fn drain_filter<P: Fn(&u64) -> bool>(&mut self, pred: P) -> (r: Vec<u64>) {
        proof {
            use_type_invariant(&*self);
        }
        let cap = self.cap;
        let mut v: Vec<u64> = Vec::new();
        core::mem::swap(&mut self.items, &mut v);
        let ghost s = v@;
        let out = crate::vec_impls::drain_filter_vec(&mut v, pred);
        proof {
            crate::model::lemma_filter_no_duplicates(s, |x: u64| !accepted(&pred, x));
        }
        self.items = v;
        self.cap = cap;
        out
    }
}

impl DrainFull for VecSet {
    fn drain(&mut self) -> (r: Vec<u64>) {
        proof {
            use_type_invariant(&*self);
        }
        let mut out: Vec<u64> = Vec::new();
        core::mem::swap(&mut self.items, &mut out);
        out
    }
}

impl CapacityAware for VecSet {
    closed spec fn spec_capacity(&self) -> nat {
        if self.cap >= self.items@.len() {
            self.cap as nat
        } else {
            self.items@.len()
        }
    }

    fn capacity(&self) -> (r: usize) {
        if self.cap >= self.items.len() {
            self.cap
        } else {
            self.items.len()
        }
    }
}

impl CapacityConstructible for VecSet {
    fn with_capacity(capacity: usize) -> (r: Self) {
        VecSet { items: Vec::new(), cap: capacity }
    }
}

impl CapacityShrink for VecSet {
    fn shrink_to_fit(&mut self) {
        proof {
            use_type_invariant(&*self);
        }
        let n = self.items.len();
        self.cap = n;
    }

    fn shrink_to(&mut self, min_capacity: usize) {
        proof {
            use_type_invariant(&*self);
        }
        let effective = self.capacity();
        if effective > min_capacity {
            if self.items.len() >= min_capacity {
                let n = self.items.len();
                self.cap = n;
            } else {
                self.cap = min_capacity;
            }
        }
    }
}

impl AllocatorAware for VecSet {
    type Allocator = GlobalAllocator;

    open spec fn spec_allocator(&self) -> GlobalAllocator {
        GlobalAllocator
    }

    fn allocator(&self) -> (r: GlobalAllocator) {
        GlobalAllocator
    }
}

impl AllocatorConstructible for VecSet {
    fn new_in(alloc: GlobalAllocator) -> (r: Self) {
        let _ = alloc;
        VecSet { items: Vec::new(), cap: 0 }
    }
}

impl AllocatorCapacityConstructible for VecSet {
    fn with_capacity_in(capacity: usize, alloc: GlobalAllocator) -> (r: Self) {
        let _ = alloc;
        VecSet { items: Vec::new(), cap: capacity }
    }
}

impl CapacityReserve for VecSet {
    fn reserve(&mut self, additional: usize) {
        proof {
            use_type_invariant(&*self);
        }
        let effective = self.capacity();
        let want = self.items.len() + additional;
        if effective < want {
            self.cap = want;
        }
    }

    fn try_reserve(&mut self, additional: usize) -> (r: Result<(), ReserveOverflow>) {
        proof {
            use_type_invariant(&*self);
        }
        if additional <= usize::MAX - self.items.len() {
            let effective = self.capacity();
            let want = self.items.len() + additional;
            if effective < want {
                self.cap = want;
            }
            Ok(())
        } else {
            Err(ReserveOverflow)
        }
    }
}

impl CapacityReserveExact for VecSet {
    fn reserve_exact(&mut self, additional: usize) {
        proof {
            use_type_invariant(&*self);
        }
        let effective = self.capacity();
        let want = self.items.len() + additional;
        if effective < want {
            self.cap = want;
        }
    }

    fn try_reserve_exact(&mut self, additional: usize) -> (r: Result<(), ReserveOverflow>) {
        proof {
            use_type_invariant(&*self);
        }
        if additional <= usize::MAX - self.items.len() {
            let effective = self.capacity();
            let want = self.items.len() + additional;
            if effective < want {
                self.cap = want;
            }
            Ok(())
        } else {
            Err(ReserveOverflow)
        }
    }
}

} // verus!
