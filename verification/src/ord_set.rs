//! `OrdSet`: a set of machine words kept strictly sorted, standing
//! where an ordered tree set would in the capability taxonomy.

use vstd::prelude::*;

verus! {

use crate::associated::{AssociatedSet, AssociatedSetOperation, AssociatedSetOrd};
use crate::elem::{extended_with, CollectionTrait, ExtendOwned, IntoIteratorOwned, Mutable, Owned};
use crate::exact_size::ExactSized;
use crate::iter::{AssociatedDrainFilterSet, Iterable};
use crate::misc::{Contains, EmptyConstructible, Erasable};
use crate::model::{
    accepted, elems_above, elems_below, lemma_absent_remove, lemma_elems_below_partition,
    lemma_elems_partition, lemma_sorted_strict_unique, lemma_unique_insert_at, lemma_unique_remove,
    sorted_strict,
};
use crate::support::{
    all_in, diff_vec, inter_vec, none_in, word_contains, word_index, word_lower_bound,
};
use crate::{HasDoubleEndedIterator, HasExactSizeIterator};
use vstd::pervasive::unreached;
use vstd::slice::slice_index_get;

/// A set of machine words, kept strictly sorted.
pub struct OrdSet {
    items: Vec<u64>,
}

impl OrdSet {
    /// The elements are strictly sorted.
    #[verifier::type_invariant]
    spec fn strictly_sorted(&self) -> bool {
        sorted_strict(self.items@)
    }
}

impl CollectionTrait for OrdSet {
    type ElemType = u64;

    closed spec fn contents(&self) -> Seq<u64> {
        self.items@
    }
}

impl Mutable for OrdSet {

}

impl Owned for OrdSet {

}

impl HasExactSizeIterator for OrdSet {

}

impl HasDoubleEndedIterator for OrdSet {

}

impl ExactSized for OrdSet {
    fn is_empty(&self) -> (r: bool) {
        self.items.len() == 0
    }

    fn len(&self) -> (r: usize) {
        self.items.len()
    }
}

impl EmptyConstructible for OrdSet {
    fn new() -> (r: Self) {
        OrdSet { items: Vec::new() }
    }
}

impl Erasable for OrdSet {
    fn clear(&mut self) {
        proof {
            use_type_invariant(&*self);
        }
        let mut v: Vec<u64> = Vec::new();
        core::mem::swap(&mut self.items, &mut v);
    }
}

impl Iterable for OrdSet {
    fn nth(&self, i: usize) -> (r: &u64) {
        slice_index_get(self.items.as_slice(), i)
    }
}

impl Contains for OrdSet {
    fn contains(&self, x: &u64) -> (r: bool) {
        word_contains(&self.items, *x)
    }
}

impl ExtendOwned for OrdSet {
    open spec fn one_extended(s: Seq<u64>, x: u64) -> Seq<u64> {
        if s.contains(x) {
            s
        } else {
            <OrdSet as AssociatedSet>::one_added(s, x)
        }
    }

    fn extend_one(&mut self, x: u64) {
        let _ = <Self as AssociatedSet>::insert(self, x);
    }

    #[verifier::loop_isolation(false)]
    fn extend_from_vec(&mut self, items: Vec<u64>) {
        let mut items = items;
        let ghost step = |s: Seq<u64>, x: u64| Self::one_extended(s, x);
        let ghost goal = extended_with(self.contents(), items@, step);
        while items.len() > 0
            invariant
                extended_with(self.contents(), items@, step) == goal,
            decreases items@.len(),
        {
            let ghost prev = self.contents();
            let ghost before = items@;
            let x = items.remove(0);
            proof {
                assert(before.drop_first() =~= before.remove(0));
            }
            self.extend_one(x);
            proof {
                assert(extended_with(prev, before, step) == extended_with(
                    step(prev, before[0]),
                    before.drop_first(),
                    step,
                ));
                assert(step(prev, before[0]) == Self::one_extended(prev, x));
            }
        }
    }
}

impl IntoIteratorOwned for OrdSet {
    fn into_elements(self) -> (r: Vec<u64>) {
        self.items
    }
}

impl AssociatedSet for OrdSet {
    open spec fn one_added(s: Seq<u64>, x: u64) -> Seq<u64> {
        elems_below(s, x).push(x) + elems_above(s, x)
    }

    fn distinct_elements(&self) {
        proof {
            use_type_invariant(&*self);
            lemma_sorted_strict_unique(self.items@);
        }
    }

    fn is_disjoint(&self, other: &Self) -> (r: bool) {
        let r = none_in(&self.items, &other.items);
        proof {
            if r {
                assert forall|x: u64|
                    !(#[trigger] self.contents().contains(x)
                        && other.contents().contains(x)) by {
                    assert(!(self.items@.contains(x) && other.items@.contains(x)));
                }
            } else {
                let w = choose|x: u64| #[trigger]
                    self.items@.contains(x) && other.items@.contains(x);
                assert(self.contents().contains(w) && other.contents().contains(w));
            }
        }
        r
    }

    fn is_subset(&self, other: &Self) -> (r: bool) {
        let r = all_in(&self.items, &other.items);
        proof {
            if r {
                assert forall|x: u64| #[trigger]
                    self.contents().contains(x) implies other.contents().contains(x) by {
                    assert(self.items@.contains(x));
                }
            } else {
                let w = choose|x: u64| #[trigger]
                    self.items@.contains(x) && !other.items@.contains(x);
                assert(self.contents().contains(w) && !other.contents().contains(w));
            }
        }
        r
    }

    fn is_superset(&self, other: &Self) -> (r: bool) {
        let r = all_in(&other.items, &self.items);
        proof {
            if r {
                assert forall|x: u64| #[trigger]
                    other.contents().contains(x) implies self.contents().contains(x) by {
                    assert(other.items@.contains(x));
                }
            } else {
                let w = choose|x: u64| #[trigger]
                    other.items@.contains(x) && !self.items@.contains(x);
                assert(other.contents().contains(w) && !self.contents().contains(w));
            }
        }
        r
    }

    fn take(&mut self, value: &u64) -> (r: Option<u64>) {
        proof {
            use_type_invariant(&*self);
            lemma_sorted_strict_unique(self.items@);
        }
        let mut v: Vec<u64> = Vec::new();
        core::mem::swap(&mut self.items, &mut v);
        let ghost s = v@;
        let r = match word_index(&v, *value) {
            Some(i) => {
                let y = v.remove(i);
                proof {
                    lemma_unique_remove(s, i as int, *value);
                    assert(sorted_strict(v@)) by {
                        assert(forall|j: int| 0 <= j < v@.len() ==> v@[j] == (if j < i {
                            s[j]
                        } else {
                            s[j + 1]
                        }));
                    }
                    assert(s.contains(*value)) by {
                        assert(s[i as int] == *value);
                    }
                }
                Some(y)
            },
            None => {
                proof {
                    lemma_absent_remove(s, *value);
                }
                None
            },
        };
        self.items = v;
        r
    }

    fn insert(&mut self, value: u64) -> (r: bool) {
        proof {
            use_type_invariant(&*self);
            lemma_sorted_strict_unique(self.items@);
        }
        let mut v: Vec<u64> = Vec::new();
        core::mem::swap(&mut self.items, &mut v);
        let ghost s = v@;
        let i = word_lower_bound(&v, value);
        let found = i < v.len() && *slice_index_get(v.as_slice(), i) == value;
        let r = if found {
            proof {
                assert(s.contains(value)) by {
                    assert(s[i as int] == value);
                }
                assert(s.to_set().insert(value) =~= s.to_set());
            }
            false
        } else {
            v.insert(i, value);
            proof {
                assert forall|j: int| i <= j < s.len() implies s[j] > value by {
                    if j > i {
                        assert(s[i as int] < s[j]);
                    }
                }
                assert(!s.contains(value)) by {
                    assert(forall|j: int| 0 <= j < s.len() ==> s[j] != value);
                }
                lemma_elems_partition(s, i as int, value);
                assert(<OrdSet as AssociatedSet>::one_added(s, value) =~= s.insert(
                    i as int,
                    value,
                ));
                lemma_unique_insert_at(s, i as int, value);
                assert(sorted_strict(v@)) by {
                    s.insert_ensures(i as int, value);
                    assert(forall|j: int| 0 <= j < v@.len() ==> v@[j] == (if j < i {
                        s[j]
                    } else if j == i {
                        value
                    } else {
                        s[j - 1]
                    }));
                }
            }
            true
        };
        self.items = v;
        r
    }

    fn get(&self, value: &u64) -> (r: Option<&u64>) {
        match word_index(&self.items, *value) {
            Some(i) => {
                proof {
                    assert(self.items@.contains(*value)) by {
                        assert(self.items@[i as int] == *value);
                    }
                }
                Some(slice_index_get(self.items.as_slice(), i))
            },
            None => None,
        }
    }

    fn remove(&mut self, value: &u64) -> (r: bool) {
        let taken = <Self as AssociatedSet>::take(self, value);
        match taken {
            Some(_) => true,
            None => false,
        }
    }

    fn replace(&mut self, value: u64) -> (r: Option<u64>) {
        proof {
            use_type_invariant(&*self);
        }
        if word_contains(&self.items, value) {
            proof {
                assert(self.contents().to_set().insert(value) =~= self.contents().to_set());
            }
            Some(value)
        } else {
            let _ = <Self as AssociatedSet>::insert(self, value);
            None
        }
    }
}

impl AssociatedDrainFilterSet for OrdSet {
    fn drain_filter<P: Fn(&u64) -> bool>(&mut self, pred: P) -> (r: Vec<u64>) {
        proof {
            use_type_invariant(&*self);
        }
        let mut v: Vec<u64> = Vec::new();
        core::mem::swap(&mut self.items, &mut v);
        let ghost s = v@;
        let out = crate::vec_impls::drain_filter_vec(&mut v, pred);
        proof {
            crate::model::lemma_filter_sorted_strict(s, |x: u64| !accepted(&pred, x));
        }
        self.items = v;
        out
    }
}

impl AssociatedSetOperation<()> for OrdSet {
    fn difference(&self, other: &Self) -> (r: Vec<u64>) {
        diff_vec(&self.items, &other.items)
    }

    fn intersection(&self, other: &Self) -> (r: Vec<u64>) {
        inter_vec(&self.items, &other.items)
    }

    fn symmetric_difference(&self, other: &Self) -> (r: Vec<u64>) {
        let mut out = diff_vec(&self.items, &other.items);
        let mut rest = diff_vec(&other.items, &self.items);
        out.append(&mut rest);
        out
    }

    fn union(&self, other: &Self) -> (r: Vec<u64>) {
        let mut out = vstd::slice::slice_to_vec(self.items.as_slice());
        let mut rest = diff_vec(&other.items, &self.items);
        out.append(&mut rest);
        out
    }
}

impl AssociatedSetOrd for OrdSet {
    open spec fn elem_le(a: u64, b: u64) -> bool {
        a <= b
    }

    fn elements_sorted(&self) {
        proof {
            use_type_invariant(&*self);
        }
    }

    open spec fn split_point(s: Seq<u64>, value: u64) -> int {
        elems_below(s, value).len() as int
    }

    #[verifier::loop_isolation(false)]
    fn append(&mut self, other: &mut Self) {
        proof {
            use_type_invariant(&*self);
            use_type_invariant(&*other);
            lemma_sorted_strict_unique(other.items@);
        }
        let mut drained: Vec<u64> = Vec::new();
        core::mem::swap(&mut other.items, &mut drained);
        let ghost base = self.contents();
        let ghost others = drained@;
        while drained.len() > 0
            invariant
                self.contents().to_set().union(drained@.to_set()) == base.to_set().union(
                    others.to_set(),
                ),
            decreases drained@.len(),
        {
            let ghost before = drained@;
            let ghost mid = self.contents();
            let x = match drained.pop() {
                Some(x) => x,
                None => unreached(),
            };
            proof {
                assert(before.subrange(0, before.len() - 1) =~= before.drop_last());
                assert(before.to_set() =~= drained@.to_set().insert(x)) by {
                    assert forall|q: u64| before.to_set().contains(q) implies drained@.to_set().insert(
                        x,
                    ).contains(q) by {
                        let j = choose|j: int| 0 <= j < before.len() && before[j] == q;
                        if j < before.len() - 1 {
                            assert(drained@[j] == q);
                        }
                    }
                    assert forall|q: u64|
                        drained@.to_set().insert(x).contains(q) implies before.to_set().contains(
                        q,
                    ) by {
                        if q == x {
                            assert(before[before.len() - 1] == q);
                        } else {
                            let j = choose|j: int| 0 <= j < drained@.len() && drained@[j] == q;
                            assert(before[j] == q);
                        }
                    }
                }
            }
            let _ = <Self as AssociatedSet>::insert(self, x);
            proof {
                assert(self.contents().to_set().union(drained@.to_set()) =~= mid.to_set().union(
                    before.to_set(),
                ));
            }
        }
        proof {
            assert(drained@.to_set() =~= Set::<u64>::empty());
            assert(self.contents().to_set().union(Set::<u64>::empty()) =~= self.contents().to_set());
        }
    }

    fn first(&self) -> (r: Option<&u64>) {
        proof {
            use_type_invariant(&*self);
        }
        if self.items.len() == 0 {
            None
        } else {
            Some(slice_index_get(self.items.as_slice(), 0))
        }
    }

    fn pop_first(&mut self) -> (r: Option<u64>) {
        proof {
            use_type_invariant(&*self);
        }
        let mut v: Vec<u64> = Vec::new();
        core::mem::swap(&mut self.items, &mut v);
        let ghost s = v@;
        let r = if v.len() == 0 {
            None
        } else {
            let x = v.remove(0);
            proof {
                assert(s.remove(0) =~= s.drop_first());
                assert(sorted_strict(v@)) by {
                    assert(forall|j: int| 0 <= j < v@.len() ==> v@[j] == s[j + 1]);
                }
            }
            Some(x)
        };
        self.items = v;
        r
    }

    fn last(&self) -> (r: Option<&u64>) {
        proof {
            use_type_invariant(&*self);
        }
        if self.items.len() == 0 {
            None
        } else {
            Some(slice_index_get(self.items.as_slice(), self.items.len() - 1))
        }
    }

    fn pop_last(&mut self) -> (r: Option<u64>) {
        proof {
            use_type_invariant(&*self);
        }
        let mut v: Vec<u64> = Vec::new();
        core::mem::swap(&mut self.items, &mut v);
        let ghost s = v@;
        let r = v.pop();
        proof {
            if s.len() > 0 {
                assert(s.subrange(0, s.len() - 1) =~= s.drop_last());
                assert(sorted_strict(v@)) by {
                    assert(forall|j: int| 0 <= j < v@.len() ==> v@[j] == s[j]);
                }
            }
        }
        self.items = v;
        r
    }

    fn split_off(&mut self, value: &u64) -> (r: Self) {
        proof {
            use_type_invariant(&*self);
        }
        let mut v: Vec<u64> = Vec::new();
        core::mem::swap(&mut self.items, &mut v);
        let ghost s = v@;
        let i = word_lower_bound(&v, *value);
        let tail = v.split_off(i);
        proof {
            assert(sorted_strict(v@)) by {
                assert(forall|j: int| 0 <= j < v@.len() ==> v@[j] == s[j]);
            }
            assert(sorted_strict(tail@)) by {
                assert(forall|j: int| 0 <= j < tail@.len() ==> tail@[j] == s[j + i]);
            }
            lemma_elems_below_partition(s, i as int, *value);
            assert(<OrdSet as AssociatedSetOrd>::split_point(s, *value) == i as int);
        }
        self.items = v;
        OrdSet { items: tail }
    }
}

} // verus!
