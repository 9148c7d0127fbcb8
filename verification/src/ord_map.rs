//! `OrdMap<V>`: a map from machine words to values whose entries are
//! kept strictly sorted by key, standing where an ordered tree map
//! would in the capability taxonomy.

use vstd::prelude::*;

verus! {

use crate::associated::{AssociatedMap, AssociatedMapIter, AssociatedMapOrd};
use crate::elem::{
    extended_with, AssociatedCollectionTrait, CollectionTrait, ExtendOwned, IntoIteratorOwned,
    Mutable, Owned,
};
use crate::exact_size::ExactSized;
use crate::iter::{
    AssociatedDrainFilter, AssociatedIterable, AssociatedIterableMut, AssociatedRange, Iterable,
};
use crate::misc::{AssociatedContains, EmptyConstructible, Erasable};
use crate::model::{
    entries_of, key_seq, lemma_entries_agree, lemma_entries_of_dom, lemma_entries_of_index,
    lemma_pairs_partition, lemma_pairs_updated, lemma_pairs_without_key_absent,
    lemma_pairs_without_key_skip, lemma_sorted_strict_unique, pairs_above, pairs_below,
    pairs_updated, pairs_without_key, sorted_strict,
};
use crate::support::{find_key, key_lower_bound};
use crate::{HasAssociatedExactSizeIterator, HasExactSizeIterator};
use vstd::pervasive::unreached;
use vstd::slice::{slice_index_get, slice_subrange};

/// A map from machine words to values, kept strictly sorted by key.
pub struct OrdMap<V> {
    items: Vec<(u64, V)>,
}

impl<V> OrdMap<V> {
    /// The entries are strictly sorted by key.
    #[verifier::type_invariant]
    spec fn keys_strictly_sorted(&self) -> bool {
        sorted_strict(key_seq(self.items@))
    }
}

impl<V> CollectionTrait for OrdMap<V> {
    type ElemType = (u64, V);

    closed spec fn contents(&self) -> Seq<(u64, V)> {
        self.items@
    }
}

impl<V> AssociatedCollectionTrait for OrdMap<V> {
    type KeyType = u64;

    type ValueType = V;
}

impl<V> Mutable for OrdMap<V> {

}

impl<V> Owned for OrdMap<V> {

}

impl<V> HasExactSizeIterator for OrdMap<V> {

}

impl<V> HasAssociatedExactSizeIterator for OrdMap<V> {

}

impl<V> ExactSized for OrdMap<V> {
    fn is_empty(&self) -> (r: bool) {
        self.items.len() == 0
    }

    fn len(&self) -> (r: usize) {
        self.items.len()
    }
}

impl<V> EmptyConstructible for OrdMap<V> {
    fn new() -> (r: Self) {
        OrdMap { items: Vec::new() }
    }
}

impl<V> Erasable for OrdMap<V> {
    fn clear(&mut self) {
        let mut v: Vec<(u64, V)> = Vec::new();
        core::mem::swap(&mut self.items, &mut v);
    }
}

impl<V> Iterable for OrdMap<V> {
    fn nth(&self, i: usize) -> (r: &(u64, V)) {
        slice_index_get(self.items.as_slice(), i)
    }
}

impl<V> AssociatedIterable for OrdMap<V> {
    fn entry_at(&self, i: usize) -> (r: &(u64, V)) {
        slice_index_get(self.items.as_slice(), i)
    }
}

impl<V> AssociatedContains for OrdMap<V> {
    fn contains_key(&self, k: &u64) -> (r: bool) {
        proof {
            use_type_invariant(&*self);
            lemma_entries_of_dom(self.items@);
        }
        match find_key(&self.items, *k) {
            Some(i) => {
                proof {
                    assert(key_seq(self.items@)[i as int] == self.items@[i as int].0);
                }
                true
            },
            None => false,
        }
    }
}

impl<V> AssociatedMap for OrdMap<V> {
    open spec fn one_inserted(s: Seq<(u64, V)>, k: u64, v: V) -> Seq<(u64, V)> {
        if key_seq(s).contains(k) {
            pairs_updated(s, k, v)
        } else {
            pairs_below(s, k).push((k, v)) + pairs_above(s, k)
        }
    }

    open spec fn one_removed(s: Seq<(u64, V)>, k: u64) -> Seq<(u64, V)> {
        pairs_without_key(s, k)
    }

    fn distinct_keys(&self) {
        proof {
            use_type_invariant(&*self);
            lemma_sorted_strict_unique(key_seq(self.items@));
        }
    }

    fn insert(&mut self, key: u64, value: V) -> (r: Option<V>) {
        proof {
            use_type_invariant(&*self);
            lemma_sorted_strict_unique(key_seq(self.items@));
            lemma_entries_of_dom(self.items@);
        }
        let mut v: Vec<(u64, V)> = Vec::new();
        core::mem::swap(&mut self.items, &mut v);
        let ghost s = v@;
        let i = key_lower_bound(&v, key);
        let found = i < v.len() && slice_index_get(v.as_slice(), i).0 == key;
        let r = if found {
            let p = v.remove(i);
            v.insert(i, (key, value));
            proof {
                lemma_ord_replace_at::<V>(s, i as int, key, value);
                assert(v@ =~= s.update(i as int, (key, value)));
                lemma_entries_of_index(s, i as int);
            }
            Some(p.1)
        } else {
            v.insert(i, (key, value));
            proof {
                assert forall|j: int| 0 <= j < s.len() implies s[j].0 != key by {
                    assert(key_seq(s)[j] == s[j].0);
                    if j > i {
                        assert(key_seq(s)[i as int] < key_seq(s)[j]);
                        assert(key_seq(s)[i as int] == s[i as int].0);
                    }
                }
                assert forall|j: int| i <= j < s.len() implies (#[trigger] s[j]).0 > key by {
                    assert(s[j].0 != key);
                }
                lemma_ord_insert_at::<V>(s, i as int, key, value);
                assert(v@ =~= s.insert(i as int, (key, value)));
            }
            None
        };
        self.items = v;
        r
    }

    fn remove(&mut self, key: &u64) -> (r: Option<V>) {
        let e = <Self as AssociatedMap>::remove_entry(self, key);
        match e {
            Some(p) => Some(p.1),
            None => None,
        }
    }

    fn remove_entry(&mut self, key: &u64) -> (r: Option<(u64, V)>) {
        proof {
            use_type_invariant(&*self);
            lemma_sorted_strict_unique(key_seq(self.items@));
            lemma_entries_of_dom(self.items@);
        }
        let mut v: Vec<(u64, V)> = Vec::new();
        core::mem::swap(&mut self.items, &mut v);
        let ghost s = v@;
        let r = match find_key(&v, *key) {
            Some(i) => {
                let p = v.remove(i);
                proof {
                    assert(key_seq(s)[i as int] == s[i as int].0);
                    lemma_ord_remove_at::<V>(s, i as int, *key);
                    lemma_entries_of_index(s, i as int);
                }
                Some(p)
            },
            None => {
                proof {
                    assert forall|j: int| 0 <= j < s.len() implies s[j].0 != *key by {
                        assert(key_seq(s)[j] == s[j].0);
                    }
                    lemma_ord_remove_absent::<V>(s, *key);
                }
                None
            },
        };
        self.items = v;
        r
    }

    fn get(&self, key: &u64) -> (r: Option<&V>) {
        proof {
            use_type_invariant(&*self);
            lemma_sorted_strict_unique(key_seq(self.items@));
            lemma_entries_of_dom(self.items@);
        }
        match find_key(&self.items, *key) {
            Some(i) => {
                let p = slice_index_get(self.items.as_slice(), i);
                proof {
                    lemma_entries_of_index(self.items@, i as int);
                }
                Some(&p.1)
            },
            None => {
                proof {
                    assert forall|j: int|
                        0 <= j < key_seq(self.items@).len() implies key_seq(self.items@)[j]
                        != *key by {
                        assert(key_seq(self.items@)[j] == self.items@[j].0);
                    }
                }
                None
            },
        }
    }

    fn get_key_value(&self, key: &u64) -> (r: Option<&(u64, V)>) {
        proof {
            use_type_invariant(&*self);
            lemma_sorted_strict_unique(key_seq(self.items@));
            lemma_entries_of_dom(self.items@);
        }
        match find_key(&self.items, *key) {
            Some(i) => {
                let p = slice_index_get(self.items.as_slice(), i);
                proof {
                    lemma_entries_of_index(self.items@, i as int);
                }
                Some(p)
            },
            None => None,
        }
    }
}


impl<V> ExtendOwned for OrdMap<V> {
    open spec fn one_extended(s: Seq<(u64, V)>, x: (u64, V)) -> Seq<(u64, V)> {
        <OrdMap<V> as AssociatedMap>::one_inserted(s, x.0, x.1)
    }

    fn extend_one(&mut self, x: (u64, V)) {
        let (k, v) = x;
        let _ = <Self as AssociatedMap>::insert(self, k, v);
    }

    #[verifier::loop_isolation(false)]
    fn extend_from_vec(&mut self, items: Vec<(u64, V)>) {
        let mut items = items;
        let ghost step = |s: Seq<(u64, V)>, x: (u64, V)| Self::one_extended(s, x);
        let ghost goal = extended_with(self.contents(), items@, step);
        while items.len() > 0
            invariant
                extended_with(self.contents(), items@, step) == goal,
            decreases items@.len(),
        {
            let ghost prev = self.contents();
            let ghost before = items@;
            let x = items.remove(0);
            proof {
                assert(before.drop_first() =~= before.remove(0));
            }
            self.extend_one(x);
            proof {
                assert(extended_with(prev, before, step) == extended_with(
                    step(prev, before[0]),
                    before.drop_first(),
                    step,
                ));
                assert(step(prev, before[0]) == Self::one_extended(prev, x));
            }
        }
    }
}

impl<V> IntoIteratorOwned for OrdMap<V> {
    fn into_elements(self) -> (r: Vec<(u64, V)>) {
        self.items
    }
}

impl<V> AssociatedIterableMut for OrdMap<V> {
    fn set_value_at(&mut self, i: usize, v2: V) {
        proof {
            use_type_invariant(&*self);
        }
        let mut w: Vec<(u64, V)> = Vec::new();
        core::mem::swap(&mut self.items, &mut w);
        let ghost s = w@;
        let k = slice_index_get(w.as_slice(), i).0;
        let _ = w.remove(i);
        w.insert(i, (k, v2));
        proof {
            assert(w@ =~= s.update(i as int, (s[i as int].0, v2)));
            assert(key_seq(w@) =~= key_seq(s)) by {
                assert(forall|j: int| 0 <= j < w@.len() ==> key_seq(w@)[j] == (#[trigger] w@[j]).0);
                assert(forall|j: int| 0 <= j < s.len() ==> key_seq(s)[j] == (#[trigger] s[j]).0);
            }
        }
        self.items = w;
    }
}

impl<V> AssociatedMapIter<()> for OrdMap<V> {
    type TryInsertError = (u64, V);

    open spec fn occupied_error(key: u64, value: V) -> (u64, V) {
        (key, value)
    }

    fn try_insert(&mut self, key: u64, value: V) -> (r: Result<(), (u64, V)>) {
        proof {
            use_type_invariant(&*self);
            lemma_sorted_strict_unique(key_seq(self.items@));
            lemma_entries_of_dom(self.items@);
        }
        match find_key(&self.items, key) {
            Some(i) => {
                proof {
                    assert(key_seq(self.items@)[i as int] == self.items@[i as int].0);
                }
                Err((key, value))
            },
            None => {
                proof {
                    assert forall|j: int|
                        0 <= j < key_seq(self.items@).len() implies key_seq(self.items@)[j]
                        != key by {
                        assert(key_seq(self.items@)[j] == self.items@[j].0);
                    }
                }
                let _ = <Self as AssociatedMap>::insert(self, key, value);
                Ok(())
            },
        }
    }

    #[verifier::loop_isolation(false)]
    fn keys(&self) -> (r: Vec<u64>) {
        let mut out: Vec<u64> = Vec::new();
        let mut i: usize = 0;
        while i < self.items.len()
            invariant
                i <= self.items@.len(),
                out@.len() == i,
                forall|j: int| 0 <= j < i ==> out@[j] == (#[trigger] self.items@[j]).0,
            decreases self.items@.len() - i,
        {
            let p = slice_index_get(self.items.as_slice(), i);
            out.push(p.0);
            i += 1;
        }
        proof {
            assert(forall|j: int|
                0 <= j < self.items@.len() ==> key_seq(self.items@)[j] == (#[trigger] self.items@[j]).0);
            assert(out@ =~= key_seq(self.contents()));
        }
        out
    }

    #[verifier::loop_isolation(false)]
    fn values(&self) -> (r: Vec<V>) where V: Copy {
        let mut out: Vec<V> = Vec::new();
        let mut i: usize = 0;
        while i < self.items.len()
            invariant
                i <= self.items@.len(),
                out@.len() == i,
                forall|j: int| 0 <= j < i ==> out@[j] == (#[trigger] self.items@[j]).1,
            decreases self.items@.len() - i,
        {
            let p = slice_index_get(self.items.as_slice(), i);
            out.push(p.1);
            i += 1;
        }
        out
    }
}

impl<V> AssociatedMapOrd for OrdMap<V> {
    open spec fn key_le(a: u64, b: u64) -> bool {
        a <= b
    }

    open spec fn split_point(s: Seq<(u64, V)>, key: u64) -> int {
        pairs_below(s, key).len() as int
    }

    fn keys_sorted(&self) {
        proof {
            use_type_invariant(&*self);
        }
    }

    #[verifier::loop_isolation(false)]
    fn append(&mut self, other: &mut Self) {
        proof {
            use_type_invariant(&*self);
            use_type_invariant(&*other);
            lemma_sorted_strict_unique(key_seq(other.items@));
        }
        let mut drained: Vec<(u64, V)> = Vec::new();
        core::mem::swap(&mut other.items, &mut drained);
        let ghost base = self.contents();
        let ghost others = drained@;
        while drained.len() > 0
            invariant
                key_seq(drained@).no_duplicates(),
                entries_of(self.contents()).union_prefer_right(entries_of(drained@)) == entries_of(
                    base,
                ).union_prefer_right(entries_of(others)),
            decreases drained@.len(),
        {
            let ghost before = drained@;
            let ghost mid = self.contents();
            let p = match drained.pop() {
                Some(p) => p,
                None => unreached(),
            };
            proof {
                assert(before.subrange(0, before.len() - 1) =~= before.drop_last());
                assert(key_seq(drained@) =~= key_seq(before).drop_last()) by {
                    assert(forall|j: int|
                        0 <= j < drained@.len() ==> key_seq(drained@)[j] == (#[trigger] drained@[j]).0);
                    assert(forall|j: int|
                        0 <= j < before.len() ==> key_seq(before)[j] == (#[trigger] before[j]).0);
                }
                assert(key_seq(drained@).no_duplicates());
                lemma_entries_of_dom(drained@);
                assert(!entries_of(drained@).dom().contains(p.0)) by {
                    if key_seq(drained@).to_set().contains(p.0) {
                        let j = choose|j: int|
                            0 <= j < key_seq(drained@).len() && key_seq(drained@)[j] == p.0;
                        assert(key_seq(before)[j] == key_seq(before)[before.len() - 1]);
                    }
                }
                assert(entries_of(before) == entries_of(drained@).insert(p.0, p.1));
            }
            let _ = <Self as AssociatedMap>::insert(self, p.0, p.1);
            proof {
                assert(entries_of(self.contents()).union_prefer_right(entries_of(drained@)) =~=
                    entries_of(mid).union_prefer_right(entries_of(before)));
            }
        }
        proof {
            assert(entries_of(drained@) =~= Map::<u64, V>::empty());
            assert(entries_of(self.contents()).union_prefer_right(Map::<u64, V>::empty()) =~=
                entries_of(self.contents()));
        }
    }

    fn split_off(&mut self, key: &u64) -> (r: Self) {
        proof {
            use_type_invariant(&*self);
        }
        let mut v: Vec<(u64, V)> = Vec::new();
        core::mem::swap(&mut self.items, &mut v);
        let ghost s = v@;
        let i = key_lower_bound(&v, *key);
        let tail = v.split_off(i);
        proof {
            assert(forall|j: int| 0 <= j < s.len() ==> key_seq(s)[j] == (#[trigger] s[j]).0);
            assert(sorted_strict(key_seq(v@))) by {
                assert(forall|j: int| 0 <= j < v@.len() ==> key_seq(v@)[j] == (#[trigger] v@[j]).0);
                assert(forall|j: int| 0 <= j < v@.len() ==> v@[j] == s[j]);
            }
            assert(sorted_strict(key_seq(tail@))) by {
                assert(forall|j: int|
                    0 <= j < tail@.len() ==> key_seq(tail@)[j] == (#[trigger] tail@[j]).0);
                assert(forall|j: int| 0 <= j < tail@.len() ==> tail@[j] == s[j + i]);
            }
            assert(v@ == s.subrange(0, i as int));
            assert(tail@ == s.subrange(i as int, s.len() as int));
            assert(forall|j: int| 0 <= j < i as int ==> !(*key <= (#[trigger] s[j]).0));
            assert(forall|j: int| i as int <= j < s.len() ==> *key <= (#[trigger] s[j]).0);
            crate::model::lemma_pairs_below_partition(s, i as int, *key);
            assert(<OrdMap<V> as AssociatedMapOrd>::split_point(s, *key) == i as int);
        }
        self.items = v;
        OrdMap { items: tail }
    }

    fn first_key_value(&self) -> (r: Option<&(u64, V)>) {
        proof {
            use_type_invariant(&*self);
            assert(forall|j: int|
                0 <= j < self.items@.len() ==> key_seq(self.items@)[j] == (
                #[trigger] self.items@[j]).0);
        }
        if self.items.len() == 0 {
            None
        } else {
            Some(slice_index_get(self.items.as_slice(), 0))
        }
    }

    fn last_key_value(&self) -> (r: Option<&(u64, V)>) {
        proof {
            use_type_invariant(&*self);
            assert(forall|j: int|
                0 <= j < self.items@.len() ==> key_seq(self.items@)[j] == (
                #[trigger] self.items@[j]).0);
        }
        if self.items.len() == 0 {
            None
        } else {
            Some(slice_index_get(self.items.as_slice(), self.items.len() - 1))
        }
    }

    fn pop_first(&mut self) -> (r: Option<(u64, V)>) {
        proof {
            use_type_invariant(&*self);
        }
        let mut v: Vec<(u64, V)> = Vec::new();
        core::mem::swap(&mut self.items, &mut v);
        let ghost s = v@;
        let r = if v.len() == 0 {
            None
        } else {
            let p = v.remove(0);
            proof {
                assert(s.remove(0) =~= s.drop_first());
                assert(sorted_strict(key_seq(v@))) by {
                    assert(forall|j: int|
                        0 <= j < v@.len() ==> key_seq(v@)[j] == (#[trigger] v@[j]).0);
                    assert(forall|j: int| 0 <= j < s.len() ==> key_seq(s)[j] == (#[trigger] s[j]).0);
                    assert(forall|j: int| 0 <= j < v@.len() ==> v@[j] == s[j + 1]);
                }
            }
            Some(p)
        };
        self.items = v;
        r
    }

    fn pop_last(&mut self) -> (r: Option<(u64, V)>) {
        proof {
            use_type_invariant(&*self);
        }
        let mut v: Vec<(u64, V)> = Vec::new();
        core::mem::swap(&mut self.items, &mut v);
        let ghost s = v@;
        let r = v.pop();
        proof {
            if s.len() > 0 {
                assert(s.subrange(0, s.len() - 1) =~= s.drop_last());
                assert(sorted_strict(key_seq(v@))) by {
                    assert(forall|j: int|
                        0 <= j < v@.len() ==> key_seq(v@)[j] == (#[trigger] v@[j]).0);
                    assert(forall|j: int| 0 <= j < s.len() ==> key_seq(s)[j] == (#[trigger] s[j]).0);
                    assert(forall|j: int| 0 <= j < v@.len() ==> v@[j] == s[j]);
                }
            }
        }
        self.items = v;
        r
    }
}

impl<V> AssociatedDrainFilter for OrdMap<V> {
    fn drain_filter<P: Fn(&(u64, V)) -> bool>(&mut self, pred: P) -> (r: Vec<(u64, V)>) {
        proof {
            use_type_invariant(&*self);
        }
        let mut v: Vec<(u64, V)> = Vec::new();
        core::mem::swap(&mut self.items, &mut v);
        let ghost s = v@;
        let out = crate::vec_impls::drain_filter_vec(&mut v, pred);
        proof {
            crate::model::lemma_filter_sorted_keys(
                s,
                |x: (u64, V)| !crate::model::accepted(&pred, x),
            );
        }
        self.items = v;
        out
    }
}

impl<V> AssociatedRange for OrdMap<V> {
    fn range_between(&self, lo: &u64, hi: &u64) -> (r: &[(u64, V)]) {
        proof {
            use_type_invariant(&*self);
        }
        let ghost s = self.items@;
        let i1 = key_lower_bound(&self.items, *lo);
        let i2 = key_lower_bound(&self.items, *hi);
        proof {
            crate::model::lemma_pairs_below_partition(s, i1 as int, *lo);
            crate::model::lemma_pairs_below_partition(s, i2 as int, *hi);
            if i1 > i2 {
                assert(s[i2 as int].0 >= *hi);
                assert(s[i2 as int].0 < *lo);
            }
        }
        let out = slice_subrange(self.items.as_slice(), i1, i2);
        proof {
            assert forall|j: int| 0 <= j < out@.len() implies *lo <= (#[trigger] out@[j]).0
                && (out@[j]).0 < *hi by {
                assert(out@[j] == s[i1 + j]);
            }
        }
        out
    }
}

/// Replacing the value at the one position holding a key: the effect on
/// the pair sequence, its sortedness, and the map it reads as.
proof fn lemma_ord_replace_at<V>(s: Seq<(u64, V)>, i: int, key: u64, value: V)
    requires
        sorted_strict(key_seq(s)),
        0 <= i < s.len(),
        s[i].0 == key,
    ensures
        key_seq(s).contains(key),
        sorted_strict(key_seq(s.update(i, (key, value)))),
        <OrdMap<V> as AssociatedMap>::one_inserted(s, key, value) == s.update(i, (key, value)),
        entries_of(s.update(i, (key, value))) == entries_of(s).insert(key, value),
        entries_of(s).dom().contains(key),
{
    lemma_sorted_strict_unique(key_seq(s));
    lemma_entries_of_dom(s);
    assert(key_seq(s)[i] == s[i].0);
    let t = s.update(i, (key, value));
    assert(key_seq(t) =~= key_seq(s)) by {
        assert(forall|j: int| 0 <= j < t.len() ==> key_seq(t)[j] == (#[trigger] t[j]).0);
        assert(forall|j: int| 0 <= j < s.len() ==> key_seq(s)[j] == (#[trigger] s[j]).0);
    }
    lemma_pairs_updated(s, i, key, value);
    let m = entries_of(s).insert(key, value);
    assert(m.dom() =~= key_seq(t).to_set());
    assert forall|j: int| 0 <= j < t.len() implies m[#[trigger] t[j].0] == t[j].1 by {
        if j != i {
            assert(t[j] == s[j]);
            assert(key_seq(s)[j] != key_seq(s)[i]);
            lemma_entries_of_index(s, j);
        }
    }
    lemma_entries_agree(t, m);
    lemma_entries_of_index(s, i);
}

/// Inserting a fresh key at its sorted position: the effect on the pair
/// sequence, its sortedness, and the map it reads as.
proof fn lemma_ord_insert_at<V>(s: Seq<(u64, V)>, i: int, key: u64, value: V)
    requires
        sorted_strict(key_seq(s)),
        0 <= i <= s.len(),
        forall|j: int| 0 <= j < i ==> (#[trigger] s[j]).0 < key,
        forall|j: int| i <= j < s.len() ==> (#[trigger] s[j]).0 > key,
    ensures
        !key_seq(s).contains(key),
        sorted_strict(key_seq(s.insert(i, (key, value)))),
        <OrdMap<V> as AssociatedMap>::one_inserted(s, key, value) == s.insert(i, (key, value)),
        entries_of(s.insert(i, (key, value))) == entries_of(s).insert(key, value),
        !entries_of(s).dom().contains(key),
{
    lemma_sorted_strict_unique(key_seq(s));
    lemma_entries_of_dom(s);
    assert forall|j: int| 0 <= j < key_seq(s).len() implies key_seq(s)[j] != key by {
        assert(key_seq(s)[j] == s[j].0);
    }
    let t = s.insert(i, (key, value));
    assert(t.len() == s.len() + 1);
    assert forall|j: int| 0 <= j < t.len() implies t[j] == (if j < i {
        s[j]
    } else if j == i {
        (key, value)
    } else {
        s[j - 1]
    }) by {
        s.insert_ensures(i, (key, value));
    }
    lemma_pairs_partition(s, i, key);
    assert(<OrdMap<V> as AssociatedMap>::one_inserted(s, key, value) =~= t) by {
        assert(pairs_below(s, key) == s.subrange(0, i));
        assert(pairs_above(s, key) == s.subrange(i, s.len() as int));
    }
    assert(sorted_strict(key_seq(t))) by {
        assert forall|a: int, b: int| 0 <= a < b < t.len() implies key_seq(t)[a] < key_seq(
            t,
        )[b] by {
            assert(key_seq(t)[a] == t[a].0);
            assert(key_seq(t)[b] == t[b].0);
            if a < i && b > i {
                assert(key_seq(s)[a] == s[a].0);
                assert(key_seq(s)[b - 1] == s[b - 1].0);
            } else if a != i && b != i {
                let a2: int = if a < i {
                    a
                } else {
                    a - 1
                };
                let b2: int = if b < i {
                    b
                } else {
                    b - 1
                };
                assert(key_seq(s)[a2] == s[a2].0);
                assert(key_seq(s)[b2] == s[b2].0);
                assert(key_seq(s)[a2] < key_seq(s)[b2]);
            }
        }
    }
    lemma_sorted_strict_unique(key_seq(t));
    let m = entries_of(s).insert(key, value);
    assert(m.dom() =~= key_seq(t).to_set()) by {
        assert forall|q: u64| key_seq(t).to_set().contains(q) implies m.dom().contains(q) by {
            let j = choose|j: int| 0 <= j < key_seq(t).len() && key_seq(t)[j] == q;
            assert(key_seq(t)[j] == t[j].0);
            if j < i {
                assert(key_seq(s)[j] == q);
            } else if j > i {
                assert(key_seq(s)[j - 1] == q);
            }
        }
        assert forall|q: u64| m.dom().contains(q) implies key_seq(t).to_set().contains(q) by {
            if q == key {
                assert(key_seq(t)[i] == t[i].0);
            } else {
                assert(key_seq(s).to_set().contains(q));
                let j = choose|j: int| 0 <= j < key_seq(s).len() && key_seq(s)[j] == q;
                if j < i {
                    assert(key_seq(t)[j] == t[j].0);
                    assert(t[j] == s[j]);
                } else {
                    assert(key_seq(t)[j + 1] == t[j + 1].0);
                    assert(t[j + 1] == s[j]);
                }
            }
        }
    }
    assert forall|j: int| 0 <= j < t.len() implies m[#[trigger] t[j].0] == t[j].1 by {
        if j < i {
            lemma_entries_of_index(s, j);
            assert(s[j].0 != key);
        } else if j > i {
            lemma_entries_of_index(s, j - 1);
            assert(s[j - 1].0 != key);
        }
    }
    lemma_entries_agree(t, m);
}

/// Removing the one entry holding a key: the effect on the pair
/// sequence, its sortedness, and the map it reads as.
proof fn lemma_ord_remove_at<V>(s: Seq<(u64, V)>, i: int, key: u64)
    requires
        sorted_strict(key_seq(s)),
        0 <= i < s.len(),
        s[i].0 == key,
    ensures
        sorted_strict(key_seq(s.remove(i))),
        <OrdMap<V> as AssociatedMap>::one_removed(s, key) == s.remove(i),
        entries_of(s.remove(i)) == entries_of(s).remove(key),
        entries_of(s).dom().contains(key),
{
    lemma_sorted_strict_unique(key_seq(s));
    lemma_entries_of_dom(s);
    assert(key_seq(s)[i] == s[i].0);
    let t = s.remove(i);
    assert forall|j: int| 0 <= j < t.len() implies t[j] == (if j < i {
        s[j]
    } else {
        s[j + 1]
    }) by {
        s.remove_ensures(i);
    }
    lemma_pairs_without_key_skip(s, i, key);
    assert(sorted_strict(key_seq(t))) by {
        assert forall|a: int, b: int| 0 <= a < b < t.len() implies key_seq(t)[a] < key_seq(
            t,
        )[b] by {
            assert(key_seq(t)[a] == t[a].0);
            assert(key_seq(t)[b] == t[b].0);
            let a2: int = if a < i {
                a
            } else {
                a + 1
            };
            let b2: int = if b < i {
                b
            } else {
                b + 1
            };
            assert(key_seq(s)[a2] == s[a2].0);
            assert(key_seq(s)[b2] == s[b2].0);
            assert(key_seq(s)[a2] < key_seq(s)[b2]);
        }
    }
    lemma_sorted_strict_unique(key_seq(t));
    let m = entries_of(s).remove(key);
    assert(m.dom() =~= key_seq(t).to_set()) by {
        assert forall|q: u64| key_seq(t).to_set().contains(q) implies m.dom().contains(q) by {
            let j = choose|j: int| 0 <= j < key_seq(t).len() && key_seq(t)[j] == q;
            assert(key_seq(t)[j] == t[j].0);
            let j2: int = if j < i {
                j
            } else {
                j + 1
            };
            assert(key_seq(s)[j2] == s[j2].0);
            assert(key_seq(s)[j2] != key_seq(s)[i]);
        }
        assert forall|q: u64| m.dom().contains(q) implies key_seq(t).to_set().contains(q) by {
            assert(key_seq(s).to_set().contains(q));
            let j = choose|j: int| 0 <= j < key_seq(s).len() && key_seq(s)[j] == q;
            assert(j != i);
            let j2: int = if j < i {
                j
            } else {
                j - 1
            };
            assert(key_seq(t)[j2] == t[j2].0);
        }
    }
    assert forall|j: int| 0 <= j < t.len() implies m[#[trigger] t[j].0] == t[j].1 by {
        let j2: int = if j < i {
            j
        } else {
            j + 1
        };
        lemma_entries_of_index(s, j2);
        assert(key_seq(s)[j2] != key_seq(s)[i]);
    }
    lemma_entries_agree(t, m);
    lemma_entries_of_index(s, i);
}

/// Removing an absent key changes neither the pair sequence nor the map
/// it reads as.
proof fn lemma_ord_remove_absent<V>(s: Seq<(u64, V)>, key: u64)
    requires
        key_seq(s).no_duplicates(),
        forall|j: int| 0 <= j < s.len() ==> (#[trigger] s[j]).0 != key,
    ensures
        <OrdMap<V> as AssociatedMap>::one_removed(s, key) == s,
        entries_of(s).remove(key) == entries_of(s),
        !entries_of(s).dom().contains(key),
{
    lemma_entries_of_dom(s);
    lemma_pairs_without_key_absent(s, key);
    assert forall|j: int| 0 <= j < key_seq(s).len() implies key_seq(s)[j] != key by {
        assert(key_seq(s)[j] == s[j].0);
    }
    assert(entries_of(s).remove(key) =~= entries_of(s));
}

} // verus!
