//! Associative capabilities: set semantics and map semantics, with
//! ordered variants.
//!
//! Where the effect of an operation on the traversal order differs by
//! container (an ordered set files a new element at its place, an
//! insertion-ordered set appends it), the trait leaves that step
//! abstract as a spec function each container defines, so the contracts
//! still pin every outcome exactly.

use vstd::prelude::*;

verus! {

use crate::elem::{AssociatedCollectionTrait, CollectionTrait};
use crate::iter::Iterable;
use crate::misc::{AssociatedContains, Contains};
use crate::model::{entries_of, key_seq, seq_diff, seq_inter, sorted_by, without};

/// Collections with set semantics: no duplicate elements, membership
/// tests, insertion and removal by value.
pub trait AssociatedSet: CollectionTrait + Contains + Iterable {
    /// The contents after adding `x` to contents `s` that lack it.
    spec fn one_added(s: Seq<Self::ElemType>, x: Self::ElemType) -> Seq<Self::ElemType>;

    /// A set never holds two equal elements.
    fn distinct_elements(&self)
        ensures
            self.contents().no_duplicates(),
    ;

    /// Checks that `self` and `other` share no element.
    fn is_disjoint(&self, other: &Self) -> (r: bool)
        ensures
            r == forall|x: Self::ElemType|
                !(#[trigger] self.contents().contains(x) && other.contents().contains(x)),
    ;

    /// Checks that every element of `self` is in `other`.
    fn is_subset(&self, other: &Self) -> (r: bool)
        ensures
            r == forall|x: Self::ElemType|
                #[trigger] self.contents().contains(x) ==> other.contents().contains(x),
    ;

    /// Checks that every element of `other` is in `self`.
    fn is_superset(&self, other: &Self) -> (r: bool)
        ensures
            r == forall|x: Self::ElemType|
                #[trigger] other.contents().contains(x) ==> self.contents().contains(x),
    ;

    /// Removes and returns the element equal to `value`, if any.
    fn take(&mut self, value: &Self::ElemType) -> (r: Option<Self::ElemType>)
        ensures
            r == if old(self).contents().contains(*value) {
                Some(*value)
            } else {
                None::<Self::ElemType>
            },
            final(self).contents() == without(old(self).contents(), *value),
            final(self).contents().to_set() == old(self).contents().to_set().remove(*value),
    ;

    /// Adds `value`; reports whether it was new.
    fn insert(&mut self, value: Self::ElemType) -> (r: bool)
        ensures
            r == !old(self).contents().contains(value),
            r ==> final(self).contents() == Self::one_added(old(self).contents(), value),
            !r ==> final(self).contents() == old(self).contents(),
            final(self).contents().to_set() == old(self).contents().to_set().insert(value),
    ;

    /// A reference to the element equal to `value`, if any.
    fn get(&self, value: &Self::ElemType) -> (r: Option<&Self::ElemType>)
        ensures
            match r {
                Some(y) => self.contents().contains(*value) && *y == *value,
                None => !self.contents().contains(*value),
            },
    ;

    /// Removes the element equal to `value`; reports whether it was
    /// present.
    fn remove(&mut self, value: &Self::ElemType) -> (r: bool)
        ensures
            r == old(self).contents().contains(*value),
            final(self).contents() == without(old(self).contents(), *value),
            final(self).contents().to_set() == old(self).contents().to_set().remove(*value),
    ;

    /// Adds `value`, replacing and returning the element equal to it,
    /// if any.
    fn replace(&mut self, value: Self::ElemType) -> (r: Option<Self::ElemType>)
        ensures
            old(self).contents().contains(value) ==> r == Some(value) && final(self).contents()
                == old(self).contents(),
            !old(self).contents().contains(value) ==> r == None::<Self::ElemType> && final(self).contents() == Self::one_added(old(self).contents(), value),
            final(self).contents().to_set() == old(self).contents().to_set().insert(value),
    ;
}

/// Set algebra: difference, intersection, symmetric difference, union.
/// The results list elements of `self` first, in traversal order.
pub trait AssociatedSetOperation<S>: AssociatedSet {
    /// The elements of `self` that are not in `other`, in order.
    fn difference(&self, other: &Self) -> (r: Vec<Self::ElemType>)
        ensures
            r@ == seq_diff(self.contents(), other.contents()),
    ;

    /// The elements of `self` that are also in `other`, in order.
    fn intersection(&self, other: &Self) -> (r: Vec<Self::ElemType>)
        ensures
            r@ == seq_inter(self.contents(), other.contents()),
    ;

    /// The elements in exactly one of the two sets: those of `self`
    /// not in `other` first, then those of `other` not in `self`.
    fn symmetric_difference(&self, other: &Self) -> (r: Vec<Self::ElemType>)
        ensures
            r@ == seq_diff(self.contents(), other.contents()) + seq_diff(
                other.contents(),
                self.contents(),
            ),
    ;

    /// The elements in either set: those of `self` first, then the
    /// elements of `other` not already present.
    fn union(&self, other: &Self) -> (r: Vec<Self::ElemType>)
        ensures
            r@ == self.contents() + seq_diff(other.contents(), self.contents()),
    ;
}

/// Sets that keep their elements ordered.
pub trait AssociatedSetOrd: AssociatedSet + Sized {
    /// The order the elements are kept in.
    spec fn elem_le(a: Self::ElemType, b: Self::ElemType) -> bool;

    /// Traversal visits the elements in order.
    fn elements_sorted(&self)
        ensures
            sorted_by(
                self.contents(),
                |a: Self::ElemType, b: Self::ElemType| Self::elem_le(a, b),
            ),
    ;

    /// Moves every element of `other` into `self`, leaving `other`
    /// empty.
    fn append(&mut self, other: &mut Self)
        ensures
            final(self).contents().to_set() == old(self).contents().to_set().union(
                old(other).contents().to_set(),
            ),
            final(other).contents() == Seq::<Self::ElemType>::empty(),
    ;

    /// The least element, if any.
    fn first(&self) -> (r: Option<&Self::ElemType>)
        ensures
            match r {
                Some(x) => self.contents().len() > 0 && *x == self.contents().first() && forall|
                    j: int,
                |
                    0 <= j < self.contents().len() ==> Self::elem_le(
                        *x,
                        #[trigger] self.contents()[j],
                    ),
                None => self.contents().len() == 0,
            },
    ;

    /// Removes and returns the least element, if any.
    fn pop_first(&mut self) -> (r: Option<Self::ElemType>)
        ensures
            match r {
                Some(x) => old(self).contents().len() > 0 && x == old(self).contents().first()
                    && final(self).contents() == old(self).contents().drop_first(),
                None => old(self).contents().len() == 0 && final(self).contents() == old(self).contents(),
            },
    ;

    /// The greatest element, if any.
    fn last(&self) -> (r: Option<&Self::ElemType>)
        ensures
            match r {
                Some(x) => self.contents().len() > 0 && *x == self.contents().last() && forall|
                    j: int,
                |
                    0 <= j < self.contents().len() ==> Self::elem_le(
                        #[trigger] self.contents()[j],
                        *x,
                    ),
                None => self.contents().len() == 0,
            },
    ;

    /// Removes and returns the greatest element, if any.
    fn pop_last(&mut self) -> (r: Option<Self::ElemType>)
        ensures
            match r {
                Some(x) => old(self).contents().len() > 0 && x == old(self).contents().last()
                    && final(self).contents() == old(self).contents().drop_last(),
                None => old(self).contents().len() == 0 && final(self).contents() == old(self).contents(),
            },
    ;

    /// Where contents `s` split at `value`: the length of the prefix of
    /// elements strictly below it.
    spec fn split_point(s: Seq<Self::ElemType>, value: Self::ElemType) -> int;

    /// Splits the set in two at `value`: `self` keeps the prefix of
    /// elements strictly below it, and the elements from `value` up are
    /// returned.
    fn split_off(&mut self, value: &Self::ElemType) -> (r: Self)
        ensures
            0 <= Self::split_point(old(self).contents(), *value) <= old(self).contents().len(),
            final(self).contents() == old(self).contents().subrange(
                0,
                Self::split_point(old(self).contents(), *value),
            ),
            r.contents() == old(self).contents().subrange(
                Self::split_point(old(self).contents(), *value),
                old(self).contents().len() as int,
            ),
            forall|j: int|
                0 <= j < Self::split_point(old(self).contents(), *value) ==> !Self::elem_le(
                    *value,
                    #[trigger] old(self).contents()[j],
                ),
            forall|j: int|
                Self::split_point(old(self).contents(), *value) <= j < old(
                    self,
                ).contents().len() ==> Self::elem_le(*value, #[trigger] old(self).contents()[j]),
    ;
}

/// Collections with map semantics: at most one entry per key, lookup,
/// insertion and removal by key.
pub trait AssociatedMap: AssociatedCollectionTrait + AssociatedContains {
    /// The contents after inserting the pair `(k, v)` into contents
    /// `s`, replacing the entry under `k` if there is one.
    spec fn one_inserted(
        s: Seq<(Self::KeyType, Self::ValueType)>,
        k: Self::KeyType,
        v: Self::ValueType,
    ) -> Seq<(Self::KeyType, Self::ValueType)>;

    /// The contents after removing the entry under `k`, if any, from
    /// contents `s`.
    spec fn one_removed(s: Seq<(Self::KeyType, Self::ValueType)>, k: Self::KeyType) -> Seq<
        (Self::KeyType, Self::ValueType),
    >;

    /// A map never holds two entries under the same key.
    fn distinct_keys(&self)
        ensures
            key_seq(self.contents()).no_duplicates(),
    ;

    /// Inserts `(key, value)`, returning the value previously under
    /// `key`, if any.
    fn insert(&mut self, key: Self::KeyType, value: Self::ValueType) -> (r: Option<
        Self::ValueType,
    >)
        ensures
            final(self).contents() == Self::one_inserted(old(self).contents(), key, value),
            entries_of(final(self).contents()) == entries_of(old(self).contents()).insert(
                key,
                value,
            ),
            r == if entries_of(old(self).contents()).dom().contains(key) {
                Some(entries_of(old(self).contents())[key])
            } else {
                None::<Self::ValueType>
            },
    ;

    /// Removes the entry under `key`, returning its value, if any.
    fn remove(&mut self, key: &Self::KeyType) -> (r: Option<Self::ValueType>)
        ensures
            final(self).contents() == Self::one_removed(old(self).contents(), *key),
            entries_of(final(self).contents()) == entries_of(old(self).contents()).remove(*key),
            r == if entries_of(old(self).contents()).dom().contains(*key) {
                Some(entries_of(old(self).contents())[*key])
            } else {
                None::<Self::ValueType>
            },
    ;

    /// Removes the entry under `key`, returning the whole pair, if any.
    fn remove_entry(&mut self, key: &Self::KeyType) -> (r: Option<
        (Self::KeyType, Self::ValueType),
    >)
        ensures
            final(self).contents() == Self::one_removed(old(self).contents(), *key),
            entries_of(final(self).contents()) == entries_of(old(self).contents()).remove(*key),
            r == if entries_of(old(self).contents()).dom().contains(*key) {
                Some((*key, entries_of(old(self).contents())[*key]))
            } else {
                None::<(Self::KeyType, Self::ValueType)>
            },
    ;

    /// A reference to the value under `key`, if any.
    fn get(&self, key: &Self::KeyType) -> (r: Option<&Self::ValueType>)
        ensures
            match r {
                Some(v) => entries_of(self.contents()).dom().contains(*key) && *v == entries_of(
                    self.contents(),
                )[*key],
                None => !entries_of(self.contents()).dom().contains(*key),
            },
    ;

    /// A reference to the entry under `key`, if any.
    fn get_key_value(&self, key: &Self::KeyType) -> (r: Option<
        &(Self::KeyType, Self::ValueType),
    >)
        ensures
            match r {
                Some(p) => entries_of(self.contents()).dom().contains(*key) && p.0 == *key
                    && p.1 == entries_of(self.contents())[*key],
                None => !entries_of(self.contents()).dom().contains(*key),
            },
    ;
}

/// Map extras: guarded insertion and key traversal.
pub trait AssociatedMapIter<S>: AssociatedMap {
    /// What a refused insertion reports.
    type TryInsertError;

    /// The report for an insertion refused because `key` was taken.
    spec fn occupied_error(key: Self::KeyType, value: Self::ValueType) -> Self::TryInsertError;

    /// Inserts `(key, value)` only if `key` is free; fails exactly when
    /// `key` is taken, leaving the map as it was.
    fn try_insert(&mut self, key: Self::KeyType, value: Self::ValueType) -> (r: Result<
        (),
        Self::TryInsertError,
    >)
        ensures
            match r {
                Ok(u) => !entries_of(old(self).contents()).dom().contains(key) && final(self).contents() == Self::one_inserted(old(self).contents(), key, value)
                    && entries_of(final(self).contents()) == entries_of(
                    old(self).contents(),
                ).insert(key, value),
                Err(e) => entries_of(old(self).contents()).dom().contains(key) && final(self).contents() == old(self).contents() && e == Self::occupied_error(key, value),
            },
    ;

    /// The keys of the map, in traversal order.
    fn keys(&self) -> (r: Vec<Self::KeyType>) where Self::KeyType: Copy
        ensures
            r@ == key_seq(self.contents()),
    ;

    /// The values of the map, in traversal order.
    fn values(&self) -> (r: Vec<Self::ValueType>) where Self::ValueType: Copy
        ensures
            r@.len() == self.contents().len(),
            forall|j: int|
                0 <= j < r@.len() ==> r@[j] == (#[trigger] self.contents()[j]).1,
    ;
}

/// Maps that keep their entries ordered by key.
pub trait AssociatedMapOrd: AssociatedMap + Sized {
    /// The order the keys are kept in.
    spec fn key_le(a: Self::KeyType, b: Self::KeyType) -> bool;

    /// Traversal visits the entries in key order.
    fn keys_sorted(&self)
        ensures
            sorted_by(
                key_seq(self.contents()),
                |a: Self::KeyType, b: Self::KeyType| Self::key_le(a, b),
            ),
    ;

    /// Moves every entry of `other` into `self`, `other`'s value
    /// winning on a shared key, and leaves `other` empty.
    fn append(&mut self, other: &mut Self)
        ensures
            entries_of(final(self).contents()) == entries_of(
                old(self).contents(),
            ).union_prefer_right(entries_of(old(other).contents())),
            final(other).contents() == Seq::<Self::ElemType>::empty(),
    ;

    /// Where contents `s` split at `key`: the length of the prefix of
    /// entries with keys strictly below it.
    spec fn split_point(s: Seq<(Self::KeyType, Self::ValueType)>, key: Self::KeyType) -> int;

    /// Splits the map in two at `key`: `self` keeps the prefix of
    /// entries with keys strictly below it, and the entries from `key`
    /// up are returned.
    fn split_off(&mut self, key: &Self::KeyType) -> (r: Self)
        ensures
            0 <= Self::split_point(old(self).contents(), *key) <= old(self).contents().len(),
            final(self).contents() == old(self).contents().subrange(
                0,
                Self::split_point(old(self).contents(), *key),
            ),
            r.contents() == old(self).contents().subrange(
                Self::split_point(old(self).contents(), *key),
                old(self).contents().len() as int,
            ),
            forall|j: int|
                0 <= j < Self::split_point(old(self).contents(), *key) ==> !Self::key_le(
                    *key,
                    (#[trigger] old(self).contents()[j]).0,
                ),
            forall|j: int|
                Self::split_point(old(self).contents(), *key) <= j < old(
                    self,
                ).contents().len() ==> Self::key_le(*key, (#[trigger] old(self).contents()[j]).0),
    ;

    /// The entry with the least key, if any.
    fn first_key_value(&self) -> (r: Option<&(Self::KeyType, Self::ValueType)>)
        ensures
            match r {
                Some(p) => self.contents().len() > 0 && *p == self.contents().first() && forall|
                    j: int,
                |
                    0 <= j < self.contents().len() ==> Self::key_le(
                        p.0,
                        (#[trigger] self.contents()[j]).0,
                    ),
                None => self.contents().len() == 0,
            },
    ;

    /// The entry with the greatest key, if any.
    fn last_key_value(&self) -> (r: Option<&(Self::KeyType, Self::ValueType)>)
        ensures
            match r {
                Some(p) => self.contents().len() > 0 && *p == self.contents().last() && forall|
                    j: int,
                |
                    0 <= j < self.contents().len() ==> Self::key_le(
                        (#[trigger] self.contents()[j]).0,
                        p.0,
                    ),
                None => self.contents().len() == 0,
            },
    ;

    /// Removes and returns the entry with the least key, if any.
    fn pop_first(&mut self) -> (r: Option<(Self::KeyType, Self::ValueType)>)
        ensures
            match r {
                Some(p) => old(self).contents().len() > 0 && p == old(self).contents().first()
                    && final(self).contents() == old(self).contents().drop_first(),
                None => old(self).contents().len() == 0 && final(self).contents() == old(self).contents(),
            },
    ;

    /// Removes and returns the entry with the greatest key, if any.
    fn pop_last(&mut self) -> (r: Option<(Self::KeyType, Self::ValueType)>)
        ensures
            match r {
                Some(p) => old(self).contents().len() > 0 && p == old(self).contents().last()
                    && final(self).contents() == old(self).contents().drop_last(),
                None => old(self).contents().len() == 0 && final(self).contents() == old(self).contents(),
            },
    ;
}

} // verus!
