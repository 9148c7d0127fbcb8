//! Sequence capabilities: contiguous storage, access at the back, access
//! at both ends, and access by index.

use vstd::prelude::*;

verus! {

use crate::elem::CollectionTrait;
use crate::exact_size::ExactSized;
use crate::iter::Iterable;
use crate::model::{accepted, test_defined_on, test_deterministic};

/// Collections stored as one contiguous region of memory.
pub trait Contiguous: CollectionTrait {
    /// The whole collection as a slice.
    fn as_slice(&self) -> (r: &[Self::ElemType])
        ensures
            r@ == self.contents(),
    ;
}

/// Collections that behave as a sequence accessed from the back.
pub trait Sequential: CollectionTrait + ExactSized + Sized {
    /// The last element, if any.
    fn back(&self) -> (r: Option<&Self::ElemType>)
        ensures
            match r {
                Some(x) => self.contents().len() > 0 && *x == self.contents().last(),
                None => self.contents().len() == 0,
            },
    ;

    /// Moves every element of `other` to the back of `self`, leaving
    /// `other` empty.
    fn append(&mut self, other: &mut Self)
        ensures
            final(self).contents() == old(self).contents() + old(other).contents(),
            final(other).contents() == Seq::<Self::ElemType>::empty(),
    ;

    /// Appends one element at the back.
    fn push_back(&mut self, x: Self::ElemType)
        ensures
            final(self).contents() == old(self).contents().push(x),
    ;

    /// Removes and returns the last element, if any.
    fn pop_back(&mut self) -> (r: Option<Self::ElemType>)
        ensures
            match r {
                Some(x) => old(self).contents().len() > 0 && x == old(self).contents().last()
                    && final(self).contents() == old(self).contents().drop_last(),
                None => old(self).contents().len() == 0 && final(self).contents() == old(self).contents(),
            },
    ;

    /// Removes and returns the element at position `at`.
    fn remove(&mut self, at: usize) -> (r: Option<Self::ElemType>)
        requires
            at < old(self).contents().len(),
        ensures
            r == Some(old(self).contents()[at as int]),
            final(self).contents() == old(self).contents().remove(at as int),
    ;

    /// Splits the sequence in two at position `at`; `self` keeps the
    /// front part and the back part is returned.
    fn split_off(&mut self, at: usize) -> (r: Self)
        requires
            at <= old(self).contents().len(),
        ensures
            final(self).contents() == old(self).contents().subrange(0, at as int),
            r.contents() == old(self).contents().subrange(
                at as int,
                old(self).contents().len() as int,
            ),
    ;
}

/// Sequences that can be read and changed at the front as well.
pub trait DoubleEnded: Sequential + Iterable {
    /// The first element, if any.
    fn front(&self) -> (r: Option<&Self::ElemType>)
        ensures
            match r {
                Some(x) => self.contents().len() > 0 && *x == self.contents().first(),
                None => self.contents().len() == 0,
            },
    ;

    /// Prepends one element at the front.
    fn push_front(&mut self, x: Self::ElemType)
        ensures
            final(self).contents() == seq![x] + old(self).contents(),
    ;

    /// Removes and returns the first element, if any.
    fn pop_front(&mut self) -> (r: Option<Self::ElemType>)
        ensures
            match r {
                Some(x) => old(self).contents().len() > 0 && x == old(self).contents().first()
                    && final(self).contents() == old(self).contents().drop_first(),
                None => old(self).contents().len() == 0 && final(self).contents() == old(self).contents(),
            },
    ;
}

/// Sequences whose elements are addressed by index in constant or
/// near-constant time.
pub trait RandomAccess: Sequential + ExactSized {
    /// Rotates the sequence `mid` places to the left: the first `mid`
    /// elements move to the back.
    fn rotate_left(&mut self, mid: usize)
        requires
            mid <= old(self).contents().len(),
        ensures
            final(self).contents() == old(self).contents().subrange(
                mid as int,
                old(self).contents().len() as int,
            ) + old(self).contents().subrange(0, mid as int),
    ;

    /// Rotates the sequence `mid` places to the right: the last `mid`
    /// elements move to the front.
    fn rotate_right(&mut self, mid: usize)
        requires
            mid <= old(self).contents().len(),
        ensures
            final(self).contents() == old(self).contents().subrange(
                old(self).contents().len() - mid,
                old(self).contents().len() as int,
            ) + old(self).contents().subrange(0, old(self).contents().len() - mid),
    ;

    /// The first position whose element the deterministic test `pred`
    /// rejects; every element before it is accepted.
    fn partition_point<P: Fn(&Self::ElemType) -> bool>(&self, pred: P) -> (r: usize)
        requires
            test_defined_on(&pred, self.contents()),
            test_deterministic(&pred),
        ensures
            r <= self.contents().len(),
            forall|i: int| 0 <= i < r ==> accepted(&pred, #[trigger] self.contents()[i]),
            r < self.contents().len() ==> !accepted(&pred, self.contents()[r as int]),
    ;

    /// Swaps the elements at positions `i` and `j`.
    fn swap(&mut self, i: usize, j: usize)
        requires
            i < old(self).contents().len(),
            j < old(self).contents().len(),
        ensures
            final(self).contents() == old(self).contents().update(
                i as int,
                old(self).contents()[j as int],
            ).update(j as int, old(self).contents()[i as int]),
    ;

    /// The element at position `index`, or `None` past the end.
    fn get(&self, index: usize) -> (r: Option<&Self::ElemType>)
        ensures
            match r {
                Some(x) => index < self.contents().len() && *x == self.contents()[index as int],
                None => index >= self.contents().len(),
            },
    ;

    /// Inserts an element at position `index`, shifting what follows
    /// towards the back.
    fn insert(&mut self, index: usize, x: Self::ElemType)
        requires
            index <= old(self).contents().len(),
        ensures
            final(self).contents() == old(self).contents().insert(index as int, x),
    ;

    /// Removes and returns the element at position `index`, moving the
    /// last element into its place.
    fn swap_remove_back(&mut self, index: usize) -> (r: Option<Self::ElemType>)
        requires
            index < old(self).contents().len(),
        ensures
            r == Some(old(self).contents()[index as int]),
            final(self).contents() == old(self).contents().update(
                index as int,
                old(self).contents().last(),
            ).drop_last(),
    ;
}

} // verus!
