//! Traversal capabilities: reading elements in order, changing them in
//! place, and draining them out.
//!
//! Traversal is exposed positionally: a collection with these
//! capabilities can hand out the element at any position of its
//! `contents` view, so a loop over `0 .. len()` visits every element in
//! traversal order.

use vstd::prelude::*;

verus! {

use crate::elem::{AssociatedCollectionTrait, CollectionTrait, Mutable};
use crate::exact_size::ExactSized;
use crate::model::{accepted, test_defined_on, test_deterministic};

/// Collections whose elements can be read in traversal order.
pub trait Iterable: CollectionTrait {
    /// The element at position `i` of the traversal.
    fn nth(&self, i: usize) -> (r: &Self::ElemType)
        requires
            i < self.contents().len(),
        ensures
            *r == self.contents()[i as int],
    ;
}

/// Key-value collections whose entries can be read in traversal order.
pub trait AssociatedIterable: AssociatedCollectionTrait {
    /// The entry at position `i` of the traversal.
    fn entry_at(&self, i: usize) -> (r: &(Self::KeyType, Self::ValueType))
        requires
            i < self.contents().len(),
        ensures
            *r == self.contents()[i as int],
    ;
}

/// Collections whose elements can be overwritten in traversal order.
pub trait IterableMut: CollectionTrait + Mutable {
    /// Overwrites the element at position `i` of the traversal.
    fn set_nth(&mut self, i: usize, x: Self::ElemType)
        requires
            i < old(self).contents().len(),
        ensures
            final(self).contents() == old(self).contents().update(i as int, x),
    ;
}

/// Key-value collections whose values can be overwritten in traversal
/// order, keys staying as they are.
pub trait AssociatedIterableMut: AssociatedCollectionTrait + Mutable {
    /// Overwrites the value of the entry at position `i`.
    fn set_value_at(&mut self, i: usize, v: Self::ValueType)
        requires
            i < old(self).contents().len(),
        ensures
            final(self).contents() == old(self).contents().update(
                i as int,
                (old(self).contents()[i as int].0, v),
            ),
    ;
}

/// Collections that can hand out a contiguous range of their elements.
pub trait Range: CollectionTrait + ExactSized {
    /// The elements at positions `lo .. hi` of the traversal.
    fn range(&self, lo: usize, hi: usize) -> (r: &[Self::ElemType])
        requires
            lo <= hi <= self.contents().len(),
        ensures
            r@ == self.contents().subrange(lo as int, hi as int),
    ;
}

/// Ordered maps that can hand out the run of entries whose keys lie in
/// a half-open key range.
pub trait AssociatedRange: crate::associated::AssociatedMapOrd {
    /// The entries with keys from `lo` up to, but not including, `hi`.
    fn range_between(&self, lo: &Self::KeyType, hi: &Self::KeyType) -> (r: &[(
        Self::KeyType,
        Self::ValueType,
    )])
        requires
            Self::key_le(*lo, *hi),
        ensures
            r@ == self.contents().subrange(
                Self::split_point(self.contents(), *lo),
                Self::split_point(self.contents(), *hi),
            ),
            forall|j: int|
                0 <= j < r@.len() ==> Self::key_le(*lo, (#[trigger] r@[j]).0) && !Self::key_le(
                    *hi,
                    (#[trigger] r@[j]).0,
                ),
    ;
}

/// Collections that can be emptied while handing every element out.
pub trait DrainFull: CollectionTrait + Mutable {
    /// Removes every element and returns them in traversal order.
    fn drain(&mut self) -> (r: Vec<Self::ElemType>)
        ensures
            r@ == old(self).contents(),
            final(self).contents() == Seq::<Self::ElemType>::empty(),
    ;
}

/// Key-value collections that can be emptied while handing every entry
/// out.
pub trait AssociatedDrainFull: AssociatedCollectionTrait + Mutable {
    /// Removes every entry and returns them in traversal order.
    fn drain(&mut self) -> (r: Vec<(Self::KeyType, Self::ValueType)>)
        ensures
            r@ == old(self).contents(),
            final(self).contents() == Seq::<Self::ElemType>::empty(),
    ;
}

/// Collections that can drain a contiguous range of their elements.
pub trait DrainRange: CollectionTrait + Mutable + ExactSized {
    /// Removes the elements at positions `lo .. hi` and returns them in
    /// traversal order.
    fn drain_range(&mut self, lo: usize, hi: usize) -> (r: Vec<Self::ElemType>)
        requires
            lo <= hi <= old(self).contents().len(),
        ensures
            r@ == old(self).contents().subrange(lo as int, hi as int),
            final(self).contents() == old(self).contents().subrange(0, lo as int) + old(self).contents().subrange(hi as int, old(self).contents().len() as int),
    ;
}

/// Collections that can drain exactly the elements a test accepts.
pub trait DrainFilter: CollectionTrait + Mutable {
    /// Removes the elements the deterministic test `pred` accepts and
    /// returns them in traversal order; the others keep their order.
    fn drain_filter<P: Fn(&Self::ElemType) -> bool>(&mut self, pred: P) -> (r: Vec<
        Self::ElemType,
    >)
        requires
            test_defined_on(&pred, old(self).contents()),
            test_deterministic(&pred),
        ensures
            r@ == old(self).contents().filter(|x: Self::ElemType| accepted(&pred, x)),
            final(self).contents() == old(self).contents().filter(
                |x: Self::ElemType| !accepted(&pred, x),
            ),
    ;
}

/// Sets that can drain exactly the elements a test accepts.  The test
/// sees a shared reference, as set elements are never changed in place.
pub trait AssociatedDrainFilterSet: CollectionTrait + Mutable {
    /// Removes the elements the deterministic test `pred` accepts and
    /// returns them in traversal order; the others keep their order.
    fn drain_filter<P: Fn(&Self::ElemType) -> bool>(&mut self, pred: P) -> (r: Vec<
        Self::ElemType,
    >)
        requires
            test_defined_on(&pred, old(self).contents()),
            test_deterministic(&pred),
        ensures
            r@ == old(self).contents().filter(|x: Self::ElemType| accepted(&pred, x)),
            final(self).contents() == old(self).contents().filter(
                |x: Self::ElemType| !accepted(&pred, x),
            ),
    ;
}

/// Key-value collections that can drain exactly the entries a test
/// accepts.
pub trait AssociatedDrainFilter: AssociatedCollectionTrait + Mutable {
    /// Removes the entries the deterministic test `pred` accepts and
    /// returns them in traversal order; the others keep their order.
    fn drain_filter<P: Fn(&(Self::KeyType, Self::ValueType)) -> bool>(&mut self, pred: P) -> (r:
        Vec<(Self::KeyType, Self::ValueType)>)
        requires
            test_defined_on(&pred, old(self).contents()),
            test_deterministic(&pred),
        ensures
            r@ == old(self).contents().filter(|x: Self::ElemType| accepted(&pred, x)),
            final(self).contents() == old(self).contents().filter(
                |x: Self::ElemType| !accepted(&pred, x),
            ),
    ;
}

} // verus!
