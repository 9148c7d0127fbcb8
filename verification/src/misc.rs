//! Small constructive capabilities: building empty, erasing, membership.

use vstd::prelude::*;

verus! {

use crate::elem::{AssociatedCollectionTrait, CollectionTrait};
use crate::model::entries_of;

/// Collections that can be built empty.
pub trait EmptyConstructible: CollectionTrait + Sized {
    /// Builds an empty collection.
    fn new() -> (r: Self)
        ensures
            r.contents() == Seq::<Self::ElemType>::empty(),
    ;
}

/// Collections whose contents can be erased in place.
pub trait Erasable: CollectionTrait {
    /// Removes every element.
    fn clear(&mut self)
        ensures
            final(self).contents() == Seq::<Self::ElemType>::empty(),
    ;
}

/// Collections that can answer membership queries for an element.
pub trait Contains: CollectionTrait {
    /// Checks whether the collection holds an element equal to `x`.
    fn contains(&self, x: &Self::ElemType) -> (r: bool)
        ensures
            r == self.contents().contains(*x),
    ;
}

/// Key-value collections that can answer membership queries for a key.
pub trait AssociatedContains: AssociatedCollectionTrait {
    /// Checks whether the collection holds an entry under key `k`.
    fn contains_key(&self, k: &Self::KeyType) -> (r: bool)
        ensures
            r == entries_of(self.contents()).dom().contains(*k),
    ;
}

} // verus!
