//! Capacity capabilities: reporting spare room, building with room
//! reserved, shrinking and reserving.
//!
//! The containers of this crate that claim these capabilities track the
//! capacity they report themselves and never over-allocate it, so every
//! contract here pins the reported capacity exactly.

use vstd::prelude::*;

verus! {

use crate::exact_size::ExactSized;

/// The one way a reservation can fail: the requested length does not
/// fit in a machine word.
pub struct ReserveOverflow;

/// Collections that report how many elements they can hold without
/// growing.
pub trait CapacityAware: ExactSized {
    /// The capacity this collection currently reports.
    spec fn spec_capacity(&self) -> nat;

    /// Returns the number of elements the collection can hold without
    /// reallocating.
    fn capacity(&self) -> (r: usize)
        ensures
            r == self.spec_capacity(),
            r >= self.contents().len(),
    ;
}

/// Collections that can be built empty with capacity reserved.
pub trait CapacityConstructible: CapacityAware + Sized {
    /// Builds an empty collection that reports exactly the given
    /// capacity.
    fn with_capacity(capacity: usize) -> (r: Self)
        ensures
            r.contents() == Seq::<Self::ElemType>::empty(),
            r.spec_capacity() == capacity,
    ;
}

/// Collections whose capacity can shrink towards their length.
pub trait CapacityShrink: CapacityAware {
    /// Shrinks the reported capacity to the current length.
    fn shrink_to_fit(&mut self)
        ensures
            final(self).contents() == old(self).contents(),
            final(self).spec_capacity() == old(self).contents().len(),
    ;

    /// Shrinks the reported capacity towards `min_capacity`, never below
    /// the current length and never growing.
    fn shrink_to(&mut self, min_capacity: usize)
        ensures
            final(self).contents() == old(self).contents(),
            final(self).spec_capacity() == if old(self).spec_capacity() <= min_capacity {
                old(self).spec_capacity()
            } else if old(self).contents().len() >= min_capacity {
                old(self).contents().len()
            } else {
                min_capacity as nat
            },
    ;
}

/// Collections that can reserve room for more elements.
pub trait CapacityReserve: CapacityAware {
    /// Reserves room for at least `additional` more elements.
    fn reserve(&mut self, additional: usize)
        requires
            old(self).contents().len() + additional <= usize::MAX,
        ensures
            final(self).contents() == old(self).contents(),
            final(self).spec_capacity() == if old(self).spec_capacity() >= old(self).contents().len() + additional {
                old(self).spec_capacity()
            } else {
                (old(self).contents().len() + additional) as nat
            },
    ;

    /// Tries to reserve room for at least `additional` more elements;
    /// fails exactly when the requested length does not fit in a
    /// machine word, leaving the collection as it was.
    fn try_reserve(&mut self, additional: usize) -> (r: Result<(), ReserveOverflow>)
        ensures
            final(self).contents() == old(self).contents(),
            (r is Ok) == (old(self).contents().len() + additional <= usize::MAX),
            r is Ok ==> final(self).spec_capacity() == if old(self).spec_capacity() >= old(self).contents().len() + additional {
                old(self).spec_capacity()
            } else {
                (old(self).contents().len() + additional) as nat
            },
            r is Err ==> final(self).spec_capacity() == old(self).spec_capacity(),
    ;
}

/// Collections that can reserve room without over-allocation.  The
/// containers of this crate never over-allocate their reported
/// capacity, so these operations promise the same exact outcome as
/// their counterparts in `CapacityReserve`.
pub trait CapacityReserveExact: CapacityReserve {
    /// Reserves room for exactly `additional` more elements.
    fn reserve_exact(&mut self, additional: usize)
        requires
            old(self).contents().len() + additional <= usize::MAX,
        ensures
            final(self).contents() == old(self).contents(),
            final(self).spec_capacity() == if old(self).spec_capacity() >= old(self).contents().len() + additional {
                old(self).spec_capacity()
            } else {
                (old(self).contents().len() + additional) as nat
            },
    ;

    /// Tries to reserve room for exactly `additional` more elements;
    /// fails exactly when the requested length does not fit in a
    /// machine word, leaving the collection as it was.
    fn try_reserve_exact(&mut self, additional: usize) -> (r: Result<(), ReserveOverflow>)
        ensures
            final(self).contents() == old(self).contents(),
            (r is Ok) == (old(self).contents().len() + additional <= usize::MAX),
            r is Ok ==> final(self).spec_capacity() == if old(self).spec_capacity() >= old(self).contents().len() + additional {
                old(self).spec_capacity()
            } else {
                (old(self).contents().len() + additional) as nat
            },
            r is Err ==> final(self).spec_capacity() == old(self).spec_capacity(),
    ;
}

} // verus!
