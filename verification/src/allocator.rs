//! Allocator capabilities: naming the allocator a collection draws
//! from, and building a collection over a given allocator value.
//!
//! The collections of this library all draw from the global allocator,
//! which carries no state, so the allocator type here is a plain value
//! handed around by copy.

use vstd::prelude::*;

verus! {

use crate::capacity::CapacityAware;
use crate::elem::CollectionTrait;

/// The global allocator, as a value.
pub struct GlobalAllocator;

/// Collections that name and hand out the allocator they draw from.
pub trait AllocatorAware {
    /// The allocator type this collection draws from.
    type Allocator;

    /// The allocator value this collection was built over.
    spec fn spec_allocator(&self) -> Self::Allocator;

    /// Returns the allocator this collection draws from.
    fn allocator(&self) -> (r: Self::Allocator)
        ensures
            r == self.spec_allocator(),
    ;
}

/// Collections that can be built empty over a given allocator.
pub trait AllocatorConstructible: AllocatorAware + CollectionTrait + Sized {
    /// Builds an empty collection over the given allocator.
    fn new_in(alloc: Self::Allocator) -> (r: Self)
        ensures
            r.contents() == Seq::<Self::ElemType>::empty(),
            r.spec_allocator() == alloc,
    ;
}

/// Collections that can be built empty over a given allocator with
/// capacity reserved.
pub trait AllocatorCapacityConstructible: AllocatorConstructible + CapacityAware {
    /// Builds an empty collection over the given allocator, reporting
    /// exactly the given capacity.
    fn with_capacity_in(capacity: usize, alloc: Self::Allocator) -> (r: Self)
        ensures
            r.contents() == Seq::<Self::ElemType>::empty(),
            r.spec_capacity() == capacity,
            r.spec_allocator() == alloc,
    ;
}

} // verus!
