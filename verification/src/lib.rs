//! Capability traits for collection types, with verified contracts.
//!
//! Each trait names one orthogonal operation a collection may support
//! (having a length, pushing at the back, looking a key up), and states
//! what that operation does over a mathematical view of the collection's
//! contents.  Composite traits at the bottom of this file bundle the
//! capabilities into ready-made bounds such as "a collection" or
//! "an ordered map", so that downstream generic code can express one
//! bound instead of five and still reason exactly about every call.

use vstd::prelude::*;

pub mod allocator;
pub mod associated;
pub mod bag;
pub mod capacity;
pub mod deque_impls;
pub mod elem;
pub mod exact_size;
pub mod group;
pub mod iter;
pub mod laws;
pub mod list;
pub mod misc;
pub mod model;
pub mod ord_map;
pub mod ord_set;
pub mod sequential;
pub mod support;
pub mod vec_impls;
pub mod vec_map;
pub mod vec_set;

verus! {

use crate::elem::{AssociatedCollectionTrait, CollectionTrait, ExtendOwned, IntoIteratorOwned};

/// Collections of elements (a growable array, a deque, a set).
pub trait Collection:
    CollectionTrait
    + iter::Iterable
    + exact_size::ExactSized
    + IntoIteratorOwned
    + ExtendOwned
    + misc::EmptyConstructible
    + misc::Erasable
    + HasExactSizeIterator
{
}

impl<
    C: CollectionTrait
        + iter::Iterable
        + exact_size::ExactSized
        + IntoIteratorOwned
        + ExtendOwned
        + misc::EmptyConstructible
        + misc::Erasable
        + HasExactSizeIterator,
> Collection for C {

}

/// Associated collections: key-value maps whose element type is the
/// key-value pair.
pub trait AssociatedCollection:
    Collection
    + AssociatedCollectionTrait
    + iter::AssociatedIterable
    + misc::AssociatedContains
    + HasAssociatedExactSizeIterator
{
}

impl<
    C: Collection
        + AssociatedCollectionTrait
        + iter::AssociatedIterable
        + misc::AssociatedContains
        + HasAssociatedExactSizeIterator,
> AssociatedCollection for C {

}

/// Marker: traversing the collection visits exactly `len()` elements.
pub trait HasExactSizeIterator {

}

/// Marker: traversing the associated collection visits exactly `len()`
/// entries.
pub trait HasAssociatedExactSizeIterator {

}

/// Marker: the collection can be traversed from either end.
pub trait HasDoubleEndedIterator {

}

/// Marker: any element can be reached in constant time during traversal.
pub trait HasRandomAccessIterator {

}

/// Collections that occupy a contiguous region of memory.
pub trait ContiguousCollection: Collection + sequential::Contiguous {

}

impl<C: Collection + sequential::Contiguous> ContiguousCollection for C {

}

/// Collections that behave as a sequence accessed from the back.
pub trait SequentialCollection: Collection + sequential::Sequential {

}

impl<C: Collection + sequential::Sequential> SequentialCollection for C {

}

/// Sequences that can be read and changed at both ends.
pub trait DoubleEndedCollection:
    Collection + sequential::DoubleEnded + HasDoubleEndedIterator
{
}

impl<C: Collection + sequential::DoubleEnded + HasDoubleEndedIterator> DoubleEndedCollection for C {

}

/// Sequences whose elements are addressed by index.
pub trait RandomAccessCollection:
    Collection + sequential::RandomAccess + HasRandomAccessIterator
{
}

impl<C: Collection + sequential::RandomAccess + HasRandomAccessIterator> RandomAccessCollection for C {

}

/// Collections with set semantics: membership, subset tests, set algebra.
pub trait SetContainer<S = ()>:
    Collection + associated::AssociatedSet + associated::AssociatedSetOperation<S>
{
}

impl<S, C: Collection + associated::AssociatedSet + associated::AssociatedSetOperation<S>> SetContainer<
    S,
> for C {

}

/// Sets that keep their elements ordered.
pub trait OrderedSet<S = ()>: SetContainer<S> + associated::AssociatedSetOrd {

}

impl<S, C: SetContainer<S> + associated::AssociatedSetOrd> OrderedSet<S> for C {

}

/// Collections with map semantics: key lookup, insertion, removal.
pub trait MapContainer<S = ()>:
    AssociatedCollection + associated::AssociatedMap + associated::AssociatedMapIter<S>
{
}

impl<
    S,
    C: AssociatedCollection + associated::AssociatedMap + associated::AssociatedMapIter<S>,
> MapContainer<S> for C {

}

/// Maps that keep their entries ordered by key.
pub trait OrderedMap<S = ()>: MapContainer<S> + associated::AssociatedMapOrd {

}

impl<S, C: MapContainer<S> + associated::AssociatedMapOrd> OrderedMap<S> for C {

}

/// Collections that expose the allocator they draw from.
pub trait AllocatorAwareCollection:
    Collection + allocator::AllocatorAware + allocator::AllocatorConstructible
{
}

impl<C: Collection + allocator::AllocatorAware + allocator::AllocatorConstructible> AllocatorAwareCollection for C {

}

/// Collections that report and manage their spare capacity.
pub trait CapacityAwareCollection:
    Collection
    + capacity::CapacityAware
    + capacity::CapacityConstructible
    + capacity::CapacityShrink
    + capacity::CapacityReserve
{
}

impl<
    C: Collection
        + capacity::CapacityAware
        + capacity::CapacityConstructible
        + capacity::CapacityShrink
        + capacity::CapacityReserve,
> CapacityAwareCollection for C {

}

/// Associated collections that report and manage their spare capacity.
pub trait AssociatedCapacityAwareCollection:
    AssociatedCollection
    + capacity::CapacityAware
    + capacity::CapacityConstructible
    + capacity::CapacityShrink
    + capacity::CapacityReserve
{
}

impl<
    C: AssociatedCollection
        + capacity::CapacityAware
        + capacity::CapacityConstructible
        + capacity::CapacityShrink
        + capacity::CapacityReserve,
> AssociatedCapacityAwareCollection for C {

}

} // verus!
