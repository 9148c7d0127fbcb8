//! The root capability: having elements at all.
//!
//! `CollectionTrait` gives every collection a mathematical view of its
//! contents as a sequence, in the order a traversal would visit them.
//! Every other capability trait states its contract over this view.

use vstd::prelude::*;

verus! {

/// The root trait of every collection: an element type, and a view of
/// the collection's contents as a sequence in traversal order.
pub trait CollectionTrait {
    type ElemType;

    /// The elements this collection holds, in traversal order.
    spec fn contents(&self) -> Seq<Self::ElemType>;
}

/// Key-value collections.  The element type of such a collection is the
/// key-value pair, so its `contents` view is a sequence of pairs.
pub trait AssociatedCollectionTrait: CollectionTrait<
    ElemType = (<Self as AssociatedCollectionTrait>::KeyType, <Self as AssociatedCollectionTrait>::ValueType),
> {
    type KeyType;

    type ValueType;
}

/// Marker: the collection's elements can be changed in place.
pub trait Mutable: CollectionTrait {

}

/// Marker: the collection owns its elements, so it can be consumed,
/// extended and drained.
pub trait Owned: Mutable {

}

/// Collections that can grow by absorbing elements.
///
/// How one absorbed element changes the contents differs by container
/// (a sequence appends it, an ordered set files it at its place), so the
/// trait leaves that step abstract as `one_extended` and each container
/// defines it; the contracts then pin every outcome exactly.
pub trait ExtendOwned: CollectionTrait {
    /// The contents after absorbing one element into contents `s`.
    spec fn one_extended(s: Seq<Self::ElemType>, x: Self::ElemType) -> Seq<Self::ElemType>;

    /// Absorbs one element.
    fn extend_one(&mut self, x: Self::ElemType)
        ensures
            final(self).contents() == Self::one_extended(old(self).contents(), x),
    ;

    /// Absorbs every element of `items`, front to back.
    fn extend_from_vec(&mut self, items: Vec<Self::ElemType>)
        ensures
            final(self).contents() == extended_with(
                old(self).contents(),
                items@,
                |s: Seq<Self::ElemType>, x: Self::ElemType| Self::one_extended(s, x),
            ),
    ;
}

/// The contents after absorbing `items`, front to back, one `step` at
/// a time.
pub open spec fn extended_with<E>(
    s: Seq<E>,
    items: Seq<E>,
    step: spec_fn(Seq<E>, E) -> Seq<E>,
) -> Seq<E>
    decreases items.len(),
{
    if items.len() == 0 {
        s
    } else {
        extended_with(step(s, items[0]), items.drop_first(), step)
    }
}

/// Collections that can be consumed into their elements.
pub trait IntoIteratorOwned: CollectionTrait + Sized {
    /// Consumes the collection, yielding its elements in traversal order.
    fn into_elements(self) -> (r: Vec<Self::ElemType>)
        ensures
            r@ == self.contents(),
    ;
}

} // verus!
