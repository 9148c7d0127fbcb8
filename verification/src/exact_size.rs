//! Collections that know their length.

use vstd::prelude::*;

verus! {

use crate::elem::CollectionTrait;

/// Collections that can report how many elements they hold.
pub trait ExactSized: CollectionTrait {
    /// Checks whether the collection is empty.
    fn is_empty(&self) -> (r: bool)
        ensures
            r == (self.contents().len() == 0),
    ;

    /// Returns the number of elements held.
    fn len(&self) -> (r: usize)
        ensures
            r == self.contents().len(),
    ;
}

} // verus!
