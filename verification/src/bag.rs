//! `Bag<T>`: an owned collection that only accumulates, traverses and
//! drains its elements, standing where a priority heap would in the
//! capability taxonomy: it can be traversed and fully drained but has
//! no sequential, set or map access, and it tracks the capacity it
//! reports itself.

use vstd::prelude::*;

verus! {

use crate::capacity::{CapacityAware, CapacityConstructible, CapacityShrink};
use crate::elem::{extended_with, CollectionTrait, ExtendOwned, IntoIteratorOwned, Mutable, Owned};
use crate::exact_size::ExactSized;
use crate::iter::{DrainFull, Iterable};
use crate::misc::{EmptyConstructible, Erasable};
use crate::HasExactSizeIterator;
use vstd::slice::slice_index_get;

/// An owned collection that accumulates elements in arrival order.
/// The capacity it reports is the larger of the capacity last asked
/// for and the number of elements held.
pub struct Bag<T> {
    items: Vec<T>,
    cap: usize,
}

impl<T> CollectionTrait for Bag<T> {
    type ElemType = T;

    closed spec fn contents(&self) -> Seq<T> {
        self.items@
    }
}

impl<T> Mutable for Bag<T> {

}

impl<T> Owned for Bag<T> {

}

impl<T> HasExactSizeIterator for Bag<T> {

}

impl<T> ExtendOwned for Bag<T> {
    open spec fn one_extended(s: Seq<T>, x: T) -> Seq<T> {
        s.push(x)
    }

    fn extend_one(&mut self, x: T) {
        self.items.push(x);
    }

    #[verifier::loop_isolation(false)]
    fn extend_from_vec(&mut self, items: Vec<T>) {
        let mut items = items;
        let ghost step = |s: Seq<T>, x: T| Self::one_extended(s, x);
        let ghost goal = extended_with(self.contents(), items@, step);
        while items.len() > 0
            invariant
                extended_with(self.contents(), items@, step) == goal,
            decreases items@.len(),
        {
            let ghost prev = self.contents();
            let ghost before = items@;
            let x = items.remove(0);
            proof {
                assert(before.drop_first() =~= before.remove(0));
            }
            self.extend_one(x);
            proof {
                assert(extended_with(prev, before, step) == extended_with(
                    step(prev, before[0]),
                    before.drop_first(),
                    step,
                ));
                assert(step(prev, before[0]) == prev.push(x));
            }
        }
    }
}

impl<T> IntoIteratorOwned for Bag<T> {
    fn into_elements(self) -> (r: Vec<T>) {
        self.items
    }
}

impl<T> EmptyConstructible for Bag<T> {
    fn new() -> (r: Self) {
        Bag { items: Vec::new(), cap: 0 }
    }
}

impl<T> Erasable for Bag<T> {
    fn clear(&mut self) {
        self.items.clear()
    }
}

impl<T> ExactSized for Bag<T> {
    fn is_empty(&self) -> (r: bool) {
        self.items.len() == 0
    }

    fn len(&self) -> (r: usize) {
        self.items.len()
    }
}

impl<T> Iterable for Bag<T> {
    fn nth(&self, i: usize) -> (r: &T) {
        slice_index_get(self.items.as_slice(), i)
    }
}

impl<T> DrainFull for Bag<T> {
    fn drain(&mut self) -> (r: Vec<T>) {
        let out = self.items.split_off(0);
        proof {
            assert(out@ =~= old(self).contents());
            assert(self.contents() =~= Seq::<T>::empty());
        }
        out
    }
}

impl<T> CapacityAware for Bag<T> {
    closed spec fn spec_capacity(&self) -> nat {
        if self.cap >= self.items@.len() {
            self.cap as nat
        } else {
            self.items@.len()
        }
    }

    fn capacity(&self) -> (r: usize) {
        if self.cap >= self.items.len() {
            self.cap
        } else {
            self.items.len()
        }
    }
}

impl<T> CapacityConstructible for Bag<T> {
    fn with_capacity(capacity: usize) -> (r: Self) {
        Bag { items: Vec::new(), cap: capacity }
    }
}

impl<T> CapacityShrink for Bag<T> {
    fn shrink_to_fit(&mut self) {
        self.cap = self.items.len();
    }

    fn shrink_to(&mut self, min_capacity: usize) {
        let effective = self.capacity();
        if effective > min_capacity {
            if self.items.len() >= min_capacity {
                self.cap = self.items.len();
            } else {
                self.cap = min_capacity;
            }
        }
    }
}

} // verus!
