//! `List<T>`: an owned sequence open at both ends, standing where a
//! linked list would: it offers front and back access and filtered
//! draining, but neither random access nor capacity management.

use vstd::prelude::*;

verus! {

use crate::elem::{extended_with, CollectionTrait, ExtendOwned, IntoIteratorOwned, Mutable, Owned};
use crate::exact_size::ExactSized;
use crate::iter::{DrainFilter, Iterable, IterableMut};
use crate::misc::{EmptyConstructible, Erasable};
use crate::sequential::{DoubleEnded, Sequential};
use crate::{HasDoubleEndedIterator, HasExactSizeIterator};
use vstd::slice::slice_index_get;

/// An owned sequence with front and back access.
pub struct List<T> {
    items: Vec<T>,
}

impl<T> CollectionTrait for List<T> {
    type ElemType = T;

    closed spec fn contents(&self) -> Seq<T> {
        self.items@
    }
}

impl<T> Mutable for List<T> {

}

impl<T> Owned for List<T> {

}

impl<T> HasExactSizeIterator for List<T> {

}

impl<T> HasDoubleEndedIterator for List<T> {

}

impl<T> ExtendOwned for List<T> {
    open spec fn one_extended(s: Seq<T>, x: T) -> Seq<T> {
        s.push(x)
    }

    fn extend_one(&mut self, x: T) {
        self.items.push(x);
    }

    #[verifier::loop_isolation(false)]
    fn extend_from_vec(&mut self, items: Vec<T>) {
        let mut items = items;
        let ghost step = |s: Seq<T>, x: T| Self::one_extended(s, x);
        let ghost goal = extended_with(self.contents(), items@, step);
        while items.len() > 0
            invariant
                extended_with(self.contents(), items@, step) == goal,
            decreases items@.len(),
        {
            let ghost prev = self.contents();
            let ghost before = items@;
            let x = items.remove(0);
            proof {
                assert(before.drop_first() =~= before.remove(0));
            }
            self.items.push(x);
            proof {
                assert(extended_with(prev, before, step) == extended_with(
                    step(prev, before[0]),
                    before.drop_first(),
                    step,
                ));
                assert(step(prev, before[0]) == prev.push(x));
            }
        }
    }
}

impl<T> IntoIteratorOwned for List<T> {
    fn into_elements(self) -> (r: Vec<T>) {
        self.items
    }
}

impl<T> EmptyConstructible for List<T> {
    fn new() -> (r: Self) {
        List { items: Vec::new() }
    }
}

impl<T> Erasable for List<T> {
    fn clear(&mut self) {
        self.items.clear()
    }
}

impl<T> ExactSized for List<T> {
    fn is_empty(&self) -> (r: bool) {
        self.items.len() == 0
    }

    fn len(&self) -> (r: usize) {
        self.items.len()
    }
}

impl<T> Iterable for List<T> {
    fn nth(&self, i: usize) -> (r: &T) {
        slice_index_get(self.items.as_slice(), i)
    }
}

impl<T> IterableMut for List<T> {
    fn set_nth(&mut self, i: usize, x: T) {
        let ghost before = self.items@;
        let _ = self.items.remove(i);
        self.items.insert(i, x);
        proof {
            assert(before.remove(i as int).insert(i as int, x) =~= before.update(i as int, x));
        }
    }
}

impl<T> Sequential for List<T> {
    fn back(&self) -> (r: Option<&T>) {
        if self.items.len() == 0 {
            None
        } else {
            Some(slice_index_get(self.items.as_slice(), self.items.len() - 1))
        }
    }

    fn append(&mut self, other: &mut Self) {
        self.items.append(&mut other.items)
    }

    fn push_back(&mut self, x: T) {
        self.items.push(x);
    }

    fn pop_back(&mut self) -> (r: Option<T>) {
        let r = self.items.pop();
        proof {
            if old(self).contents().len() > 0 {
                assert(old(self).contents().subrange(0, old(self).contents().len() - 1) =~= old(
                    self,
                ).contents().drop_last());
            }
        }
        r
    }

    fn remove(&mut self, at: usize) -> (r: Option<T>) {
        Some(self.items.remove(at))
    }

    fn split_off(&mut self, at: usize) -> (r: Self) {
        let tail = self.items.split_off(at);
        List { items: tail }
    }
}

impl<T> DoubleEnded for List<T> {
    fn front(&self) -> (r: Option<&T>) {
        if self.items.len() == 0 {
            None
        } else {
            Some(slice_index_get(self.items.as_slice(), 0))
        }
    }

    fn push_front(&mut self, x: T) {
        self.items.insert(0, x);
        proof {
            assert(self.contents() =~= seq![x] + old(self).contents());
        }
    }

    fn pop_front(&mut self) -> (r: Option<T>) {
        if self.items.len() == 0 {
            None
        } else {
            let x = self.items.remove(0);
            proof {
                assert(old(self).contents().remove(0) =~= old(self).contents().drop_first());
            }
            Some(x)
        }
    }
}

impl<T> DrainFilter for List<T> {
    fn drain_filter<P: Fn(&T) -> bool>(&mut self, pred: P) -> (r: Vec<T>) {
        crate::vec_impls::drain_filter_vec(&mut self.items, pred)
    }
}

} // verus!
