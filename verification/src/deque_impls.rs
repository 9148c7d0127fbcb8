//! The capability impls for the standard double-ended queue
//! `VecDeque<T>`: an owned, random-access sequence open at both ends.

use std::collections::VecDeque;
use vstd::prelude::*;

verus! {

use crate::elem::{extended_with, CollectionTrait, ExtendOwned, IntoIteratorOwned, Mutable, Owned};
use crate::exact_size::ExactSized;
use crate::iter::{DrainRange, Iterable, IterableMut};
use crate::misc::{EmptyConstructible, Erasable};
use crate::model::accepted;
use crate::sequential::{DoubleEnded, RandomAccess, Sequential};
use crate::{HasDoubleEndedIterator, HasExactSizeIterator, HasRandomAccessIterator};
use vstd::pervasive::unreached;

impl<T> CollectionTrait for VecDeque<T> {
    type ElemType = T;

    open spec fn contents(&self) -> Seq<T> {
        self@
    }
}

impl<T> Mutable for VecDeque<T> {

}

impl<T> Owned for VecDeque<T> {

}

impl<T> HasExactSizeIterator for VecDeque<T> {

}

impl<T> HasDoubleEndedIterator for VecDeque<T> {

}

impl<T> HasRandomAccessIterator for VecDeque<T> {

}

impl<T> ExtendOwned for VecDeque<T> {
    open spec fn one_extended(s: Seq<T>, x: T) -> Seq<T> {
        s.push(x)
    }

    fn extend_one(&mut self, x: T) {
        self.push_back(x);
    }

    #[verifier::loop_isolation(false)]
    fn extend_from_vec(&mut self, items: Vec<T>) {
        let mut items = items;
        let ghost step = |s: Seq<T>, x: T| Self::one_extended(s, x);
        let ghost goal = extended_with(self@, items@, step);
        while items.len() > 0
            invariant
                extended_with(self@, items@, step) == goal,
            decreases items@.len(),
        {
            let ghost prev = self@;
            let ghost before = items@;
            let x = items.remove(0);
            proof {
                assert(before.drop_first() =~= before.remove(0));
            }
            self.push_back(x);
            proof {
                assert(extended_with(prev, before, step) == extended_with(
                    step(prev, before[0]),
                    before.drop_first(),
                    step,
                ));
                assert(step(prev, before[0]) == prev.push(x));
            }
        }
    }
}

impl<T> IntoIteratorOwned for VecDeque<T> {
    #[verifier::loop_isolation(false)]
    fn into_elements(self) -> (r: Vec<T>) {
        let mut q = self;
        let ghost orig = q@;
        let mut out: Vec<T> = Vec::new();
        while q.len() > 0
            invariant
                out@ + q@ == orig,
            decreases q@.len(),
        {
            match q.pop_front() {
                Some(x) => {
                    out.push(x);
                    proof {
                        assert(out@ + q@ =~= orig);
                    }
                },
                None => {
                    proof {
                        assert(false);
                    }
                },
            }
        }
        proof {
            assert(out@ =~= out@ + q@);
        }
        out
    }
}

impl<T> EmptyConstructible for VecDeque<T> {
    fn new() -> (r: Self) {
        VecDeque::new()
    }
}

impl<T> Erasable for VecDeque<T> {
    fn clear(&mut self) {
        VecDeque::clear(self)
    }
}

impl<T> ExactSized for VecDeque<T> {
    fn is_empty(&self) -> (r: bool) {
        self.len() == 0
    }

    fn len(&self) -> (r: usize) {
        VecDeque::len(self)
    }
}

impl<T> Iterable for VecDeque<T> {
    fn nth(&self, i: usize) -> (r: &T) {
        &self[i]
    }
}

impl<T> IterableMut for VecDeque<T> {
    fn set_nth(&mut self, i: usize, x: T) {
        let ghost before = self@;
        let _ = VecDeque::remove(self, i);
        VecDeque::insert(self, i, x);
        proof {
            assert(before.remove(i as int).insert(i as int, x) =~= before.update(i as int, x));
        }
    }
}

impl<T> Sequential for VecDeque<T> {
    fn back(&self) -> (r: Option<&T>) {
        if self.len() == 0 {
            None
        } else {
            Some(&self[self.len() - 1])
        }
    }

    fn append(&mut self, other: &mut Self) {
        VecDeque::append(self, other)
    }

    fn push_back(&mut self, x: T) {
        VecDeque::push_back(self, x);
    }

    fn pop_back(&mut self) -> (r: Option<T>) {
        let r = VecDeque::pop_back(self);
        proof {
            if old(self)@.len() > 0 {
                assert(old(self)@.subrange(0, old(self)@.len() - 1) =~= old(self)@.drop_last());
            }
        }
        r
    }

    fn remove(&mut self, at: usize) -> (r: Option<T>) {
        VecDeque::remove(self, at)
    }

    fn split_off(&mut self, at: usize) -> (r: Self) {
        VecDeque::split_off(self, at)
    }
}

impl<T> DoubleEnded for VecDeque<T> {
    fn front(&self) -> (r: Option<&T>) {
        if self.len() == 0 {
            None
        } else {
            Some(&self[0])
        }
    }

    fn push_front(&mut self, x: T) {
        VecDeque::push_front(self, x);
    }

    fn pop_front(&mut self) -> (r: Option<T>) {
        let r = VecDeque::pop_front(self);
        proof {
            if old(self)@.len() > 0 {
                assert(old(self)@.subrange(1, old(self)@.len() as int) =~= old(
                    self,
                )@.drop_first());
            }
        }
        r
    }
}

impl<T> RandomAccess for VecDeque<T> {
    fn rotate_left(&mut self, mid: usize) {
        let mut tail = VecDeque::split_off(self, mid);
        tail.append(self);
        VecDeque::append(self, &mut tail);
        proof {
            assert(self@ =~= old(self)@.subrange(mid as int, old(self)@.len() as int) + old(
                self,
            )@.subrange(0, mid as int));
        }
    }

    fn rotate_right(&mut self, mid: usize) {
        let at = self.len() - mid;
        let mut tail = VecDeque::split_off(self, at);
        tail.append(self);
        VecDeque::append(self, &mut tail);
        proof {
            assert(self@ =~= old(self)@.subrange(
                old(self)@.len() - mid,
                old(self)@.len() as int,
            ) + old(self)@.subrange(0, old(self)@.len() - mid));
        }
    }

    fn partition_point<P: Fn(&T) -> bool>(&self, pred: P) -> (r: usize) {
        let n = self.len();
        let mut i: usize = 0;
        loop
            invariant_except_break
                i <= n,
                n == self@.len(),
                forall|k: int| 0 <= k < i ==> accepted(&pred, #[trigger] self@[k]),
                crate::model::test_defined_on(&pred, self@),
                crate::model::test_deterministic(&pred),
            ensures
                i <= self@.len(),
                forall|k: int| 0 <= k < i ==> accepted(&pred, #[trigger] self@[k]),
                i < self@.len() ==> !accepted(&pred, self@[i as int]),
            decreases n - i,
        {
            if i >= n {
                break ;
            }
            let x = &self[i];
            proof {
                assert(self@.contains(self@[i as int]));
            }
            if !pred(x) {
                break ;
            }
            i += 1;
        }
        i
    }

    fn swap(&mut self, i: usize, j: usize) {
        if i == j {
            proof {
                assert(old(self)@.update(i as int, old(self)@[j as int]).update(
                    j as int,
                    old(self)@[i as int],
                ) =~= old(self)@);
            }
        } else {
            let a = if i < j {
                i
            } else {
                j
            };
            let b = if i < j {
                j
            } else {
                i
            };
            let ghost s = self@;
            let xb = match VecDeque::remove(self, b) {
                Some(x) => x,
                None => unreached(),
            };
            let xa = match VecDeque::remove(self, a) {
                Some(x) => x,
                None => unreached(),
            };
            VecDeque::insert(self, a, xb);
            VecDeque::insert(self, b, xa);
            proof {
                assert(self@ =~= s.update(i as int, s[j as int]).update(j as int, s[i as int]));
            }
        }
    }

    fn get(&self, index: usize) -> (r: Option<&T>) {
        if index < self.len() {
            Some(&self[index])
        } else {
            None
        }
    }

    fn insert(&mut self, index: usize, x: T) {
        VecDeque::insert(self, index, x)
    }

    fn swap_remove_back(&mut self, index: usize) -> (r: Option<T>) {
        let n = self.len();
        let last = match VecDeque::pop_back(self) {
            Some(x) => x,
            None => unreached(),
        };
        if index == n - 1 {
            proof {
                assert(old(self)@.update(index as int, old(self)@.last()).drop_last() =~= old(
                    self,
                )@.drop_last());
            }
            Some(last)
        } else {
            let cur = match VecDeque::remove(self, index) {
                Some(x) => x,
                None => unreached(),
            };
            VecDeque::insert(self, index, last);
            proof {
                assert(self@ =~= old(self)@.update(index as int, old(self)@.last()).drop_last());
            }
            Some(cur)
        }
    }
}

impl<T> DrainRange for VecDeque<T> {
    #[verifier::loop_isolation(false)]
    fn drain_range(&mut self, lo: usize, hi: usize) -> (r: Vec<T>) {
        let ghost orig = self@;
        let mut out: Vec<T> = Vec::new();
        while out.len() < hi - lo
            invariant
                lo <= hi <= orig.len(),
                out@.len() <= hi - lo,
                out@ == orig.subrange(lo as int, lo + out@.len()),
                self@ == orig.subrange(0, lo as int) + orig.subrange(
                    lo + out@.len(),
                    orig.len() as int,
                ),
            decreases hi - lo - out@.len(),
        {
            let x = match VecDeque::remove(self, lo) {
                Some(x) => x,
                None => unreached(),
            };
            out.push(x);
            proof {
                assert(out@ =~= orig.subrange(lo as int, lo + out@.len()));
                assert(self@ =~= orig.subrange(0, lo as int) + orig.subrange(
                    lo + out@.len(),
                    orig.len() as int,
                ));
            }
        }
        proof {
            assert(out@ =~= orig.subrange(lo as int, hi as int));
        }
        out
    }
}

} // verus!
