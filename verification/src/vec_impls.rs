//! The capability impls for the standard growable array `Vec<T>`: a
//! contiguous, random-access, owned sequence over the global allocator.

use vstd::prelude::*;

verus! {

use crate::allocator::{AllocatorAware, AllocatorConstructible, GlobalAllocator};
use crate::elem::{extended_with, CollectionTrait, ExtendOwned, IntoIteratorOwned, Mutable, Owned};
use crate::exact_size::ExactSized;
use crate::iter::{DrainFilter, DrainRange, Iterable, IterableMut, Range};
use crate::misc::{EmptyConstructible, Erasable};
use crate::model::accepted;
use crate::sequential::{Contiguous, RandomAccess, Sequential};
use crate::{HasDoubleEndedIterator, HasExactSizeIterator, HasRandomAccessIterator};
use vstd::slice::{slice_index_get, slice_subrange};

impl<T> CollectionTrait for Vec<T> {
    type ElemType = T;

    open spec fn contents(&self) -> Seq<T> {
        self@
    }
}

impl<T> Mutable for Vec<T> {

}

impl<T> Owned for Vec<T> {

}

impl<T> HasExactSizeIterator for Vec<T> {

}

impl<T> HasDoubleEndedIterator for Vec<T> {

}

impl<T> HasRandomAccessIterator for Vec<T> {

}

impl<T> ExtendOwned for Vec<T> {
    open spec fn one_extended(s: Seq<T>, x: T) -> Seq<T> {
        s.push(x)
    }

    fn extend_one(&mut self, x: T) {
        self.push(x);
    }

    #[verifier::loop_isolation(false)]
    fn extend_from_vec(&mut self, items: Vec<T>) {
        let mut items = items;
        let ghost step = |s: Seq<T>, x: T| Self::one_extended(s, x);
        let ghost goal = extended_with(self@, items@, step);
        while items.len() > 0
            invariant
                extended_with(self@, items@, step) == goal,
            decreases items@.len(),
        {
            let ghost prev = self@;
            let ghost before = items@;
            let x = items.remove(0);
            proof {
                assert(before.drop_first() =~= before.remove(0));
            }
            self.push(x);
            proof {
                assert(extended_with(prev, before, step) == extended_with(
                    step(prev, before[0]),
                    before.drop_first(),
                    step,
                ));
                assert(step(prev, before[0]) == prev.push(x));
            }
        }
    }
}

impl<T> IntoIteratorOwned for Vec<T> {
    fn into_elements(self) -> (r: Vec<T>) {
        self
    }
}

impl<T> EmptyConstructible for Vec<T> {
    fn new() -> (r: Self) {
        Vec::new()
    }
}

impl<T> Erasable for Vec<T> {
    fn clear(&mut self) {
        Vec::clear(self)
    }
}

impl<T> ExactSized for Vec<T> {
    fn is_empty(&self) -> (r: bool) {
        Vec::is_empty(self)
    }

    fn len(&self) -> (r: usize) {
        Vec::len(self)
    }
}

impl<T> Iterable for Vec<T> {
    fn nth(&self, i: usize) -> (r: &T) {
        slice_index_get(self.as_slice(), i)
    }
}

impl<T> IterableMut for Vec<T> {
    fn set_nth(&mut self, i: usize, x: T) {
        let ghost before = self@;
        let _ = Vec::remove(self, i);
        Vec::insert(self, i, x);
        proof {
            assert(before.remove(i as int).insert(i as int, x) =~= before.update(i as int, x));
        }
    }
}

impl<T> Range for Vec<T> {
    fn range(&self, lo: usize, hi: usize) -> (r: &[T]) {
        slice_subrange(self.as_slice(), lo, hi)
    }
}

impl<T> Contiguous for Vec<T> {
    fn as_slice(&self) -> (r: &[T]) {
        Vec::as_slice(self)
    }
}

impl<T> Sequential for Vec<T> {
    fn back(&self) -> (r: Option<&T>) {
        if self.len() == 0 {
            None
        } else {
            Some(slice_index_get(self.as_slice(), self.len() - 1))
        }
    }

    fn append(&mut self, other: &mut Self) {
        Vec::append(self, other)
    }

    fn push_back(&mut self, x: T) {
        self.push(x);
    }

    fn pop_back(&mut self) -> (r: Option<T>) {
        let r = self.pop();
        proof {
            if old(self)@.len() > 0 {
                assert(old(self)@.subrange(0, old(self)@.len() - 1) =~= old(self)@.drop_last());
            }
        }
        r
    }

    fn remove(&mut self, at: usize) -> (r: Option<T>) {
        Some(Vec::remove(self, at))
    }

    fn split_off(&mut self, at: usize) -> (r: Self) {
        Vec::split_off(self, at)
    }
}

impl<T> RandomAccess for Vec<T> {
    fn rotate_left(&mut self, mid: usize) {
        let mut tail = Vec::split_off(self, mid);
        tail.append(self);
        Vec::append(self, &mut tail);
        proof {
            assert(self@ =~= old(self)@.subrange(mid as int, old(self)@.len() as int) + old(self)@.subrange(0, mid as int));
        }
    }

    fn rotate_right(&mut self, mid: usize) {
        let at = self.len() - mid;
        let mut tail = Vec::split_off(self, at);
        tail.append(self);
        Vec::append(self, &mut tail);
        proof {
            assert(self@ =~= old(self)@.subrange(
                old(self)@.len() - mid,
                old(self)@.len() as int,
            ) + old(self)@.subrange(0, old(self)@.len() - mid));
        }
    }

    fn partition_point<P: Fn(&T) -> bool>(&self, pred: P) -> (r: usize) {
        let n = self.len();
        let mut i: usize = 0;
        loop
            invariant_except_break
                i <= n,
                n == self@.len(),
                forall|k: int| 0 <= k < i ==> accepted(&pred, #[trigger] self@[k]),
                crate::model::test_defined_on(&pred, self@),
                crate::model::test_deterministic(&pred),
            ensures
                i <= self@.len(),
                forall|k: int| 0 <= k < i ==> accepted(&pred, #[trigger] self@[k]),
                i < self@.len() ==> !accepted(&pred, self@[i as int]),
            decreases n - i,
        {
            if i >= n {
                break ;
            }
            let x = slice_index_get(self.as_slice(), i);
            proof {
                assert(self@.contains(self@[i as int]));
            }
            if !pred(x) {
                break ;
            }
            i += 1;
        }
        i
    }

    fn swap(&mut self, i: usize, j: usize) {
        if i == j {
            proof {
                assert(old(self)@.update(i as int, old(self)@[j as int]).update(
                    j as int,
                    old(self)@[i as int],
                ) =~= old(self)@);
            }
        } else {
            let a = if i < j {
                i
            } else {
                j
            };
            let b = if i < j {
                j
            } else {
                i
            };
            let ghost s = self@;
            let xb = Vec::remove(self, b);
            let xa = Vec::remove(self, a);
            Vec::insert(self, a, xb);
            Vec::insert(self, b, xa);
            proof {
                assert(self@ =~= s.update(i as int, s[j as int]).update(j as int, s[i as int]));
            }
        }
    }

    fn get(&self, index: usize) -> (r: Option<&T>) {
        if index < self.len() {
            Some(slice_index_get(self.as_slice(), index))
        } else {
            None
        }
    }

    fn insert(&mut self, index: usize, x: T) {
        Vec::insert(self, index, x)
    }

    fn swap_remove_back(&mut self, index: usize) -> (r: Option<T>) {
        Some(Vec::swap_remove(self, index))
    }
}

impl<T> DrainRange for Vec<T> {
    fn drain_range(&mut self, lo: usize, hi: usize) -> (r: Vec<T>) {
        let ghost orig = self@;
        let mut out: Vec<T> = Vec::new();
        while out.len() < hi - lo
            invariant
                lo <= hi <= orig.len(),
                out@.len() <= hi - lo,
                out@ == orig.subrange(lo as int, lo + out@.len()),
                self@ == orig.subrange(0, lo as int) + orig.subrange(
                    lo + out@.len(),
                    orig.len() as int,
                ),
            decreases hi - lo - out@.len(),
        {
            let ghost before = self@;
            let x = Vec::remove(self, lo);
            out.push(x);
            proof {
                assert(x == orig[lo + out@.len() - 1]);
                assert(out@ =~= orig.subrange(lo as int, lo + out@.len()));
                assert(self@ =~= orig.subrange(0, lo as int) + orig.subrange(
                    lo + out@.len(),
                    orig.len() as int,
                ));
            }
        }
        proof {
            assert(out@ =~= orig.subrange(lo as int, hi as int));
        }
        out
    }
}

impl<T> DrainFilter for Vec<T> {
    fn drain_filter<P: Fn(&T) -> bool>(&mut self, pred: P) -> (r: Vec<T>) {
        drain_filter_vec(self, pred)
    }
}

/// Drains from a vector exactly the elements a deterministic test
/// accepts, keeping the rest in order.
#[verifier::loop_isolation(false)]
pub(crate) fn drain_filter_vec<T, P: Fn(&T) -> bool>(v: &mut Vec<T>, pred: P) -> (r: Vec<T>)
    requires
        crate::model::test_defined_on(&pred, old(v)@),
        crate::model::test_deterministic(&pred),
    ensures
        r@ == old(v)@.filter(|x: T| accepted(&pred, x)),
        final(v)@ == old(v)@.filter(|x: T| !accepted(&pred, x)),
{
    let ghost orig = v@;
    let ghost take = |x: T| accepted(&pred, x);
    let ghost keep = |x: T| !accepted(&pred, x);
    let mut out: Vec<T> = Vec::new();
    let mut i: usize = 0;
    proof {
        broadcast use vstd::seq_lib::group_filter_ensures;

        assert(orig.subrange(0, 0) =~= Seq::<T>::empty());
        assert(orig.subrange(0, 0).filter(take) =~= Seq::<T>::empty());
        assert(orig.subrange(0, 0).filter(keep) =~= Seq::<T>::empty());
        assert(v@ =~= orig.subrange(0, 0).filter(keep) + orig.subrange(0, orig.len() as int));
    }
    while i < v.len()
        invariant
            crate::model::test_defined_on(&pred, orig),
            crate::model::test_deterministic(&pred),
            i + out@.len() <= orig.len(),
            i == orig.subrange(0, i + out@.len()).filter(keep).len(),
            out@ == orig.subrange(0, i + out@.len()).filter(take),
            v@ == orig.subrange(0, i + out@.len()).filter(keep) + orig.subrange(
                i + out@.len(),
                orig.len() as int,
            ),
        decreases v@.len() - i,
    {
        let ghost seen = i + out@.len();
        proof {
            assert(v@[i as int] == orig.subrange(seen, orig.len() as int)[0]);
            assert(orig.contains(orig[seen])) by {
                assert(orig[seen] == orig[seen]);
            }
            assert(orig.subrange(0, seen + 1) =~= orig.subrange(0, seen).push(orig[seen]));
            orig.subrange(0, seen).lemma_filter_push(orig[seen], take);
            orig.subrange(0, seen).lemma_filter_push(orig[seen], keep);
        }
        let x = slice_index_get(v.as_slice(), i);
        let ghost vprev = v@;
        let ghost kk = orig.subrange(0, seen).filter(keep);
        if pred(x) {
            let y = Vec::remove(v, i);
            out.push(y);
            proof {
                assert(accepted(&pred, orig[seen]));
                assert(!keep(orig[seen]) && take(orig[seen]));
                assert(orig.subrange(0, seen + 1).filter(keep) == kk);
                assert(orig.subrange(0, seen + 1).filter(take) == orig.subrange(0, seen).filter(
                    take,
                ).push(orig[seen]));
                assert(v@ == vprev.remove(i as int));
                assert(v@ =~= kk + orig.subrange(seen + 1, orig.len() as int));
            }
        } else {
            i += 1;
            proof {
                assert(!accepted(&pred, orig[seen]));
                assert(keep(orig[seen]) && !take(orig[seen]));
                assert(orig.subrange(0, seen + 1).filter(keep) == kk.push(orig[seen]));
                assert(orig.subrange(0, seen + 1).filter(take) == orig.subrange(0, seen).filter(
                    take,
                ));
                assert(v@ =~= kk.push(orig[seen]) + orig.subrange(seen + 1, orig.len() as int));
            }
        }
    }
    proof {
        assert(orig.subrange(0, i + out@.len()) =~= orig);
        assert(v@ =~= orig.filter(keep));
    }
    out
}

impl<T> AllocatorAware for Vec<T> {
    type Allocator = GlobalAllocator;

    open spec fn spec_allocator(&self) -> GlobalAllocator {
        GlobalAllocator
    }

    fn allocator(&self) -> (r: GlobalAllocator) {
        GlobalAllocator
    }
}

impl<T> AllocatorConstructible for Vec<T> {
    fn new_in(alloc: GlobalAllocator) -> (r: Self) {
        let _ = alloc;
        Vec::new()
    }
}

} // verus!
