//! Laws that hold across every container claiming a capability, checked
//! by the verifier against the capability contracts alone.

use vstd::prelude::*;

verus! {

use std::collections::VecDeque;
use crate::allocator::{AllocatorAware, AllocatorCapacityConstructible, AllocatorConstructible};
use crate::capacity::CapacityAware;
use crate::exact_size::ExactSized;
use crate::sequential::{DoubleEnded, RandomAccess, Sequential};
use crate::{AllocatorAwareCollection, CapacityAwareCollection};

/// Law: building any capacity-aware collection with capacity reserved
/// and reading length and capacity back gives an empty collection that
/// reports exactly the requested capacity.
pub fn capacity_round_trip<C: CapacityAwareCollection>(capacity: usize) -> (r: (usize, usize))
    ensures
        r.0 == 0,
        r.1 == capacity,
{
    let c = C::with_capacity(capacity);
    let n = c.len();
    let k = c.capacity();
    (n, k)
}

/// Law: building any allocator-aware collection over an allocator and
/// reading length and allocator back gives an empty collection over
/// that very allocator.
pub fn allocator_round_trip<C: AllocatorAwareCollection>(alloc: C::Allocator) -> (r: (
    usize,
    C::Allocator,
))
    ensures
        r.0 == 0,
        r.1 == alloc,
{
    let c = C::new_in(alloc);
    let n = c.len();
    let a = c.allocator();
    (n, a)
}

/// Law: building a collection over an allocator with capacity reserved
/// reports exactly that capacity, that allocator, and no elements.
pub fn allocator_capacity_round_trip<C: AllocatorCapacityConstructible + ExactSized>(
    capacity: usize,
    alloc: C::Allocator,
) -> (r: (usize, usize, C::Allocator))
    ensures
        r.0 == 0,
        r.1 == capacity,
        r.2 == alloc,
{
    let c = C::with_capacity_in(capacity, alloc);
    let n = c.len();
    let k = c.capacity();
    let a = c.allocator();
    (n, k, a)
}

/// Law: pushing at the back through the sequence capability changes a
/// growable array exactly as its native push does.
pub fn seq_push_matches_native<T>(a: Vec<T>, b: Vec<T>, x: T, y: T) -> (r: (Vec<T>, Vec<T>))
    requires
        a@ == b@,
        x == y,
    ensures
        r.0@ == r.1@,
{
    let mut a = a;
    let mut b = b;
    Sequential::push_back(&mut a, x);
    b.push(y);
    (a, b)
}

/// Law: popping at the back through the sequence capability returns
/// what the native pop returns and leaves the same remainder.
pub fn seq_pop_matches_native<T>(a: Vec<T>, b: Vec<T>) -> (r: (Option<T>, Option<T>, Vec<T>, Vec<T>))
    requires
        a@ == b@,
    ensures
        r.0 == r.1,
        r.2@ == r.3@,
{
    let mut a = a;
    let mut b = b;
    let pa = Sequential::pop_back(&mut a);
    let pb = b.pop();
    proof {
        assert(a@ =~= b@);
    }
    (pa, pb, a, b)
}

/// Law: pushing at the front through the double-ended capability
/// changes a deque exactly as its native push does.
pub fn deque_push_front_matches_native<T>(a: VecDeque<T>, b: VecDeque<T>, x: T, y: T) -> (r: (
    VecDeque<T>,
    VecDeque<T>,
))
    requires
        a@ == b@,
        x == y,
    ensures
        r.0@ == r.1@,
{
    let mut a = a;
    let mut b = b;
    DoubleEnded::push_front(&mut a, x);
    b.push_front(y);
    (a, b)
}

/// Law: inserting by index through the random-access capability changes
/// a growable array exactly as its native insert does.
pub fn random_insert_matches_native<T>(a: Vec<T>, b: Vec<T>, i: usize, x: T, y: T) -> (r: (
    Vec<T>,
    Vec<T>,
))
    requires
        a@ == b@,
        x == y,
        i <= a@.len(),
    ensures
        r.0@ == r.1@,
{
    let mut a = a;
    let mut b = b;
    RandomAccess::insert(&mut a, i, x);
    b.insert(i, y);
    (a, b)
}

/// Law: the length capability reports exactly what the native length
/// reports.
pub fn len_matches_native<T>(v: &Vec<T>) -> (r: (usize, usize))
    ensures
        r.0 == r.1,
{
    let a = ExactSized::len(v);
    let b = v.len();
    (a, b)
}

/// Law: popping at the front through the double-ended capability
/// returns what the native pop returns and leaves the same remainder.
pub fn deque_pop_front_matches_native<T>(a: VecDeque<T>, b: VecDeque<T>) -> (r: (
    Option<T>,
    Option<T>,
    VecDeque<T>,
    VecDeque<T>,
))
    requires
        a@ == b@,
    ensures
        r.0 == r.1,
        r.2@ == r.3@,
{
    let mut a = a;
    let mut b = b;
    let pa = DoubleEnded::pop_front(&mut a);
    let pb = b.pop_front();
    proof {
        assert(a@ =~= b@);
    }
    (pa, pb, a, b)
}

} // verus!
