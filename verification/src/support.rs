//! Scanning routines shared by the containers that store their
//! elements in a backing vector.

use vstd::prelude::*;

verus! {

use crate::model::{key_seq, sorted_strict};
use vstd::slice::slice_index_get;

/// The position of a machine word in a vector, by linear scan.
pub(crate) fn word_index(v: &Vec<u64>, x: u64) -> (r: Option<usize>)
    ensures
        match r {
            Some(i) => i < v@.len() && v@[i as int] == x,
            None => !v@.contains(x),
        },
{
    let mut i: usize = 0;
    while i < v.len()
        invariant
            i <= v@.len(),
            forall|k: int| 0 <= k < i ==> v@[k] != x,
        decreases v@.len() - i,
    {
        if *slice_index_get(v.as_slice(), i) == x {
            return Some(i);
        }
        i += 1;
    }
    proof {
        assert(forall|k: int| 0 <= k < v@.len() ==> v@[k] != x);
    }
    None
}

/// The first position of a sorted word vector whose element is not
/// below `x`.
pub(crate) fn word_lower_bound(v: &Vec<u64>, x: u64) -> (i: usize)
    requires
        sorted_strict(v@),
    ensures
        i <= v@.len(),
        forall|j: int| 0 <= j < i ==> v@[j] < x,
        forall|j: int| i <= j < v@.len() ==> v@[j] >= x,
{
    let n = v.len();
    let mut i: usize = 0;
    loop
        invariant_except_break
            i <= n,
            n == v@.len(),
            sorted_strict(v@),
            forall|j: int| 0 <= j < i ==> v@[j] < x,
        ensures
            i <= v@.len(),
            forall|j: int| 0 <= j < i ==> v@[j] < x,
            forall|j: int| i <= j < v@.len() ==> v@[j] >= x,
        decreases n - i,
    {
        if i >= n {
            break ;
        }
        if *slice_index_get(v.as_slice(), i) >= x {
            proof {
                assert forall|j: int| i <= j < v@.len() implies v@[j] >= x by {
                    if j > i {
                        assert(v@[i as int] < v@[j]);
                    }
                }
            }
            break ;
        }
        i += 1;
    }
    i
}

/// The position of a key among pairs, by linear scan.
pub(crate) fn find_key<V>(items: &Vec<(u64, V)>, k: u64) -> (r: Option<usize>)
    ensures
        match r {
            Some(i) => i < items@.len() && items@[i as int].0 == k,
            None => !key_seq(items@).contains(k),
        },
{
    let mut i: usize = 0;
    while i < items.len()
        invariant
            i <= items@.len(),
            forall|j: int| 0 <= j < i ==> items@[j].0 != k,
        decreases items@.len() - i,
    {
        let p = slice_index_get(items.as_slice(), i);
        if p.0 == k {
            return Some(i);
        }
        i += 1;
    }
    proof {
        assert forall|j: int| 0 <= j < key_seq(items@).len() implies key_seq(items@)[j] != k by {
            assert(key_seq(items@)[j] == items@[j].0);
        }
    }
    None
}

/// The first position of a key-sorted pair vector whose key is not
/// below `k`.
pub(crate) fn key_lower_bound<V>(items: &Vec<(u64, V)>, k: u64) -> (i: usize)
    requires
        sorted_strict(key_seq(items@)),
    ensures
        i <= items@.len(),
        forall|j: int| 0 <= j < i ==> items@[j].0 < k,
        forall|j: int| i <= j < items@.len() ==> items@[j].0 >= k,
{
    let n = items.len();
    let mut i: usize = 0;
    loop
        invariant_except_break
            i <= n,
            n == items@.len(),
            sorted_strict(key_seq(items@)),
            forall|j: int| 0 <= j < i ==> items@[j].0 < k,
        ensures
            i <= items@.len(),
            forall|j: int| 0 <= j < i ==> items@[j].0 < k,
            forall|j: int| i <= j < items@.len() ==> items@[j].0 >= k,
        decreases n - i,
    {
        if i >= n {
            break ;
        }
        let p = slice_index_get(items.as_slice(), i);
        if p.0 >= k {
            proof {
                assert forall|j: int| i <= j < items@.len() implies items@[j].0 >= k by {
                    if j > i {
                        assert(key_seq(items@)[i as int] < key_seq(items@)[j]);
                        assert(key_seq(items@)[j] == items@[j].0);
                        assert(key_seq(items@)[i as int] == items@[i as int].0);
                    }
                }
            }
            break ;
        }
        i += 1;
    }
    i
}


/// Membership of a machine word in a vector.
pub(crate) fn word_contains(v: &Vec<u64>, x: u64) -> (r: bool)
    ensures
        r == v@.contains(x),
{
    match word_index(v, x) {
        Some(i) => {
            proof {
                assert(v@[i as int] == x);
            }
            true
        },
        None => false,
    }
}

/// Checks that every element of `a` is also in `b`.
pub(crate) fn all_in(a: &Vec<u64>, b: &Vec<u64>) -> (r: bool)
    ensures
        r == forall|x: u64| #[trigger] a@.contains(x) ==> b@.contains(x),
{
    let mut i: usize = 0;
    while i < a.len()
        invariant
            i <= a@.len(),
            forall|j: int| 0 <= j < i ==> b@.contains(#[trigger] a@[j]),
        decreases a@.len() - i,
    {
        let x = *slice_index_get(a.as_slice(), i);
        if !word_contains(b, x) {
            proof {
                assert(a@.contains(x)) by {
                    assert(a@[i as int] == x);
                }
            }
            return false;
        }
        i += 1;
    }
    proof {
        assert forall|x: u64| #[trigger] a@.contains(x) implies b@.contains(x) by {
            let j = choose|j: int| 0 <= j < a@.len() && a@[j] == x;
            assert(b@.contains(a@[j]));
        }
    }
    true
}

/// Checks that no element is in both `a` and `b`.
pub(crate) fn none_in(a: &Vec<u64>, b: &Vec<u64>) -> (r: bool)
    ensures
        r == forall|x: u64| !(#[trigger] a@.contains(x) && b@.contains(x)),
{
    let mut i: usize = 0;
    while i < a.len()
        invariant
            i <= a@.len(),
            forall|j: int| 0 <= j < i ==> !b@.contains(#[trigger] a@[j]),
        decreases a@.len() - i,
    {
        let x = *slice_index_get(a.as_slice(), i);
        if word_contains(b, x) {
            proof {
                assert(a@.contains(x)) by {
                    assert(a@[i as int] == x);
                }
            }
            return false;
        }
        i += 1;
    }
    proof {
        assert forall|x: u64| a@.contains(x) implies !b@.contains(x) by {
            let j = choose|j: int| 0 <= j < a@.len() && a@[j] == x;
            assert(!b@.contains(a@[j]));
        }
    }
    true
}

/// The elements of `a` that are not in `b`, in order.
pub(crate) fn diff_vec(a: &Vec<u64>, b: &Vec<u64>) -> (r: Vec<u64>)
    ensures
        r@ == crate::model::seq_diff(a@, b@),
{
    let mut out: Vec<u64> = Vec::new();
    let mut i: usize = 0;
    proof {
        assert(a@.subrange(0, 0) =~= Seq::<u64>::empty());
    }
    while i < a.len()
        invariant
            i <= a@.len(),
            out@ == crate::model::seq_diff(a@.subrange(0, i as int), b@),
        decreases a@.len() - i,
    {
        let x = *slice_index_get(a.as_slice(), i);
        proof {
            assert(a@.subrange(0, i as int + 1).drop_last() =~= a@.subrange(0, i as int));
            assert(a@.subrange(0, i as int + 1).last() == x);
        }
        if !word_contains(b, x) {
            out.push(x);
        }
        i += 1;
    }
    proof {
        assert(a@.subrange(0, a@.len() as int) =~= a@);
    }
    out
}

/// The elements of `a` that are also in `b`, in order.
pub(crate) fn inter_vec(a: &Vec<u64>, b: &Vec<u64>) -> (r: Vec<u64>)
    ensures
        r@ == crate::model::seq_inter(a@, b@),
{
    let mut out: Vec<u64> = Vec::new();
    let mut i: usize = 0;
    proof {
        assert(a@.subrange(0, 0) =~= Seq::<u64>::empty());
    }
    while i < a.len()
        invariant
            i <= a@.len(),
            out@ == crate::model::seq_inter(a@.subrange(0, i as int), b@),
        decreases a@.len() - i,
    {
        let x = *slice_index_get(a.as_slice(), i);
        proof {
            assert(a@.subrange(0, i as int + 1).drop_last() =~= a@.subrange(0, i as int));
            assert(a@.subrange(0, i as int + 1).last() == x);
        }
        if word_contains(b, x) {
            out.push(x);
        }
        i += 1;
    }
    proof {
        assert(a@.subrange(0, a@.len() as int) =~= a@);
    }
    out
}

} // verus!
