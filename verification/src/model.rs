//! Shared mathematical models: how a sequence of key-value pairs reads
//! as a map, orderings on sequences, and what a test or key closure
//! decides on a value.

use vstd::prelude::*;

verus! {

/// The map described by a sequence of key-value pairs; a later pair
/// with the same key wins.
pub open spec fn entries_of<K, V>(s: Seq<(K, V)>) -> Map<K, V>
    decreases s.len(),
{
    if s.len() == 0 {
        Map::empty()
    } else {
        entries_of(s.drop_last()).insert(s.last().0, s.last().1)
    }
}

/// The keys of a sequence of key-value pairs, in order.
pub open spec fn key_seq<K, V>(s: Seq<(K, V)>) -> Seq<K> {
    s.map_values(|p: (K, V)| p.0)
}

/// A strictly increasing sequence of machine words.
pub open spec fn sorted_strict(s: Seq<u64>) -> bool {
    forall|i: int, j: int| 0 <= i < j < s.len() ==> s[i] < s[j]
}

/// Sortedness of a sequence under a given order.
pub open spec fn sorted_by<A>(s: Seq<A>, le: spec_fn(A, A) -> bool) -> bool {
    forall|i: int, j: int| 0 <= i < j < s.len() ==> le(s[i], s[j])
}

/// The sequence with every occurrence of `x` dropped.  On a sequence
/// without duplicates this drops at most the one occurrence.
pub open spec fn without<A>(s: Seq<A>, x: A) -> Seq<A>
    decreases s.len(),
{
    if s.len() == 0 {
        Seq::empty()
    } else if s.last() == x {
        without(s.drop_last(), x)
    } else {
        without(s.drop_last(), x).push(s.last())
    }
}

/// The pair sequence with the entries under key `k` dropped.
pub open spec fn pairs_without_key<K, V>(s: Seq<(K, V)>, k: K) -> Seq<(K, V)>
    decreases s.len(),
{
    if s.len() == 0 {
        Seq::empty()
    } else if s.last().0 == k {
        pairs_without_key(s.drop_last(), k)
    } else {
        pairs_without_key(s.drop_last(), k).push(s.last())
    }
}

/// The pair sequence with every entry under key `k` set to value `v`,
/// in place.
pub open spec fn pairs_updated<K, V>(s: Seq<(K, V)>, k: K, v: V) -> Seq<(K, V)>
    decreases s.len(),
{
    if s.len() == 0 {
        Seq::empty()
    } else if s.last().0 == k {
        pairs_updated(s.drop_last(), k, v).push((k, v))
    } else {
        pairs_updated(s.drop_last(), k, v).push(s.last())
    }
}

/// The entries whose key is below `k`, in order.
pub open spec fn pairs_below<V>(s: Seq<(u64, V)>, k: u64) -> Seq<(u64, V)>
    decreases s.len(),
{
    if s.len() == 0 {
        Seq::empty()
    } else if s.last().0 < k {
        pairs_below(s.drop_last(), k).push(s.last())
    } else {
        pairs_below(s.drop_last(), k)
    }
}

/// The entries whose key is above `k`, in order.
pub open spec fn pairs_above<V>(s: Seq<(u64, V)>, k: u64) -> Seq<(u64, V)>
    decreases s.len(),
{
    if s.len() == 0 {
        Seq::empty()
    } else if s.last().0 > k {
        pairs_above(s.drop_last(), k).push(s.last())
    } else {
        pairs_above(s.drop_last(), k)
    }
}

/// The elements below `x`, in order.
pub open spec fn elems_below(s: Seq<u64>, x: u64) -> Seq<u64>
    decreases s.len(),
{
    if s.len() == 0 {
        Seq::empty()
    } else if s.last() < x {
        elems_below(s.drop_last(), x).push(s.last())
    } else {
        elems_below(s.drop_last(), x)
    }
}

/// The elements above `x`, in order.
pub open spec fn elems_above(s: Seq<u64>, x: u64) -> Seq<u64>
    decreases s.len(),
{
    if s.len() == 0 {
        Seq::empty()
    } else if s.last() > x {
        elems_above(s.drop_last(), x).push(s.last())
    } else {
        elems_above(s.drop_last(), x)
    }
}

/// The elements of `a` that are not in `b`, in order.
pub open spec fn seq_diff<A>(a: Seq<A>, b: Seq<A>) -> Seq<A>
    decreases a.len(),
{
    if a.len() == 0 {
        Seq::empty()
    } else if b.contains(a.last()) {
        seq_diff(a.drop_last(), b)
    } else {
        seq_diff(a.drop_last(), b).push(a.last())
    }
}

/// The elements of `a` that are also in `b`, in order.
pub open spec fn seq_inter<A>(a: Seq<A>, b: Seq<A>) -> Seq<A>
    decreases a.len(),
{
    if a.len() == 0 {
        Seq::empty()
    } else if b.contains(a.last()) {
        seq_inter(a.drop_last(), b).push(a.last())
    } else {
        seq_inter(a.drop_last(), b)
    }
}

/// What a boolean test closure decides on a value.  Contracts that take
/// such a closure require it to be deterministic, so this is the one
/// answer it can give.
pub open spec fn accepted<T, P: Fn(&T) -> bool>(pred: &P, x: T) -> bool {
    call_ensures(*pred, (&x,), true)
}

/// The test closure answers on every element of `s`.
pub open spec fn test_defined_on<T, P: Fn(&T) -> bool>(pred: &P, s: Seq<T>) -> bool {
    forall|x: &T| s.contains(*x) ==> call_requires(*pred, (x,))
}

/// The test closure gives at most one answer per value.
pub open spec fn test_deterministic<T, P: Fn(&T) -> bool>(pred: &P) -> bool {
    forall|x: &T, b: bool| call_ensures(*pred, (x,), b) ==> b == accepted(pred, *x)
}

/// What a key closure assigns to a value.  Contracts that take such a
/// closure require it to be deterministic, so this is the one key it
/// can produce.
pub open spec fn key_assigned<T, K, F: Fn(&T) -> K>(f: &F, x: T) -> K {
    choose|k: K| call_ensures(*f, (&x,), k)
}

/// The key closure answers on every element of `s`.
pub open spec fn key_fn_defined_on<T, K, F: Fn(&T) -> K>(f: &F, s: Seq<T>) -> bool {
    forall|x: &T| s.contains(*x) ==> call_requires(*f, (x,))
}

/// The key closure assigns at most one key per value.
pub open spec fn key_fn_deterministic<T, K, F: Fn(&T) -> K>(f: &F) -> bool {
    forall|x: &T, k: K| call_ensures(*f, (x,), k) ==> k == key_assigned(f, *x)
}

/// The elements of `s` to which the key closure assigns `k`, in order.
pub open spec fn group_of<T, K, F: Fn(&T) -> K>(s: Seq<T>, f: &F, k: K) -> Seq<T>
    decreases s.len(),
{
    if s.len() == 0 {
        Seq::empty()
    } else {
        let rest = group_of(s.drop_last(), f, k);
        if key_assigned(f, s.last()) == k {
            rest.push(s.last())
        } else {
            rest
        }
    }
}

/// The domain of the map read from a pair sequence is the set of its keys.
pub proof fn lemma_entries_of_dom<K, V>(s: Seq<(K, V)>)
    ensures
        entries_of(s).dom() =~= key_seq(s).to_set(),
    decreases s.len(),
{
    if s.len() == 0 {
        assert(key_seq(s).to_set() =~= Set::<K>::empty());
    } else {
        lemma_entries_of_dom(s.drop_last());
        assert(key_seq(s.drop_last()) =~= key_seq(s).drop_last());
        assert forall|k: K| key_seq(s).to_set().contains(k) implies entries_of(s).dom().contains(
            k,
        ) by {
            let i = choose|i: int| 0 <= i < key_seq(s).len() && key_seq(s)[i] == k;
            if i < s.len() - 1 {
                assert(key_seq(s).drop_last()[i] == k);
                assert(key_seq(s).drop_last().to_set().contains(k));
            }
        }
        assert forall|k: K| entries_of(s).dom().contains(k) implies key_seq(s).to_set().contains(
            k,
        ) by {
            if k == s.last().0 {
                assert(key_seq(s)[s.len() - 1] == k);
            } else {
                let i = choose|i: int|
                    0 <= i < key_seq(s.drop_last()).len() && key_seq(s.drop_last())[i] == k;
                assert(key_seq(s)[i] == k);
            }
        }
    }
}

/// In a pair sequence without duplicate keys, the map read from it sends
/// each key to the value it is paired with.
pub proof fn lemma_entries_of_index<K, V>(s: Seq<(K, V)>, i: int)
    requires
        key_seq(s).no_duplicates(),
        0 <= i < s.len(),
    ensures
        entries_of(s).dom().contains(s[i].0),
        entries_of(s)[s[i].0] == s[i].1,
    decreases s.len(),
{
    lemma_entries_of_dom(s);
    assert(key_seq(s)[i] == s[i].0);
    assert(key_seq(s).to_set().contains(s[i].0));
    if i < s.len() - 1 {
        assert(key_seq(s)[s.len() - 1] == s.last().0);
        assert(s[i].0 != s.last().0);
        assert(key_seq(s.drop_last()) =~= key_seq(s).drop_last());
        assert(key_seq(s.drop_last()).no_duplicates());
        lemma_entries_of_index(s.drop_last(), i);
        assert(s.drop_last()[i] == s[i]);
    }
}

/// Reading a pair sequence extended by one pair as a map inserts that
/// pair into the map read from the original sequence.
pub proof fn lemma_entries_of_push<K, V>(s: Seq<(K, V)>, k: K, v: V)
    ensures
        entries_of(s.push((k, v))) == entries_of(s).insert(k, v),
{
    assert(s.push((k, v)).drop_last() =~= s);
    assert(s.push((k, v)).last() == (k, v));
}

/// A pair sequence without duplicate keys reads as any map that agrees
/// with it key by key.
pub proof fn lemma_entries_agree<K, V>(a: Seq<(K, V)>, m: Map<K, V>)
    requires
        key_seq(a).no_duplicates(),
        m.dom() == key_seq(a).to_set(),
        forall|i: int| 0 <= i < a.len() ==> m[#[trigger] a[i].0] == a[i].1,
    ensures
        entries_of(a) == m,
{
    lemma_entries_of_dom(a);
    assert forall|k: K| entries_of(a).dom().contains(k) implies entries_of(a)[k] == m[k] by {
        assert(key_seq(a).to_set().contains(k));
        let i = choose|i: int| 0 <= i < key_seq(a).len() && key_seq(a)[i] == k;
        assert(a[i].0 == k);
        lemma_entries_of_index(a, i);
    }
    assert(entries_of(a) =~= m);
}

/// A strictly increasing sequence has no duplicates.
pub proof fn lemma_sorted_strict_unique(s: Seq<u64>)
    requires
        sorted_strict(s),
    ensures
        s.no_duplicates(),
{
    assert forall|i: int, j: int|
        0 <= i < s.len() && 0 <= j < s.len() && i != j implies s[i] != s[j] by {
        if i < j {
            assert(s[i] < s[j]);
        } else {
            assert(s[j] < s[i]);
        }
    }
}

/// Dropping an absent element changes nothing.
pub proof fn lemma_without_absent<A>(s: Seq<A>, x: A)
    requires
        !s.contains(x),
    ensures
        without(s, x) == s,
    decreases s.len(),
{
    if s.len() > 0 {
        let dl = s.drop_last();
        assert(!dl.contains(x)) by {
            if dl.contains(x) {
                let j = choose|j: int| 0 <= j < dl.len() && dl[j] == x;
                assert(s[j] == x);
            }
        }
        lemma_without_absent(dl, x);
        assert(s[s.len() - 1] != x);
        assert(dl.push(s.last()) =~= s);
    }
}

/// Dropping a value that occurs exactly once removes its position.
pub proof fn lemma_without_skip<A>(s: Seq<A>, i: int, x: A)
    requires
        s.no_duplicates(),
        0 <= i < s.len(),
        s[i] == x,
    ensures
        without(s, x) == s.remove(i),
    decreases s.len(),
{
    let dl = s.drop_last();
    assert(dl.no_duplicates());
    if i == s.len() - 1 {
        assert(!dl.contains(x)) by {
            if dl.contains(x) {
                let j = choose|j: int| 0 <= j < dl.len() && dl[j] == x;
                assert(s[j] == s[i]);
            }
        }
        lemma_without_absent(dl, x);
        assert(dl =~= s.remove(i));
    } else {
        assert(s.last() != x);
        lemma_without_skip(dl, i, x);
        assert(dl.remove(i).push(s.last()) =~= s.remove(i));
    }
}

/// Dropping an absent key changes nothing.
pub proof fn lemma_pairs_without_key_absent<K, V>(s: Seq<(K, V)>, k: K)
    requires
        forall|j: int| 0 <= j < s.len() ==> (#[trigger] s[j]).0 != k,
    ensures
        pairs_without_key(s, k) == s,
    decreases s.len(),
{
    if s.len() > 0 {
        let dl = s.drop_last();
        lemma_pairs_without_key_absent(dl, k);
        assert(s[s.len() - 1].0 != k);
        assert(dl.push(s.last()) =~= s);
    }
}

/// Dropping a key that occurs exactly once removes its position.
pub proof fn lemma_pairs_without_key_skip<K, V>(s: Seq<(K, V)>, i: int, k: K)
    requires
        key_seq(s).no_duplicates(),
        0 <= i < s.len(),
        s[i].0 == k,
    ensures
        pairs_without_key(s, k) == s.remove(i),
    decreases s.len(),
{
    let dl = s.drop_last();
    assert(key_seq(dl) =~= key_seq(s).drop_last());
    assert(key_seq(dl).no_duplicates());
    assert(forall|j: int| 0 <= j < s.len() ==> key_seq(s)[j] == (#[trigger] s[j]).0);
    if i == s.len() - 1 {
        assert forall|j: int| 0 <= j < dl.len() implies (#[trigger] dl[j]).0 != k by {
            assert(key_seq(s)[j] != key_seq(s)[i]);
        }
        lemma_pairs_without_key_absent(dl, k);
        assert(dl =~= s.remove(i));
    } else {
        assert(s.last().0 != k) by {
            assert(key_seq(s)[s.len() - 1] != key_seq(s)[i]);
        }
        lemma_pairs_without_key_skip(dl, i, k);
        assert(dl.remove(i).push(s.last()) =~= s.remove(i));
    }
}

/// Updating a key that is absent changes nothing.
pub proof fn lemma_pairs_updated_absent<K, V>(s: Seq<(K, V)>, k: K, v: V)
    requires
        forall|j: int| 0 <= j < s.len() ==> (#[trigger] s[j]).0 != k,
    ensures
        pairs_updated(s, k, v) == s,
    decreases s.len(),
{
    if s.len() > 0 {
        let dl = s.drop_last();
        lemma_pairs_updated_absent(dl, k, v);
        assert(s[s.len() - 1].0 != k);
        assert(dl.push(s.last()) =~= s);
    }
}

/// Updating a key that occurs exactly once rewrites its position.
pub proof fn lemma_pairs_updated<K, V>(s: Seq<(K, V)>, i: int, k: K, v: V)
    requires
        key_seq(s).no_duplicates(),
        0 <= i < s.len(),
        s[i].0 == k,
    ensures
        pairs_updated(s, k, v) == s.update(i, (k, v)),
    decreases s.len(),
{
    let dl = s.drop_last();
    assert(key_seq(dl) =~= key_seq(s).drop_last());
    assert(key_seq(dl).no_duplicates());
    assert(forall|j: int| 0 <= j < s.len() ==> key_seq(s)[j] == (#[trigger] s[j]).0);
    if i == s.len() - 1 {
        assert forall|j: int| 0 <= j < dl.len() implies (#[trigger] dl[j]).0 != k by {
            assert(key_seq(s)[j] != key_seq(s)[i]);
        }
        lemma_pairs_updated_absent(dl, k, v);
        assert(dl.push((k, v)) =~= s.update(i, (k, v)));
    } else {
        assert(s.last().0 != k) by {
            assert(key_seq(s)[s.len() - 1] != key_seq(s)[i]);
        }
        lemma_pairs_updated(dl, i, k, v);
        assert(dl.update(i, (k, v)).push(s.last()) =~= s.update(i, (k, v)));
    }
}

/// A pair sequence whose keys are partitioned around `k` splits into
/// its entries below and above `k`.
pub proof fn lemma_pairs_partition<V>(s: Seq<(u64, V)>, i: int, k: u64)
    requires
        0 <= i <= s.len(),
        forall|j: int| 0 <= j < i ==> (#[trigger] s[j]).0 < k,
        forall|j: int| i <= j < s.len() ==> (#[trigger] s[j]).0 > k,
    ensures
        pairs_below(s, k) == s.subrange(0, i),
        pairs_above(s, k) == s.subrange(i, s.len() as int),
    decreases s.len(),
{
    if s.len() == 0 {
        assert(pairs_below(s, k) =~= s.subrange(0, i));
        assert(pairs_above(s, k) =~= s.subrange(i, s.len() as int));
    } else {
        let dl = s.drop_last();
        if i == s.len() {
            assert(s[s.len() - 1].0 < k);
            lemma_pairs_partition(dl, i - 1, k);
            assert(dl.subrange(0, i - 1) =~= dl);
            assert(dl.push(s.last()) =~= s.subrange(0, i));
            assert(pairs_above(s, k) =~= s.subrange(i, s.len() as int));
        } else {
            assert(s[s.len() - 1].0 > k);
            lemma_pairs_partition(dl, i, k);
            assert(dl.subrange(0, i) =~= s.subrange(0, i));
            assert(dl.subrange(i, dl.len() as int).push(s.last()) =~= s.subrange(
                i,
                s.len() as int,
            ));
        }
    }
}

/// Replacing the value at the one position holding a key: the effect on
/// the pair sequence and the map it reads as.
pub proof fn lemma_entries_replace<K, V>(s: Seq<(K, V)>, i: int, k: K, v: V)
    requires
        key_seq(s).no_duplicates(),
        0 <= i < s.len(),
        s[i].0 == k,
    ensures
        key_seq(s).contains(k),
        pairs_updated(s, k, v) == s.update(i, (k, v)),
        key_seq(s.update(i, (k, v))) == key_seq(s),
        entries_of(s.update(i, (k, v))) == entries_of(s).insert(k, v),
        entries_of(s).dom().contains(k),
        entries_of(s)[k] == s[i].1,
{
    lemma_entries_of_dom(s);
    assert(key_seq(s)[i] == s[i].0);
    let t = s.update(i, (k, v));
    assert(key_seq(t) =~= key_seq(s)) by {
        assert(forall|j: int| 0 <= j < t.len() ==> key_seq(t)[j] == (#[trigger] t[j]).0);
        assert(forall|j: int| 0 <= j < s.len() ==> key_seq(s)[j] == (#[trigger] s[j]).0);
    }
    lemma_pairs_updated(s, i, k, v);
    let m = entries_of(s).insert(k, v);
    assert(m.dom() =~= key_seq(t).to_set());
    assert forall|j: int| 0 <= j < t.len() implies m[#[trigger] t[j].0] == t[j].1 by {
        if j != i {
            assert(t[j] == s[j]);
            assert(key_seq(s)[j] != key_seq(s)[i]);
            lemma_entries_of_index(s, j);
        }
    }
    lemma_entries_agree(t, m);
    lemma_entries_of_index(s, i);
}

/// Appending a pair under a fresh key: the effect on the pair sequence
/// and the map it reads as.
pub proof fn lemma_entries_append<K, V>(s: Seq<(K, V)>, k: K, v: V)
    requires
        key_seq(s).no_duplicates(),
        forall|j: int| 0 <= j < s.len() ==> (#[trigger] s[j]).0 != k,
    ensures
        !key_seq(s).contains(k),
        key_seq(s.push((k, v))) == key_seq(s).push(k),
        key_seq(s.push((k, v))).no_duplicates(),
        entries_of(s.push((k, v))) == entries_of(s).insert(k, v),
        !entries_of(s).dom().contains(k),
{
    lemma_entries_of_dom(s);
    assert forall|j: int| 0 <= j < key_seq(s).len() implies key_seq(s)[j] != k by {
        assert(key_seq(s)[j] == s[j].0);
    }
    let t = s.push((k, v));
    assert(key_seq(t) =~= key_seq(s).push(k)) by {
        assert(forall|j: int| 0 <= j < t.len() ==> key_seq(t)[j] == (#[trigger] t[j]).0);
        assert(forall|j: int| 0 <= j < s.len() ==> key_seq(s)[j] == (#[trigger] s[j]).0);
    }
    lemma_entries_of_push(s, k, v);
}

/// Removing the one entry holding a key: the effect on the pair
/// sequence and the map it reads as.
pub proof fn lemma_entries_remove_at<K, V>(s: Seq<(K, V)>, i: int, k: K)
    requires
        key_seq(s).no_duplicates(),
        0 <= i < s.len(),
        s[i].0 == k,
    ensures
        pairs_without_key(s, k) == s.remove(i),
        key_seq(s.remove(i)) == key_seq(s).remove(i),
        key_seq(s.remove(i)).no_duplicates(),
        entries_of(s.remove(i)) == entries_of(s).remove(k),
        entries_of(s).dom().contains(k),
        entries_of(s)[k] == s[i].1,
{
    lemma_entries_of_dom(s);
    assert(key_seq(s)[i] == s[i].0);
    let t = s.remove(i);
    assert forall|j: int| 0 <= j < t.len() implies t[j] == (if j < i {
        s[j]
    } else {
        s[j + 1]
    }) by {
        s.remove_ensures(i);
    }
    lemma_pairs_without_key_skip(s, i, k);
    assert(key_seq(t) =~= key_seq(s).remove(i)) by {
        assert(forall|j: int| 0 <= j < t.len() ==> key_seq(t)[j] == (#[trigger] t[j]).0);
        assert(forall|j: int| 0 <= j < s.len() ==> key_seq(s)[j] == (#[trigger] s[j]).0);
        key_seq(s).remove_ensures(i);
    }
    assert(key_seq(t).no_duplicates()) by {
        assert forall|a: int, b: int|
            0 <= a < key_seq(t).len() && 0 <= b < key_seq(t).len() && a != b implies key_seq(t)[a]
            != key_seq(t)[b] by {
            let a2: int = if a < i {
                a
            } else {
                a + 1
            };
            let b2: int = if b < i {
                b
            } else {
                b + 1
            };
            assert(key_seq(t)[a] == t[a].0);
            assert(key_seq(t)[b] == t[b].0);
            assert(key_seq(s)[a2] == s[a2].0);
            assert(key_seq(s)[b2] == s[b2].0);
            assert(key_seq(s)[a2] != key_seq(s)[b2]);
        }
    }
    let m = entries_of(s).remove(k);
    assert(m.dom() =~= key_seq(t).to_set()) by {
        assert forall|q: K| key_seq(t).to_set().contains(q) implies m.dom().contains(q) by {
            let j = choose|j: int| 0 <= j < key_seq(t).len() && key_seq(t)[j] == q;
            assert(key_seq(t)[j] == t[j].0);
            let j2: int = if j < i {
                j
            } else {
                j + 1
            };
            assert(key_seq(s)[j2] == s[j2].0);
            assert(key_seq(s)[j2] != key_seq(s)[i]);
        }
        assert forall|q: K| m.dom().contains(q) implies key_seq(t).to_set().contains(q) by {
            assert(key_seq(s).to_set().contains(q));
            let j = choose|j: int| 0 <= j < key_seq(s).len() && key_seq(s)[j] == q;
            assert(j != i);
            let j2: int = if j < i {
                j
            } else {
                j - 1
            };
            assert(key_seq(t)[j2] == t[j2].0);
        }
    }
    assert forall|j: int| 0 <= j < t.len() implies m[#[trigger] t[j].0] == t[j].1 by {
        let j2: int = if j < i {
            j
        } else {
            j + 1
        };
        lemma_entries_of_index(s, j2);
        assert(key_seq(s)[j2] != key_seq(s)[i]);
    }
    lemma_entries_agree(t, m);
    lemma_entries_of_index(s, i);
}

/// Removing an absent key changes neither the pair sequence nor the map
/// it reads as.
pub proof fn lemma_entries_remove_absent<K, V>(s: Seq<(K, V)>, k: K)
    requires
        key_seq(s).no_duplicates(),
        forall|j: int| 0 <= j < s.len() ==> (#[trigger] s[j]).0 != k,
    ensures
        pairs_without_key(s, k) == s,
        entries_of(s).remove(k) == entries_of(s),
        !entries_of(s).dom().contains(k),
{
    lemma_entries_of_dom(s);
    lemma_pairs_without_key_absent(s, k);
    assert forall|j: int| 0 <= j < key_seq(s).len() implies key_seq(s)[j] != k by {
        assert(key_seq(s)[j] == s[j].0);
    }
    assert(entries_of(s).remove(k) =~= entries_of(s));
}

/// When the keys below `k` are exactly a prefix, the entries below `k`
/// are that prefix.
pub proof fn lemma_pairs_below_partition<V>(s: Seq<(u64, V)>, i: int, k: u64)
    requires
        0 <= i <= s.len(),
        forall|j: int| 0 <= j < i ==> (#[trigger] s[j]).0 < k,
        forall|j: int| i <= j < s.len() ==> (#[trigger] s[j]).0 >= k,
    ensures
        pairs_below(s, k) == s.subrange(0, i),
    decreases s.len(),
{
    if s.len() == 0 {
        assert(pairs_below(s, k) =~= s.subrange(0, i));
    } else {
        let dl = s.drop_last();
        if i == s.len() {
            assert(s[s.len() - 1].0 < k);
            lemma_pairs_below_partition(dl, i - 1, k);
            assert(dl.subrange(0, i - 1) =~= dl);
            assert(dl.push(s.last()) =~= s.subrange(0, i));
        } else {
            assert(s[s.len() - 1].0 >= k);
            lemma_pairs_below_partition(dl, i, k);
            assert(dl.subrange(0, i) =~= s.subrange(0, i));
        }
    }
}

/// When the elements below `x` are exactly a prefix, the elements below
/// `x` are that prefix.
pub proof fn lemma_elems_below_partition(s: Seq<u64>, i: int, x: u64)
    requires
        0 <= i <= s.len(),
        forall|j: int| 0 <= j < i ==> #[trigger] s[j] < x,
        forall|j: int| i <= j < s.len() ==> #[trigger] s[j] >= x,
    ensures
        elems_below(s, x) == s.subrange(0, i),
    decreases s.len(),
{
    if s.len() == 0 {
        assert(elems_below(s, x) =~= s.subrange(0, i));
    } else {
        let dl = s.drop_last();
        if i == s.len() {
            assert(s[s.len() - 1] < x);
            lemma_elems_below_partition(dl, i - 1, x);
            assert(dl.subrange(0, i - 1) =~= dl);
            assert(dl.push(s.last()) =~= s.subrange(0, i));
        } else {
            assert(s[s.len() - 1] >= x);
            lemma_elems_below_partition(dl, i, x);
            assert(dl.subrange(0, i) =~= s.subrange(0, i));
        }
    }
}

/// A word sequence partitioned around `x` splits into its elements
/// below and above `x`.
pub proof fn lemma_elems_partition(s: Seq<u64>, i: int, x: u64)
    requires
        0 <= i <= s.len(),
        forall|j: int| 0 <= j < i ==> #[trigger] s[j] < x,
        forall|j: int| i <= j < s.len() ==> #[trigger] s[j] > x,
    ensures
        elems_below(s, x) == s.subrange(0, i),
        elems_above(s, x) == s.subrange(i, s.len() as int),
    decreases s.len(),
{
    if s.len() == 0 {
        assert(elems_below(s, x) =~= s.subrange(0, i));
        assert(elems_above(s, x) =~= s.subrange(i, s.len() as int));
    } else {
        let dl = s.drop_last();
        if i == s.len() {
            assert(s[s.len() - 1] < x);
            lemma_elems_partition(dl, i - 1, x);
            assert(dl.subrange(0, i - 1) =~= dl);
            assert(dl.push(s.last()) =~= s.subrange(0, i));
            assert(elems_above(s, x) =~= s.subrange(i, s.len() as int));
        } else {
            assert(s[s.len() - 1] > x);
            lemma_elems_partition(dl, i, x);
            assert(dl.subrange(0, i) =~= s.subrange(0, i));
            assert(dl.subrange(i, dl.len() as int).push(s.last()) =~= s.subrange(
                i,
                s.len() as int,
            ));
        }
    }
}

/// Removing the one occurrence of a value: the effect on the sequence
/// and the set of its elements.
pub proof fn lemma_unique_remove<A>(s: Seq<A>, i: int, x: A)
    requires
        s.no_duplicates(),
        0 <= i < s.len(),
        s[i] == x,
    ensures
        without(s, x) == s.remove(i),
        s.remove(i).to_set() =~= s.to_set().remove(x),
        s.remove(i).no_duplicates(),
{
    lemma_without_skip(s, i, x);
    let t = s.remove(i);
    assert forall|j: int| 0 <= j < t.len() implies t[j] == (if j < i {
        s[j]
    } else {
        s[j + 1]
    }) by {
        s.remove_ensures(i);
    }
    assert(t.no_duplicates()) by {
        assert forall|a: int, b: int|
            0 <= a < t.len() && 0 <= b < t.len() && a != b implies t[a] != t[b] by {
            let a2: int = if a < i {
                a
            } else {
                a + 1
            };
            let b2: int = if b < i {
                b
            } else {
                b + 1
            };
            assert(s[a2] != s[b2]);
        }
    }
    assert forall|q: A| t.to_set().contains(q) implies s.to_set().remove(x).contains(q) by {
        let j = choose|j: int| 0 <= j < t.len() && t[j] == q;
        let j2: int = if j < i {
            j
        } else {
            j + 1
        };
        assert(s[j2] == q);
        assert(s[j2] != s[i]);
    }
    assert forall|q: A| s.to_set().remove(x).contains(q) implies t.to_set().contains(q) by {
        let j = choose|j: int| 0 <= j < s.len() && s[j] == q;
        assert(j != i);
        let j2: int = if j < i {
            j
        } else {
            j - 1
        };
        assert(t[j2] == q);
    }
}

/// Removing an absent value changes neither the sequence nor the set of
/// its elements.
pub proof fn lemma_absent_remove<A>(s: Seq<A>, x: A)
    requires
        !s.contains(x),
    ensures
        without(s, x) == s,
        s.to_set().remove(x) =~= s.to_set(),
{
    lemma_without_absent(s, x);
}

/// Inserting a fresh value at any position: the effect on the set of
/// the elements and on their distinctness.
pub proof fn lemma_unique_insert_at<A>(s: Seq<A>, i: int, x: A)
    requires
        s.no_duplicates(),
        !s.contains(x),
        0 <= i <= s.len(),
    ensures
        s.insert(i, x).to_set() =~= s.to_set().insert(x),
        s.insert(i, x).no_duplicates(),
{
    let t = s.insert(i, x);
    assert forall|j: int| 0 <= j < t.len() implies t[j] == (if j < i {
        s[j]
    } else if j == i {
        x
    } else {
        s[j - 1]
    }) by {
        s.insert_ensures(i, x);
    }
    assert(t.no_duplicates()) by {
        assert forall|a: int, b: int|
            0 <= a < t.len() && 0 <= b < t.len() && a != b implies t[a] != t[b] by {
            if a != i && b != i {
                let a2: int = if a < i {
                    a
                } else {
                    a - 1
                };
                let b2: int = if b < i {
                    b
                } else {
                    b - 1
                };
                assert(s[a2] != s[b2]);
            } else {
                let c: int = if a == i {
                    b
                } else {
                    a
                };
                let c2: int = if c < i {
                    c
                } else {
                    c - 1
                };
                assert(s.contains(s[c2]));
            }
        }
    }
    assert forall|q: A| t.to_set().contains(q) implies s.to_set().insert(x).contains(q) by {
        let j = choose|j: int| 0 <= j < t.len() && t[j] == q;
        if j < i {
            assert(s[j] == q);
        } else if j > i {
            assert(s[j - 1] == q);
        }
    }
    assert forall|q: A| s.to_set().insert(x).contains(q) implies t.to_set().contains(q) by {
        if q == x {
            assert(t[i] == q);
        } else {
            let j = choose|j: int| 0 <= j < s.len() && s[j] == q;
            if j < i {
                assert(t[j] == q);
            } else {
                assert(t[j + 1] == q);
            }
        }
    }
}

/// Filtering preserves sortedness under any order.
pub proof fn lemma_filter_sorted_by<A>(s: Seq<A>, p: spec_fn(A) -> bool, le: spec_fn(A, A) -> bool)
    requires
        sorted_by(s, le),
    ensures
        sorted_by(s.filter(p), le),
    decreases s.len(),
{
    reveal(Seq::filter);
    broadcast use vstd::seq_lib::group_filter_ensures;

    if s.len() > 0 {
        let dl = s.drop_last();
        assert(sorted_by(dl, le)) by {
            assert(forall|i: int| 0 <= i < dl.len() ==> dl[i] == s[i]);
        }
        lemma_filter_sorted_by(dl, p, le);
        if p(s.last()) {
            assert(s.filter(p) == dl.filter(p).push(s.last()));
            let f = dl.filter(p);
            assert forall|i: int, j: int|
                0 <= i < j < f.push(s.last()).len() implies le(
                f.push(s.last())[i],
                f.push(s.last())[j],
            ) by {
                if j < f.len() {
                } else {
                    assert(f.push(s.last())[j] == s.last());
                    assert(f.contains(f[i]));
                    dl.lemma_filter_contains_rev(p, f[i]);
                    let w = choose|w: int| 0 <= w < dl.len() && dl[w] == f[i];
                    assert(le(s[w], s[s.len() - 1]));
                }
            }
        } else {
            assert(s.filter(p) == dl.filter(p));
        }
    }
}

/// Filtering preserves freedom from duplicates.
pub proof fn lemma_filter_no_duplicates<A>(s: Seq<A>, p: spec_fn(A) -> bool)
    requires
        s.no_duplicates(),
    ensures
        s.filter(p).no_duplicates(),
    decreases s.len(),
{
    reveal(Seq::filter);
    broadcast use vstd::seq_lib::group_filter_ensures;

    if s.len() > 0 {
        let dl = s.drop_last();
        assert(dl.no_duplicates()) by {
            assert(forall|i: int| 0 <= i < dl.len() ==> dl[i] == s[i]);
        }
        lemma_filter_no_duplicates(dl, p);
        if p(s.last()) {
            let f = dl.filter(p);
            assert(s.filter(p) == f.push(s.last()));
            assert forall|i: int, j: int|
                0 <= i < f.push(s.last()).len() && 0 <= j < f.push(s.last()).len() && i
                    != j implies f.push(s.last())[i] != f.push(s.last())[j] by {
                if i < f.len() && j < f.len() {
                } else {
                    let a = if i < j {
                        i
                    } else {
                        j
                    };
                    assert(a < f.len());
                    assert(f.contains(f[a]));
                    dl.lemma_filter_contains_rev(p, f[a]);
                    let w = choose|w: int| 0 <= w < dl.len() && dl[w] == f[a];
                    assert(s[w] == f[a]);
                    assert(s[w] != s[s.len() - 1]);
                }
            }
        } else {
            assert(s.filter(p) == dl.filter(p));
        }
    }
}

/// Filtering a strictly sorted word sequence leaves it strictly sorted.
pub proof fn lemma_filter_sorted_strict(s: Seq<u64>, p: spec_fn(u64) -> bool)
    requires
        sorted_strict(s),
    ensures
        sorted_strict(s.filter(p)),
{
    let le = |a: u64, b: u64| a <= b;
    assert(sorted_by(s, le)) by {
        assert forall|i: int, j: int| 0 <= i < j < s.len() implies le(s[i], s[j]) by {
            assert(s[i] < s[j]);
        }
    }
    lemma_filter_sorted_by(s, p, le);
    lemma_sorted_strict_unique(s);
    lemma_filter_no_duplicates(s, p);
    let f = s.filter(p);
    assert forall|i: int, j: int| 0 <= i < j < f.len() implies f[i] < f[j] by {
        assert(le(f[i], f[j]));
        assert(f[i] != f[j]);
    }
}

/// Filtering a pair sequence with distinct keys leaves the keys
/// distinct.
pub proof fn lemma_filter_distinct_keys<K, V>(s: Seq<(K, V)>, p: spec_fn((K, V)) -> bool)
    requires
        key_seq(s).no_duplicates(),
    ensures
        key_seq(s.filter(p)).no_duplicates(),
    decreases s.len(),
{
    reveal(Seq::filter);
    broadcast use vstd::seq_lib::group_filter_ensures;

    if s.len() > 0 {
        let dl = s.drop_last();
        assert(key_seq(dl) =~= key_seq(s).drop_last());
        assert(key_seq(dl).no_duplicates());
        lemma_filter_distinct_keys(dl, p);
        assert(forall|j: int| 0 <= j < s.len() ==> key_seq(s)[j] == (#[trigger] s[j]).0);
        if p(s.last()) {
            let f = dl.filter(p);
            assert(s.filter(p) == f.push(s.last()));
            assert(key_seq(f.push(s.last())) =~= key_seq(f).push(s.last().0)) by {
                assert(forall|j: int|
                    0 <= j < f.push(s.last()).len() ==> key_seq(f.push(s.last()))[j] == (
                    #[trigger] f.push(s.last())[j]).0);
                assert(forall|j: int|
                    0 <= j < f.len() ==> key_seq(f)[j] == (#[trigger] f[j]).0);
            }
            assert forall|a: int, b: int|
                0 <= a < key_seq(f.push(s.last())).len() && 0 <= b < key_seq(
                    f.push(s.last()),
                ).len() && a != b implies key_seq(f.push(s.last()))[a] != key_seq(
                f.push(s.last()),
            )[b] by {
                if a < f.len() && b < f.len() {
                    assert(key_seq(f)[a] != key_seq(f)[b]);
                } else {
                    let c: int = if a < b {
                        a
                    } else {
                        b
                    };
                    assert(f.contains(f[c]));
                    dl.lemma_filter_contains_rev(p, f[c]);
                    let w = choose|w: int| 0 <= w < dl.len() && dl[w] == f[c];
                    assert(key_seq(s)[w] != key_seq(s)[s.len() - 1]);
                    assert(key_seq(f)[c] == f[c].0);
                }
            }
        } else {
            assert(s.filter(p) == dl.filter(p));
        }
    }
}

/// Filtering a pair sequence with strictly sorted keys leaves the keys
/// strictly sorted.
pub proof fn lemma_filter_sorted_keys<V>(s: Seq<(u64, V)>, p: spec_fn((u64, V)) -> bool)
    requires
        sorted_strict(key_seq(s)),
    ensures
        sorted_strict(key_seq(s.filter(p))),
    decreases s.len(),
{
    reveal(Seq::filter);
    broadcast use vstd::seq_lib::group_filter_ensures;

    if s.len() > 0 {
        let dl = s.drop_last();
        assert(key_seq(dl) =~= key_seq(s).drop_last());
        assert(sorted_strict(key_seq(dl)));
        lemma_filter_sorted_keys(dl, p);
        assert(forall|j: int| 0 <= j < s.len() ==> key_seq(s)[j] == (#[trigger] s[j]).0);
        if p(s.last()) {
            let f = dl.filter(p);
            assert(s.filter(p) == f.push(s.last()));
            let ks = key_seq(f.push(s.last()));
            assert(forall|j: int|
                0 <= j < f.push(s.last()).len() ==> ks[j] == (#[trigger] f.push(s.last())[j]).0);
            assert(forall|j: int| 0 <= j < f.len() ==> key_seq(f)[j] == (#[trigger] f[j]).0);
            assert forall|a: int, b: int| 0 <= a < b < ks.len() implies ks[a] < ks[b] by {
                if b < f.len() {
                    assert(key_seq(f)[a] < key_seq(f)[b]);
                } else {
                    assert(f.contains(f[a]));
                    dl.lemma_filter_contains_rev(p, f[a]);
                    let w = choose|w: int| 0 <= w < dl.len() && dl[w] == f[a];
                    assert(key_seq(s)[w] < key_seq(s)[s.len() - 1]);
                }
            }
        } else {
            assert(s.filter(p) == dl.filter(p));
        }
    }
}

} // verus!
