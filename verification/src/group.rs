//! Grouping the elements of any collection into any map of sequences,
//! through the capability traits alone.

use vstd::prelude::*;

verus! {

use crate::associated::AssociatedMap;
use crate::elem::{CollectionTrait, IntoIteratorOwned};
use crate::misc::{AssociatedContains, EmptyConstructible};
use crate::model::{
    entries_of, group_of, key_assigned, key_fn_defined_on, key_fn_deterministic,
};
use crate::sequential::Sequential;
use crate::{Collection, MapContainer, SequentialCollection};

/// Groups the elements of `c` by the key the deterministic closure `f`
/// assigns them.  The result maps each assigned key to the sequence of
/// the elements carrying that key, in traversal order, whatever
/// concrete map and sequence types back it.
#[verifier::loop_isolation(false)]
pub fn group_map_by<C, S, M, St, F>(c: C, f: F) -> (m: M) where
    C: Collection,
    S: SequentialCollection<ElemType = <C as CollectionTrait>::ElemType>,
    M: MapContainer<St, ValueType = S>,
    F: Fn(&<C as CollectionTrait>::ElemType) -> <M as crate::elem::AssociatedCollectionTrait>::KeyType,

    requires
        key_fn_defined_on(&f, c.contents()),
        key_fn_deterministic::<C::ElemType, M::KeyType, F>(&f),
    ensures
        forall|k: M::KeyType|
            entries_of(m.contents()).dom().contains(k) <==> (#[trigger] group_of(
                c.contents(),
                &f,
                k,
            )).len() > 0,
        forall|k: M::KeyType|
            #[trigger] entries_of(m.contents()).dom().contains(k) ==> entries_of(m.contents())[k].contents() == group_of(c.contents(), &f, k),
{
    let ghost whole = c.contents();
    let mut m: M = M::new();
    let mut elems = c.into_elements();
    proof {
        assert(whole.subrange(0, 0) =~= Seq::<C::ElemType>::empty());
        assert(entries_of(m.contents()) =~= Map::<M::KeyType, S>::empty());
    }
    while elems.len() > 0
        invariant
            elems@.len() <= whole.len(),
            whole == whole.subrange(0, whole.len() - elems@.len()) + elems@,
            forall|k: M::KeyType|
                entries_of(m.contents()).dom().contains(k) <==> (#[trigger] group_of(
                    whole.subrange(0, whole.len() - elems@.len()),
                    &f,
                    k,
                )).len() > 0,
            forall|k: M::KeyType|
                #[trigger] entries_of(m.contents()).dom().contains(k) ==> entries_of(m.contents())[k].contents() == group_of(whole.subrange(0, whole.len() - elems@.len()), &f, k),
        decreases elems@.len(),
    {
        let ghost prefix = whole.subrange(0, whole.len() - elems@.len());
        let x = elems.remove(0);
        proof {
            assert(x == whole[prefix.len() as int]);
            assert(whole.contains(x)) by {
                assert(whole[prefix.len() as int] == x);
            }
            assert(whole.subrange(0, prefix.len() as int + 1) =~= prefix.push(x));
            assert(whole =~= whole.subrange(0, whole.len() - elems@.len()) + elems@);
        }
        let k = f(&x);
        let ghost longer = prefix.push(x);
        proof {
            assert(k == key_assigned(&f, x));
            assert(longer.drop_last() =~= prefix);
            assert forall|q: M::KeyType| #[trigger] group_of(longer, &f, q) == (if q == k {
                group_of(prefix, &f, q).push(x)
            } else {
                group_of(prefix, &f, q)
            }) by {}
        }
        if m.contains_key(&k) {
            let got = <M as AssociatedMap>::remove(&mut m, &k);
            match got {
                Some(sq) => {
                    let mut sq = sq;
                    sq.push_back(x);
                    let _ = <M as AssociatedMap>::insert(&mut m, k, sq);
                },
                None => {
                    proof {
                        assert(false);
                    }
                },
            }
        } else {
            let mut sq: S = S::new();
            sq.push_back(x);
            let _ = <M as AssociatedMap>::insert(&mut m, k, sq);
        }
    }
    proof {
        assert(whole.subrange(0, whole.len() as int) =~= whole);
    }
    m
}

} // verus!
