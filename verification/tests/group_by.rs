use std::collections::VecDeque;
use std_collection_traits::elem::ExtendOwned;
use std_collection_traits::associated::AssociatedMap;
use std_collection_traits::elem::IntoIteratorOwned;
use std_collection_traits::group::group_map_by;
use std_collection_traits::list::List;
use std_collection_traits::ord_map::OrdMap;
use std_collection_traits::sequential::Sequential;
use std_collection_traits::vec_map::VecMap;

#[test]
fn test_group_by() {
    let v: Vec<u64> = vec![1, 2, 3, 4, 5, 6];
    let output: OrdMap<Vec<u64>> = group_map_by::<Vec<u64>, Vec<u64>, OrdMap<Vec<u64>>, (), _>(
        v,
        |x: &u64| (*x % 2 == 0) as u64,
    );
    assert_eq!(*output.get(&1).unwrap(), vec![2, 4, 6]);
    assert_eq!(*output.get(&0).unwrap(), vec![1, 3, 5]);

    let mut d: VecDeque<u64> = VecDeque::new();
    for x in [1u64, 2, 3, 4, 5, 6] {
        Sequential::push_back(&mut d, x);
    }
    let mut output: VecMap<List<u64>> = group_map_by::<
        VecDeque<u64>,
        List<u64>,
        VecMap<List<u64>>,
        (),
        _,
    >(d, |x: &u64| (*x % 2 == 0) as u64);
    let evens = AssociatedMap::remove(&mut output, &1).unwrap();
    assert_eq!(evens.into_elements(), vec![2u64, 4, 6]);
    let odds = AssociatedMap::remove(&mut output, &0).unwrap();
    assert_eq!(odds.into_elements(), vec![1u64, 3, 5]);
}

#[test]
fn group_by_empty_source_gives_empty_map() {
    let v: Vec<u64> = vec![];
    let output: OrdMap<Vec<u64>> = group_map_by::<Vec<u64>, Vec<u64>, OrdMap<Vec<u64>>, (), _>(
        v,
        |x: &u64| *x % 2,
    );
    assert!(output.get(&0).is_none());
    assert!(output.get(&1).is_none());
}

#[test]
fn group_by_single_key_keeps_order() {
    let v: Vec<u64> = vec![9, 7, 8];
    let mut output: VecMap<Vec<u64>> = group_map_by::<Vec<u64>, Vec<u64>, VecMap<Vec<u64>>, (), _>(
        v,
        |_x: &u64| 0u64,
    );
    let all = AssociatedMap::remove(&mut output, &0).unwrap();
    assert_eq!(all, vec![9, 7, 8]);
}

fn grouped_by_parity<S, M>(expect_even: Vec<u64>, expect_odd: Vec<u64>)
where
    S: std_collection_traits::SequentialCollection<ElemType = u64>
        + std_collection_traits::elem::IntoIteratorOwned,
    M: std_collection_traits::MapContainer<(), KeyType = u64, ValueType = S>,
{
    let mut source: Vec<u64> = Vec::new();
    source.extend_from_vec(vec![1, 2, 3, 4, 5, 6]);
    let mut output: M = group_map_by::<Vec<u64>, S, M, (), _>(source, |x: &u64| {
        (*x % 2 == 0) as u64
    });
    let evens = AssociatedMap::remove(&mut output, &1).unwrap();
    assert_eq!(evens.into_elements(), expect_even);
    let odds = AssociatedMap::remove(&mut output, &0).unwrap();
    assert_eq!(odds.into_elements(), expect_odd);
}

#[test]
fn group_by_holds_for_every_map_and_sequence_pairing() {
    grouped_by_parity::<Vec<u64>, OrdMap<Vec<u64>>>(vec![2, 4, 6], vec![1, 3, 5]);
    grouped_by_parity::<VecDeque<u64>, OrdMap<VecDeque<u64>>>(vec![2, 4, 6], vec![1, 3, 5]);
    grouped_by_parity::<List<u64>, OrdMap<List<u64>>>(vec![2, 4, 6], vec![1, 3, 5]);
    grouped_by_parity::<Vec<u64>, VecMap<Vec<u64>>>(vec![2, 4, 6], vec![1, 3, 5]);
    grouped_by_parity::<VecDeque<u64>, VecMap<VecDeque<u64>>>(vec![2, 4, 6], vec![1, 3, 5]);
    grouped_by_parity::<List<u64>, VecMap<List<u64>>>(vec![2, 4, 6], vec![1, 3, 5]);
}
