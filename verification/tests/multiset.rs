use plonk_core::cs_errors::PlookupErrors;
use plonk_core::field::Scalar;
use plonk_core::multiset::MultiSet;

fn list(values: &[u64]) -> MultiSet {
    MultiSet::from_vec(values.iter().map(|v| Scalar::from_u64(*v)).collect())
}

fn values(set: &MultiSet) -> Vec<u64> {
    set.0.iter().map(|s| s.to_raw()[0]).collect()
}

#[test]
fn queries_are_sorted_into_the_table() {
    let t = list(&[1, 2, 4, 3]);
    let f = list(&[2, 3, 4, 1]);
    let s = t.sorted_concat(&f).unwrap();
    assert_eq!(values(&s), vec![1, 1, 2, 2, 4, 4, 3, 3]);
}

#[test]
fn repeated_queries_stay_next_to_their_table_entry() {
    let t = list(&[5, 7, 9]);
    let f = list(&[7, 7, 5, 7]);
    let s = t.sorted_concat(&f).unwrap();
    assert_eq!(values(&s), vec![5, 5, 7, 7, 7, 7, 9]);
    // the same elements as the table and the queries together
    let mut all = values(&t);
    all.extend(values(&f));
    all.sort();
    let mut sorted = values(&s);
    sorted.sort();
    assert_eq!(sorted, all);
}

#[test]
fn no_queries_leave_the_table() {
    let t = list(&[3, 1, 2]);
    assert_eq!(values(&t.sorted_concat(&MultiSet::new()).unwrap()), vec![3, 1, 2]);
    let empty = MultiSet::new();
    assert!(empty.is_empty());
    assert_eq!(values(&empty.sorted_concat(&MultiSet::new()).unwrap()), Vec::<u64>::new());
}

#[test]
fn a_query_outside_the_table_is_an_error() {
    let t = list(&[1, 2, 4, 3]);
    assert_eq!(
        t.sorted_concat(&list(&[2, 5])).map(|s| values(&s)),
        Err(PlookupErrors::ElementNotIndexed)
    );
    assert_eq!(
        MultiSet::new().sorted_concat(&list(&[1])).map(|s| values(&s)),
        Err(PlookupErrors::ElementNotIndexed)
    );
}

#[test]
fn halves_share_the_middle_element() {
    let (h_1, h_2) = list(&[1, 2, 3, 4, 5, 6, 7]).halve();
    assert_eq!(values(&h_1), vec![1, 2, 3, 4]);
    assert_eq!(values(&h_2), vec![4, 5, 6, 7]);

    let (h_1, h_2) = list(&[1, 2, 3, 4]).halve();
    assert_eq!(values(&h_1), vec![1, 2, 3]);
    assert_eq!(values(&h_2), vec![3, 4]);

    let (h_1, h_2) = list(&[9]).halve();
    assert_eq!(values(&h_1), vec![9]);
    assert_eq!(values(&h_2), vec![9]);
}

#[test]
fn halves_of_a_sorted_list_are_continuous() {
    let t = list(&[10, 20, 30, 40]);
    let f = list(&[20, 40, 40]);
    let s = t.sorted_concat(&f).unwrap();
    let (h_1, h_2) = s.halve();
    assert_eq!(h_1.0.last(), h_2.0.first());
    let mut joined = values(&h_1);
    joined.pop();
    joined.extend(values(&h_2));
    assert_eq!(joined, values(&s));
    assert_eq!(joined, vec![10, 20, 20, 30, 40, 40, 40]);
}

#[test]
fn position_is_the_first_occurrence() {
    let mut s = list(&[4, 5, 4]);
    assert_eq!(s.position(&Scalar::from_u64(4)), Some(0));
    assert_eq!(s.position(&Scalar::from_u64(5)), Some(1));
    assert_eq!(s.position(&Scalar::from_u64(6)), None);
    assert!(s.contains(&Scalar::from_u64(5)));
    assert!(!s.contains(&Scalar::from_u64(6)));
    s.push(Scalar::from_u64(6));
    assert_eq!(s.position(&Scalar::from_u64(6)), Some(3));
    assert_eq!(s.len(), 4);
}
