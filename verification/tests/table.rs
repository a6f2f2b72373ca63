use plonk_core::field::Scalar;
use plonk_core::table::PlookupTable4Arity;

fn t(v: u64) -> Scalar {
    Scalar::from_u64(v)
}

#[test]
fn lookup_gives_the_fourth_column_of_the_matching_row() {
    let mut table = PlookupTable4Arity::new();
    assert_eq!(table.len(), 0);
    assert_eq!(table.lookup(t(1), t(2), t(3)), None);
    table.insert(t(1), t(2), t(3), t(4));
    table.insert(t(5), t(6), t(7), t(8));
    table.insert(t(1), t(2), t(9), t(10));
    assert_eq!(table.len(), 3);
    assert_eq!(table.lookup(t(1), t(2), t(3)), Some(t(4)));
    assert_eq!(table.lookup(t(5), t(6), t(7)), Some(t(8)));
    assert_eq!(table.lookup(t(1), t(2), t(9)), Some(t(10)));
    // every row is found by its own first three columns
    for row in table.0.iter() {
        assert_eq!(table.lookup(row[0], row[1], row[2]), Some(row[3]));
    }
}

#[test]
fn lookup_of_an_absent_triple_gives_none() {
    let mut table = PlookupTable4Arity::new();
    table.insert(t(1), t(2), t(3), t(4));
    assert_eq!(table.lookup(t(1), t(2), t(4)), None);
    assert_eq!(table.lookup(t(2), t(1), t(3)), None);
    assert_eq!(table.lookup(t(4), t(3), t(2)), None);
    // the fourth column is not part of the key
    assert_eq!(table.lookup(t(2), t(3), t(4)), None);
}

#[test]
fn lookup_takes_the_first_of_two_rows_with_one_key() {
    let mut table = PlookupTable4Arity::new();
    table.insert(t(1), t(2), t(3), t(4));
    table.insert(t(1), t(2), t(3), t(5));
    assert_eq!(table.lookup(t(1), t(2), t(3)), Some(t(4)));
}

#[test]
fn dummy_rows_are_what_the_padding_rows_query() {
    let mut table = PlookupTable4Arity::new();
    table.insert(t(9), t(9), t(9), t(9));
    table.add_dummy_rows();
    assert_eq!(table.len(), 3);
    assert_eq!(table.0[1], [t(6), t(7), t(20).neg(), t(1)]);
    assert_eq!(table.0[2], [t(20).neg(), t(6), t(7), t(0)]);
    assert_eq!(table.lookup(t(6), t(7), t(20).neg()), Some(t(1)));
    assert_eq!(table.lookup(t(20).neg(), t(6), t(7)), Some(t(0)));
}

#[test]
fn contains_compares_whole_rows() {
    let mut table = PlookupTable4Arity::new();
    assert!(!table.contains(&[t(1), t(2), t(3), t(4)]));
    table.insert(t(1), t(2), t(3), t(4));
    assert!(table.contains(&[t(1), t(2), t(3), t(4)]));
    assert!(!table.contains(&[t(1), t(2), t(3), t(5)]));
    assert!(!table.contains(&[t(0), t(2), t(3), t(4)]));
}
