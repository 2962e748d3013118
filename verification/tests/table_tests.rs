use trace_core::field::Felt;
use trace_core::table::{Table, TableError, TraceReader};

fn row(values: &[u64]) -> Vec<Felt> {
    values.iter().map(|v| Felt::new(*v)).collect()
}

#[test]
fn new_is_zero_filled() {
    let t = Table::new(3, 2);
    assert_eq!(t.num_rows(), 3);
    assert_eq!(t.num_cols(), 2);
    for r in 0..3 {
        for c in 0..2 {
            assert_eq!(t.get(r, c).as_int(), 0);
        }
    }
}

#[test]
fn from_rows_keeps_the_rows() {
    let t = Table::from_rows(vec![row(&[1, 2, 3]), row(&[4, 5, 6])]).unwrap();
    assert_eq!(t.num_rows(), 2);
    assert_eq!(t.num_cols(), 3);
    assert_eq!(t.get(0, 0).as_int(), 1);
    assert_eq!(t.get(1, 2).as_int(), 6);
    assert_eq!(t.get_row(1)[0].as_int(), 4);
}

#[test]
fn from_rows_rejects_no_rows() {
    assert_eq!(Table::from_rows(vec![]).unwrap_err(), TableError::Empty);
}

#[test]
fn from_rows_rejects_ragged_rows() {
    let result = Table::from_rows(vec![row(&[1, 2]), row(&[3])]);
    assert_eq!(result.unwrap_err(), TableError::RaggedRows);
}

#[test]
fn set_writes_one_cell() {
    let mut t = Table::new(2, 2);
    t.set(1, 0, Felt::new(9));
    assert_eq!(t.get(1, 0).as_int(), 9);
    assert_eq!(t.get(0, 0).as_int(), 0);
    assert_eq!(t.get(1, 1).as_int(), 0);
}

#[test]
fn duplicate_is_independent() {
    let mut t = Table::from_rows(vec![row(&[1, 2]), row(&[3, 4])]).unwrap();
    let copy = t.duplicate();
    t.set(0, 0, Felt::new(7));
    assert_eq!(t.get(0, 0).as_int(), 7);
    assert_eq!(copy.get(0, 0).as_int(), 1);
    assert_eq!(copy.get(1, 1).as_int(), 4);
}

#[test]
fn trace_reader_addresses_by_column_then_row() {
    let t = Table::from_rows(vec![row(&[10, 11, 12]), row(&[20, 21, 22])]).unwrap();
    assert_eq!(TraceReader::num_rows(&t), 2);
    assert_eq!(TraceReader::num_cols(&t), 3);
    for r in 0..2 {
        for c in 0..3 {
            assert_eq!(TraceReader::get(&t, c, r).as_int(), t.get(r, c).as_int());
        }
    }
    assert_eq!(TraceReader::get(&t, 2, 1).as_int(), 22);
}
