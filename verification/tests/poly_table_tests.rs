use trace_core::field::Felt;
use trace_core::frame::{AirContext, DefaultEvaluationFrame, EvaluationFrame, FrameShape};
use trace_core::poly_table::{SegmentError, TracePolyTable};
use trace_core::table::Table;

fn felts(values: &[u64]) -> Vec<Felt> {
    let mut row: Vec<Felt> = Vec::new();
    for v in values {
        row.push(Felt::new(*v));
    }
    row
}

/// Coefficient matrix with rows `[1, 3]` and `[2, 4]`: column polynomials
/// `1 + 2x` and `3 + 4x`.
fn small_main() -> Table {
    Table::from_rows(vec![felts(&[1, 3]), felts(&[2, 4])]).unwrap()
}

/// A `rows x cols` coefficient matrix of constant-one polynomials: first row
/// all ones, every other row zero. This is the interpolation of columns that
/// hold one at every trace row.
fn constant_one_polys(rows: usize, cols: usize) -> Table {
    let mut data: Vec<Vec<Felt>> = Vec::new();
    for r in 0..rows {
        let mut row: Vec<Felt> = Vec::new();
        for _ in 0..cols {
            row.push(if r == 0 { Felt::one() } else { Felt::zero() });
        }
        data.push(row);
    }
    Table::from_rows(data).unwrap()
}

/// A trace of the given dimensions where every cell holds one.
fn ones_trace(rows: usize, cols: usize) -> Table {
    let mut data: Vec<Vec<Felt>> = Vec::new();
    for _ in 0..rows {
        let mut row: Vec<Felt> = Vec::new();
        for _ in 0..cols {
            row.push(Felt::one());
        }
        data.push(row);
    }
    Table::from_rows(data).unwrap()
}

#[test]
fn poly_size_is_the_main_row_count() {
    let table = TracePolyTable::new(small_main());
    assert_eq!(table.poly_size(), 2);
    assert_eq!(table.num_main_trace_polys(), 2);
}

#[test]
fn main_trace_polys_are_the_columns() {
    let table = TracePolyTable::new(small_main());
    let polys = table.main_trace_polys();
    assert_eq!(polys.len(), 2);
    assert_eq!(polys[0], felts(&[1, 2]));
    assert_eq!(polys[1], felts(&[3, 4]));
    assert_eq!(table.get_main_trace_poly(0), felts(&[1, 2]));
    assert_eq!(table.get_main_trace_poly(1), felts(&[3, 4]));
}

#[test]
fn add_aux_segment_rejects_a_size_mismatch() {
    // The append must fail and must not mutate the table's segment list.
    let mut table = TracePolyTable::new(small_main());
    let wrong = Table::from_rows(vec![felts(&[1, 1]), felts(&[2, 2]), felts(&[3, 3])]).unwrap();
    assert_eq!(table.add_aux_segment(wrong), Err(SegmentError::SizeMismatch));
    assert_eq!(table.aux_trace_polys().len(), 0);
    assert_eq!(table.poly_size(), 2);
    assert_eq!(table.main_trace_polys().len(), 2);

    let right = Table::from_rows(vec![felts(&[5]), felts(&[6])]).unwrap();
    assert_eq!(table.add_aux_segment(right), Ok(()));
    assert_eq!(table.aux_trace_polys().len(), 1);
    assert_eq!(table.aux_trace_polys()[0], felts(&[5, 6]));

    let wrong_again = Table::from_rows(vec![felts(&[7])]).unwrap();
    assert_eq!(table.add_aux_segment(wrong_again), Err(SegmentError::SizeMismatch));
    assert_eq!(table.aux_trace_polys().len(), 1);
}

#[test]
fn evaluate_at_concatenates_segments_in_order() {
    let mut table = TracePolyTable::new(small_main());
    let aux = Table::from_rows(vec![felts(&[5]), felts(&[6])]).unwrap();
    table.add_aux_segment(aux).unwrap();
    // At x = 5: 1 + 2*5 = 11, 3 + 4*5 = 23, 5 + 6*5 = 35.
    let values = table.evaluate_at(Felt::new(5));
    assert_eq!(values, felts(&[11, 23, 35]));
}

#[test]
fn evaluate_some_at_skips_masked_main_columns() {
    let mut table = TracePolyTable::new(small_main());
    let aux = Table::from_rows(vec![felts(&[5]), felts(&[6])]).unwrap();
    table.add_aux_segment(aux).unwrap();
    let values = table.evaluate_some_at(&vec![true, false], Felt::new(5));
    assert_eq!(values, felts(&[11, 35]));
    let none = table.evaluate_some_at(&vec![false, false], Felt::new(5));
    assert_eq!(none, felts(&[35]));
    let all = table.evaluate_some_at(&vec![true, true], Felt::new(5));
    assert_eq!(all, felts(&[11, 23, 35]));
}

#[test]
fn read_and_evaluate_agree_on_constant_columns() {
    // A length-8 trace whose two columns are exact evaluations of the stored
    // (constant-one) polynomials at the 8th roots of unity: at every step,
    // the discrete windowed read and the polynomial evaluation at g^(s + o)
    // both give a row of ones, for both offsets of the default shape.
    let trace = ones_trace(8, 2);
    let table = TracePolyTable::new(constant_one_polys(8, 2));
    let g = Felt::get_root_of_unity(3);
    let ctx = AirContext::new(2, FrameShape::default_shape());
    for step in 0..8u64 {
        let mut frame = DefaultEvaluationFrame::new(&ctx);
        frame.read_from(&trace, step as usize, 1);
        for offset in 0..2u64 {
            let read_row = frame.row(offset as usize);
            let point = g.exp(step + offset);
            let evaluated = table.evaluate_some_at(&vec![true, true], point);
            assert_eq!(evaluated.len(), read_row.len());
            for c in 0..evaluated.len() {
                assert_eq!(evaluated[c].as_int(), 1);
                assert_eq!(read_row[c].as_int(), 1);
            }
        }
    }
}

#[test]
fn ood_frame_agrees_with_the_raw_frame_on_the_domain() {
    // Length-8 trace of three constant-one columns: the out-of-domain frame
    // at z = g^2 for the default shape equals the raw frame read at step 2 —
    // both rows are [1, 1, 1].
    let trace = ones_trace(8, 3);
    let table = TracePolyTable::new(constant_one_polys(8, 3));
    let g = Felt::get_root_of_unity(3);
    let z = g.exp(2);
    let ctx = AirContext::new(3, FrameShape::default_shape());
    let ood = table.get_ood_frame(z, &ctx);

    let mut frame = DefaultEvaluationFrame::new(&ctx);
    frame.read_from(&trace, 2, 1);

    assert_eq!(ood.len(), 2);
    for (i, ood_row) in ood.iter().enumerate() {
        let raw_row = frame.row(i);
        assert_eq!(ood_row.len(), 3);
        assert_eq!(raw_row.len(), 3);
        for c in 0..3 {
            assert_eq!(ood_row[c].as_int(), 1);
            assert_eq!(raw_row[c].as_int(), 1);
        }
    }
}

#[test]
fn ood_frame_scales_the_point_by_generator_powers() {
    // One main column with polynomial x: the out-of-domain row for offset o
    // holds exactly z * g^o.
    let polys = Table::from_rows(vec![felts(&[0]), felts(&[1]), felts(&[0]), felts(&[0]),
        felts(&[0]), felts(&[0]), felts(&[0]), felts(&[0])]).unwrap();
    let table = TracePolyTable::new(polys);
    let g = Felt::get_root_of_unity(3);
    let z = Felt::new(12345);
    let shape = FrameShape::new(vec![0, 2, 5], 1).unwrap();
    let ctx = AirContext::new(1, shape);
    let ood = table.get_ood_frame(z, &ctx);
    assert_eq!(ood.len(), 3);
    assert_eq!(ood[0][0].as_int(), z.as_int());
    assert_eq!(ood[1][0].as_int(), z.mul(g.exp(2)).as_int());
    assert_eq!(ood[1][0].as_int(), 3474808587493048320);
    assert_eq!(ood[2][0].as_int(), z.mul(g.exp(5)).as_int());
}
