use trace_core::field::Felt;
use trace_core::frame::{
    AirContext, CustomEvaluationFrame, DefaultEvaluationFrame, EvaluationFrame, FrameError,
    FrameShape,
};
use trace_core::table::Table;

/// A trace of `rows x cols` cells where the cell at row `r`, column `c`
/// holds the value `100 * r + c`.
fn numbered_trace(rows: usize, cols: usize) -> Table {
    let mut data: Vec<Vec<Felt>> = Vec::new();
    for r in 0..rows {
        let mut row: Vec<Felt> = Vec::new();
        for c in 0..cols {
            row.push(Felt::new((100 * r + c) as u64));
        }
        data.push(row);
    }
    Table::from_rows(data).unwrap()
}

fn wide_shape() -> FrameShape {
    FrameShape::new(vec![0, 16, 17, 18], 16).unwrap()
}

#[test]
fn shape_new_accepts_increasing_offsets() {
    let shape = wide_shape();
    assert_eq!(shape.offsets(), &vec![0, 16, 17, 18]);
    assert_eq!(shape.shift(), 16);
    assert_eq!(shape.num_rows(), 4);
}

#[test]
fn shape_new_rejects_bad_descriptions() {
    assert_eq!(FrameShape::new(vec![], 1).unwrap_err(), FrameError::EmptyOffsets);
    assert_eq!(FrameShape::new(vec![0, 1], 0).unwrap_err(), FrameError::ZeroShift);
    assert_eq!(
        FrameShape::new(vec![0, 2, 1], 1).unwrap_err(),
        FrameError::UnsortedOffsets
    );
    assert_eq!(
        FrameShape::new(vec![0, 3, 3], 1).unwrap_err(),
        FrameError::UnsortedOffsets
    );
}

#[test]
fn default_shape_is_current_and_next() {
    let shape = FrameShape::default_shape();
    assert_eq!(shape.offsets(), &vec![0, 1]);
    assert_eq!(shape.shift(), 1);
    assert_eq!(shape.num_rows(), 2);
}

#[test]
fn active_cells_imply_unbounded_row_len() {
    // Shape consistency over a custom shape: wherever a cell is active the
    // row length must report "unbounded", never the zero-width sentinel.
    let shape = wide_shape();
    for offset in 0..40 {
        for column in 0..8 {
            if shape.is_active_cell(offset, column) {
                assert_eq!(shape.row_len(offset), None);
            } else {
                assert_eq!(shape.row_len(offset), Some(0));
            }
        }
    }
    assert!(shape.is_active_cell(16, 0));
    assert_eq!(shape.row_len(16), None);
    assert!(!shape.is_active_cell(1, 0));
    assert_eq!(shape.row_len(1), Some(0));
}

#[test]
fn active_cells_imply_unbounded_row_len_on_frames() {
    let ctx = AirContext::new(3, wide_shape());
    let custom = CustomEvaluationFrame::new(&ctx);
    let default = DefaultEvaluationFrame::new(&AirContext::new(3, FrameShape::default_shape()));
    for offset in 0..40 {
        for column in 0..8 {
            if custom.is_active_cell(offset, column) {
                assert_eq!(custom.row_len(offset), None);
            } else {
                assert_eq!(custom.row_len(offset), Some(0));
            }
            if default.is_active_cell(offset, column) {
                assert_eq!(default.row_len(offset), None);
            } else {
                assert_eq!(default.row_len(offset), Some(0));
            }
        }
    }
}

#[test]
fn default_frame_starts_zeroed() {
    let ctx = AirContext::new(3, FrameShape::default_shape());
    let frame = DefaultEvaluationFrame::new(&ctx);
    assert_eq!(frame.num_rows(), 2);
    assert_eq!(frame.offsets(), vec![0, 1]);
    assert_eq!(frame.shift(), 1);
    assert_eq!(frame.current().len(), 3);
    assert_eq!(frame.next().len(), 3);
    for c in 0..3 {
        assert_eq!(frame.current()[c].as_int(), 0);
        assert_eq!(frame.next()[c].as_int(), 0);
    }
}

#[test]
fn default_frame_mutable_rows() {
    let ctx = AirContext::new(2, FrameShape::default_shape());
    let mut frame = DefaultEvaluationFrame::new(&ctx);
    frame.current_mut()[0] = Felt::new(5);
    frame.next_mut()[1] = Felt::new(6);
    assert_eq!(frame.current()[0].as_int(), 5);
    assert_eq!(frame.current()[1].as_int(), 0);
    assert_eq!(frame.next()[0].as_int(), 0);
    assert_eq!(frame.next()[1].as_int(), 6);
}

#[test]
fn default_read_is_current_and_next_rows() {
    let trace = numbered_trace(8, 2);
    let ctx = AirContext::new(2, FrameShape::default_shape());
    let mut frame = DefaultEvaluationFrame::new(&ctx);
    frame.read_from(&trace, 3, 1);
    assert_eq!(frame.current()[0].as_int(), 300);
    assert_eq!(frame.current()[1].as_int(), 301);
    assert_eq!(frame.next()[0].as_int(), 400);
    assert_eq!(frame.next()[1].as_int(), 401);
    assert_eq!(frame.main_row()[0].as_int(), 300);
    assert_eq!(frame.row(0)[0].as_int(), 300);
    assert_eq!(frame.row(1)[0].as_int(), 400);
}

#[test]
fn default_read_wraps_at_the_last_step() {
    // At step L - 1 with blowup 1 the "next" row wraps to row 0.
    let trace = numbered_trace(8, 2);
    let ctx = AirContext::new(2, FrameShape::default_shape());
    let mut frame = DefaultEvaluationFrame::new(&ctx);
    frame.read_from(&trace, 7, 1);
    assert_eq!(frame.current()[0].as_int(), 700);
    assert_eq!(frame.next()[0].as_int(), 0);
    assert_eq!(frame.next()[1].as_int(), 1);
}

#[test]
fn default_read_strides_by_the_blowup() {
    let trace = numbered_trace(8, 2);
    let ctx = AirContext::new(2, FrameShape::default_shape());
    let mut frame = DefaultEvaluationFrame::new(&ctx);
    frame.read_from(&trace, 2, 4);
    assert_eq!(frame.current()[0].as_int(), 200);
    assert_eq!(frame.next()[0].as_int(), 600);
}

#[test]
fn custom_read_wide_window() {
    // A 19-row window packed as offsets {0, 16, 17, 18} with shift 16 over a
    // trace of 32 rows: at step 0 the row for offset 16 comes from trace row
    // 16; one logical step later (step 0 + shift = 16) the same relative
    // offset wraps to trace row (16 + 16) mod 32 = 0.
    let trace = numbered_trace(32, 3);
    let ctx = AirContext::new(3, wide_shape());
    let mut frame = CustomEvaluationFrame::new(&ctx);
    assert_eq!(frame.num_rows(), 4);
    assert_eq!(frame.shift(), 16);

    frame.read_from(&trace, 0, 1);
    assert_eq!(frame.row(0)[0].as_int(), 0);
    assert_eq!(frame.row(1)[0].as_int(), 1600);
    assert_eq!(frame.row(2)[0].as_int(), 1700);
    assert_eq!(frame.row(3)[0].as_int(), 1800);

    frame.read_from(&trace, 16, 1);
    assert_eq!(frame.row(0)[0].as_int(), 1600);
    assert_eq!(frame.row(1)[0].as_int(), 0);
    assert_eq!(frame.row(1)[2].as_int(), 2);
    assert_eq!(frame.row(2)[0].as_int(), 100);
    assert_eq!(frame.row(3)[0].as_int(), 200);
}

#[test]
fn custom_frame_starts_zeroed() {
    let ctx = AirContext::new(3, wide_shape());
    let frame = CustomEvaluationFrame::new(&ctx);
    for i in 0..4 {
        for c in 0..3 {
            assert_eq!(frame.row(i)[c].as_int(), 0);
        }
    }
}

#[test]
fn default_frame_table_round_trip() {
    let trace = numbered_trace(4, 2);
    let ctx = AirContext::new(2, FrameShape::default_shape());
    let mut frame = DefaultEvaluationFrame::new(&ctx);
    frame.read_from(&trace, 1, 1);
    let table = frame.to_table();
    assert_eq!(table.num_rows(), 2);
    assert_eq!(table.get(0, 1).as_int(), 101);
    assert_eq!(table.get(1, 0).as_int(), 200);
    let rebuilt = DefaultEvaluationFrame::from_table(&ctx, table);
    assert_eq!(rebuilt.current()[0].as_int(), 100);
    assert_eq!(rebuilt.next()[1].as_int(), 201);
}

#[test]
fn custom_frame_table_round_trip() {
    let trace = numbered_trace(32, 2);
    let ctx = AirContext::new(2, wide_shape());
    let mut frame = CustomEvaluationFrame::new(&ctx);
    frame.read_from(&trace, 2, 1);
    let table = frame.to_table();
    assert_eq!(table.num_rows(), 4);
    assert_eq!(table.get(1, 0).as_int(), 1800);
    let rebuilt = CustomEvaluationFrame::from_table(&ctx, table);
    assert_eq!(rebuilt.main_row()[0].as_int(), 200);
    assert_eq!(rebuilt.row(3)[1].as_int(), 2001);
    assert_eq!(rebuilt.offsets(), vec![0, 16, 17, 18]);
}

#[test]
fn read_is_defined_modulo_the_trace_length() {
    let trace = numbered_trace(8, 2);
    let ctx = AirContext::new(2, FrameShape::default_shape());
    let mut frame = DefaultEvaluationFrame::new(&ctx);
    frame.read_from(&trace, 9, 1);
    assert_eq!(frame.current()[0].as_int(), 100);
    assert_eq!(frame.next()[0].as_int(), 200);
}
