//! Evaluation frames: configurable multi-row windows into an execution trace,
//! handed to the transition-constraint evaluation routine one logical step at
//! a time.
//!
//! A frame's *shape* — its row offsets, the stride between consecutive
//! logical steps, and which cells participate in constraint evaluation — is a
//! single configuration value owned by the constraint-system context, so the
//! prover-side raw-trace windowing and the verifier-side out-of-domain
//! windowing consume one and the same description.

use crate::field::Felt;
use crate::table::{copy_row, rectangular, row_views, zero_row, Table, TraceReader};
use vstd::prelude::*;

verus! {

/// Whether `offsets` and `shift` describe a usable frame shape: at least one
/// offset, strictly increasing offsets (hence unique and ordered), and a
/// stride of at least one trace row.
pub open spec fn valid_shape(offsets: Seq<usize>, shift: usize) -> bool {
    &&& offsets.len() > 0
    &&& shift >= 1
    &&& forall|i: int, j: int|
        0 <= i < j < offsets.len() ==> #[trigger] offsets[i] < #[trigger] offsets[j]
}

/// The ways a frame-shape description can be rejected.
#[derive(Clone, Copy, PartialEq, Eq, Structural, Debug)]
pub enum FrameError {
    /// No row offsets were given.
    EmptyOffsets,
    /// The stride between logical steps was zero.
    ZeroShift,
    /// The offsets were not strictly increasing.
    UnsortedOffsets,
}

/// An immutable descriptor of a frame: the relative row positions the frame
/// holds and the number of trace rows between consecutive logical steps.
#[derive(Debug)]
pub struct FrameShape {
    offsets: Vec<usize>,
    shift: usize,
}

impl FrameShape {
    /// The relative row positions within one shift window.
    pub closed spec fn offsets_spec(&self) -> Seq<usize> {
        self.offsets@
    }

    /// The number of trace rows between consecutive logical steps.
    pub closed spec fn shift_spec(&self) -> usize {
        self.shift
    }

    /// The shape is usable: non-empty, strictly increasing offsets, positive shift.
    pub open spec fn wf(&self) -> bool {
        valid_shape(self.offsets_spec(), self.shift_spec())
    }

    /// Whether the cell at the given offset and column participates in
    /// constraint evaluation. For the dense shapes described here this
    /// depends on the offset alone: every column is active at a registered
    /// offset, none at any other.
    pub open spec fn is_active_spec(&self, offset: usize, column_index: usize) -> bool {
        self.offsets_spec().contains(offset)
    }

    /// The column bound at the given offset: `None` ("unbounded") when every
    /// column at the offset is active, `Some(0)` when the offset is not part
    /// of the shape and no column is active there.
    pub open spec fn row_len_spec(&self, offset: usize) -> Option<usize> {
        if self.offsets_spec().contains(offset) {
            Option::<usize>::None
        } else {
            Option::<usize>::Some(0usize)
        }
    }

    /// A validated shape; reports exactly why an unusable description is
    /// rejected, checking emptiness first, then the stride, then the order.
    pub fn new(offsets: Vec<usize>, shift: usize) -> (result: Result<FrameShape, FrameError>)
        ensures
            result is Ok <==> valid_shape(offsets@, shift),
            result matches Ok(s) ==> s.offsets_spec() == offsets@ && s.shift_spec() == shift
                && s.wf(),
            result == Err::<FrameShape, FrameError>(FrameError::EmptyOffsets) <==> offsets@.len()
                == 0,
            result == Err::<FrameShape, FrameError>(FrameError::ZeroShift) <==> offsets@.len() > 0
                && shift == 0,
            result == Err::<FrameShape, FrameError>(FrameError::UnsortedOffsets) <==> offsets@.len()
                > 0 && shift >= 1 && !valid_shape(offsets@, shift),
    {
        if offsets.len() == 0 {
            return Err(FrameError::EmptyOffsets);
        }
        if shift == 0 {
            return Err(FrameError::ZeroShift);
        }
        let mut i: usize = 1;
        while i < offsets.len()
            invariant
                1 <= i <= offsets@.len(),
                shift >= 1,
                forall|a: int, b: int|
                    0 <= a < b < i ==> #[trigger] offsets@[a] < #[trigger] offsets@[b],
            decreases offsets@.len() - i,
        {
            if offsets[i - 1] >= offsets[i] {
                proof {
                    if valid_shape(offsets@, shift) {
                        assert(offsets@[i - 1] < offsets@[i as int]);
                    }
                }
                return Err(FrameError::UnsortedOffsets);
            }
            proof {
                assert forall|a: int| 0 <= a < i implies #[trigger] offsets@[a]
                    < offsets@[i as int] by {
                    if a < i - 1 {
                        assert(offsets@[a] < offsets@[i - 1]);
                    }
                }
            }
            i = i + 1;
        }
        Ok(FrameShape { offsets, shift })
    }

    /// The conventional current/next shape: offsets `{0, 1}`, shift `1`.
    pub fn default_shape() -> (s: FrameShape)
        ensures
            s.wf(),
            s.offsets_spec() == seq![0usize, 1usize],
            s.shift_spec() == 1,
    {
        let mut offsets: Vec<usize> = Vec::new();
        offsets.push(0);
        offsets.push(1);
        proof {
            assert(offsets@ =~= seq![0usize, 1usize]);
        }
        FrameShape { offsets, shift: 1 }
    }

    /// An independent copy of the shape.
    pub fn duplicate(&self) -> (s: FrameShape)
        ensures
            s.offsets_spec() == self.offsets_spec(),
            s.shift_spec() == self.shift_spec(),
    {
        let mut offsets: Vec<usize> = Vec::new();
        let mut i: usize = 0;
        while i < self.offsets.len()
            invariant
                i <= self.offsets_spec().len(),
                offsets@.len() == i,
                forall|a: int| 0 <= a < i ==> offsets@[a] == self.offsets_spec()[a],
            decreases self.offsets_spec().len() - i,
        {
            offsets.push(self.offsets[i]);
            i = i + 1;
        }
        proof {
            assert(offsets@ =~= self.offsets_spec());
        }
        FrameShape { offsets, shift: self.shift }
    }

    /// The offsets that make up a frame of this shape.
    pub fn offsets(&self) -> (r: &Vec<usize>)
        ensures
            r@ == self.offsets_spec(),
    {
        &self.offsets
    }

    /// The offset at the given position.
    pub fn offset_at(&self, index: usize) -> (r: usize)
        requires
            index < self.offsets_spec().len(),
        ensures
            r == self.offsets_spec()[index as int],
    {
        self.offsets[index]
    }

    /// The number of trace rows between consecutive logical steps.
    pub fn shift(&self) -> (r: usize)
        ensures
            r == self.shift_spec(),
    {
        self.shift
    }

    /// The number of rows a frame of this shape holds.
    pub fn num_rows(&self) -> (r: usize)
        ensures
            r == self.offsets_spec().len(),
    {
        self.offsets.len()
    }

    /// Whether the given offset is one of the shape's registered offsets.
    pub fn contains_offset(&self, offset: usize) -> (r: bool)
        ensures
            r == self.offsets_spec().contains(offset),
    {
        let mut i: usize = 0;
        while i < self.offsets.len()
            invariant
                i <= self.offsets_spec().len(),
                forall|a: int| 0 <= a < i ==> self.offsets_spec()[a] != offset,
            decreases self.offsets_spec().len() - i,
        {
            if self.offsets[i] == offset {
                return true;
            }
            i = i + 1;
        }
        false
    }

    /// Whether the cell at the given offset and column participates in
    /// constraint evaluation.
    pub fn is_active_cell(&self, offset: usize, column_index: usize) -> (r: bool)
        ensures
            r == self.is_active_spec(offset, column_index),
    {
        self.contains_offset(offset)
    }

    /// `None` ("unbounded") when every column at the offset is active,
    /// `Some(0)` when the offset is not part of the shape.
    pub fn row_len(&self, offset: usize) -> (r: Option<usize>)
        ensures
            r == self.row_len_spec(offset),
    {
        if self.contains_offset(offset) {
            None
        } else {
            Some(0)
        }
    }
}

/// LAW: shape consistency. For every offset and every column, an active cell
/// implies that the offset's column bound reports "unbounded", never the
/// zero-width sentinel: the two queries derive from one shape value and
/// cannot diverge.
pub proof fn lemma_active_cell_row_len(shape: &FrameShape, offset: usize, column_index: usize)
    ensures
        shape.is_active_spec(offset, column_index) ==> shape.row_len_spec(offset) is None,
{
}

/// The constraint-system context a frame is built against: the width of the
/// main trace segment and the frame shape the constraint system fixed.
pub struct AirContext {
    main_trace_width: usize,
    shape: FrameShape,
}

impl AirContext {
    /// The width of the main trace segment.
    pub closed spec fn width_spec(&self) -> usize {
        self.main_trace_width
    }

    /// The frame shape the constraint system fixed.
    pub closed spec fn shape_spec(&self) -> FrameShape {
        self.shape
    }

    /// A usable context: at least one trace column and a usable shape.
    pub open spec fn wf(&self) -> bool {
        self.width_spec() >= 1 && self.shape_spec().wf()
    }

    /// A context from its two configuration values.
    pub fn new(main_trace_width: usize, shape: FrameShape) -> (ctx: AirContext)
        requires
            main_trace_width >= 1,
            shape.wf(),
        ensures
            ctx.wf(),
            ctx.width_spec() == main_trace_width,
            ctx.shape_spec() == shape,
    {
        AirContext { main_trace_width, shape }
    }

    /// The width of the main trace segment.
    pub fn main_trace_width(&self) -> (r: usize)
        ensures
            r == self.width_spec(),
    {
        self.main_trace_width
    }

    /// The frame shape the constraint system fixed.
    pub fn shape(&self) -> (r: &FrameShape)
        ensures
            r == self.shape_spec(),
    {
        &self.shape
    }
}

/// A set of execution trace rows required for evaluation of transition
/// constraints, windowed according to a fixed shape. Both the raw-trace path
/// (the prover filling rows from a [`TraceReader`]) and the polynomial path
/// (the verifier's out-of-domain frame) present rows through this interface
/// with identical semantics.
pub trait EvaluationFrame: Sized {
    /// The offsets that make up the frame, in row order.
    spec fn offsets_spec(&self) -> Seq<usize>;

    /// The stride between consecutive logical evaluation steps.
    spec fn shift_spec(&self) -> usize;

    /// The number of columns each frame row holds.
    spec fn width_spec(&self) -> nat;

    /// The frame's rows, in offset order.
    spec fn rows_spec(&self) -> Seq<Seq<Felt>>;

    /// The frame's internal invariant.
    spec fn wf(&self) -> bool;

    /// Which contexts this frame kind can be built against.
    spec fn ctx_allowed(ctx: &AirContext) -> bool;

    /// A well-formed frame has one row per offset, all rows of the frame's
    /// width, and a usable shape.
    proof fn lemma_wf(&self)
        requires
            self.wf(),
        ensures
            self.rows_spec().len() == self.offsets_spec().len(),
            rectangular(self.rows_spec(), self.width_spec()),
            valid_shape(self.offsets_spec(), self.shift_spec()),
    ;

    /// An empty (zero-filled) frame sized to the context's main trace width
    /// and to one row per offset of the context's shape.
    fn new(ctx: &AirContext) -> (frame: Self)
        requires
            ctx.wf(),
            Self::ctx_allowed(ctx),
        ensures
            frame.wf(),
            frame.offsets_spec() == ctx.shape_spec().offsets_spec(),
            frame.shift_spec() == ctx.shape_spec().shift_spec(),
            frame.width_spec() == ctx.width_spec(),
            forall|i: int, c: int|
                0 <= i < frame.rows_spec().len() && 0 <= c < frame.width_spec() ==> (#[trigger]
                frame.rows_spec()[i][c])@ == 0,
    ;

    /// A frame wrapping already materialized rows; the caller guarantees that
    /// the table's row count matches the shape.
    fn from_table(ctx: &AirContext, table: Table) -> (frame: Self)
        requires
            ctx.wf(),
            Self::ctx_allowed(ctx),
            table.wf(),
            table@.len() == ctx.shape_spec().offsets_spec().len(),
        ensures
            frame.wf(),
            frame.offsets_spec() == ctx.shape_spec().offsets_spec(),
            frame.shift_spec() == ctx.shape_spec().shift_spec(),
            frame.width_spec() == table.cols_spec(),
            frame.rows_spec() == table@,
    ;

    /// An owned snapshot of the frame's rows, in offset order.
    fn to_table(&self) -> (table: Table)
        requires
            self.wf(),
        ensures
            table.wf(),
            table@ == self.rows_spec(),
            table.cols_spec() == self.width_spec(),
    ;

    /// Fills the frame from the trace: for each offset `o` (at position `i`)
    /// and each column `c`, row `i` holds the trace value in column `c` at
    /// row `(step + o * blowup) mod trace_len` — reads wrap around the end of
    /// the (extended) trace domain.
    fn read_from<R: TraceReader>(&mut self, data: &R, step: usize, blowup: usize)
        requires
            old(self).wf(),
            data.trace_wf(),
            data.trace_view().len() >= 1,
            data.trace_cols() == old(self).width_spec(),
            forall|i: int|
                0 <= i < old(self).offsets_spec().len() ==> step + (#[trigger] old(
                    self,
                ).offsets_spec()[i]) * blowup <= usize::MAX,
        ensures
            final(self).wf(),
            final(self).offsets_spec() == old(self).offsets_spec(),
            final(self).shift_spec() == old(self).shift_spec(),
            final(self).width_spec() == old(self).width_spec(),
            forall|i: int, c: int|
                0 <= i < final(self).offsets_spec().len() && 0 <= c < final(self).width_spec()
                    ==> (#[trigger] final(self).rows_spec()[i][c]) == data.trace_view()[(step
                    + final(self).offsets_spec()[i] * blowup) as int % data.trace_view().len() as int][c],
    ;

    /// The frame row at the given position, in offset order.
    fn row(&self, index: usize) -> (r: &Vec<Felt>)
        requires
            self.wf(),
            index < self.offsets_spec().len(),
        ensures
            r@ == self.rows_spec()[index as int],
    ;

    /// The first frame row: the row at relative offset position zero.
    fn main_row(&self) -> (r: &Vec<Felt>)
        requires
            self.wf(),
        ensures
            r@ == self.rows_spec()[0],
    ;

    /// `None` ("unbounded") when every column at the offset is active,
    /// `Some(0)` when the offset is not part of the frame's shape.
    fn row_len(&self, offset: usize) -> (r: Option<usize>)
        ensures
            r == (if self.offsets_spec().contains(offset) {
                Option::<usize>::None
            } else {
                Option::<usize>::Some(0usize)
            }),
    ;

    /// Whether the cell at the given offset and column participates in
    /// constraint evaluation.
    fn is_active_cell(&self, offset: usize, column_index: usize) -> (r: bool)
        ensures
            r == self.offsets_spec().contains(offset),
    ;

    /// The offsets that make up the frame.
    fn offsets(&self) -> (r: Vec<usize>)
        ensures
            r@ == self.offsets_spec(),
    ;

    /// The stride between consecutive logical evaluation steps.
    fn shift(&self) -> (r: usize)
        ensures
            r == self.shift_spec(),
    ;

    /// The number of frame rows.
    fn num_rows(&self) -> (r: usize)
        ensures
            r == self.offsets_spec().len(),
    ;
}

/// The conventional two-row frame over offsets `{0, 1}` with shift `1`: the
/// current row and the next row, stored as two independently owned row
/// vectors for direct mutable access on the constraint-evaluation hot path.
pub struct DefaultEvaluationFrame {
    current: Vec<Felt>,
    next: Vec<Felt>,
}

impl DefaultEvaluationFrame {
    /// Returns a reference to the current row.
    pub fn current(&self) -> (r: &Vec<Felt>)
        ensures
            r@ == self.rows_spec()[0],
    {
        &self.current
    }

    /// Returns a mutable reference to the current row.
    pub fn current_mut(&mut self) -> (r: &mut Vec<Felt>)
        ensures
            (*r)@ == old(self).rows_spec()[0],
            final(self).rows_spec().len() == 2,
            final(self).rows_spec()[0] == (*final(r))@,
            final(self).rows_spec()[1] == old(self).rows_spec()[1],
    {
        &mut self.current
    }

    /// Returns a reference to the next row.
    pub fn next(&self) -> (r: &Vec<Felt>)
        ensures
            r@ == self.rows_spec()[1],
    {
        &self.next
    }

    /// Returns a mutable reference to the next row.
    pub fn next_mut(&mut self) -> (r: &mut Vec<Felt>)
        ensures
            (*r)@ == old(self).rows_spec()[1],
            final(self).rows_spec().len() == 2,
            final(self).rows_spec()[0] == old(self).rows_spec()[0],
            final(self).rows_spec()[1] == (*final(r))@,
    {
        &mut self.next
    }
}

/// The two offsets of the conventional frame contain exactly the values
/// below two.
proof fn lemma_default_offsets_contains(s: Seq<usize>, offset: usize)
    requires
        s =~= seq![0usize, 1usize],
    ensures
        s.contains(offset) <==> offset < 2,
{
    if offset < 2 {
        if offset == 0 {
            assert(s[0] == offset);
        } else {
            assert(s[1] == offset);
        }
    } else {
        if s.contains(offset) {
            let k = choose|k: int| 0 <= k < s.len() && s[k] == offset;
            assert(s[k] == offset);
        }
    }
}

impl EvaluationFrame for DefaultEvaluationFrame {
    open spec fn offsets_spec(&self) -> Seq<usize> {
        seq![0usize, 1usize]
    }

    open spec fn shift_spec(&self) -> usize {
        1
    }

    closed spec fn width_spec(&self) -> nat {
        self.current@.len()
    }

    closed spec fn rows_spec(&self) -> Seq<Seq<Felt>> {
        seq![self.current@, self.next@]
    }

    closed spec fn wf(&self) -> bool {
        self.next@.len() == self.current@.len()
    }

    open spec fn ctx_allowed(ctx: &AirContext) -> bool {
        ctx.shape_spec().offsets_spec() =~= seq![0usize, 1usize] && ctx.shape_spec().shift_spec()
            == 1
    }

    proof fn lemma_wf(&self) {
        assert forall|i: int| 0 <= i < self.rows_spec().len() implies (#[trigger]
        self.rows_spec()[i]).len() == self.width_spec() by {
            if i == 0 {
                assert(self.rows_spec()[0] == self.current@);
            } else {
                assert(self.rows_spec()[1] == self.next@);
            }
        }
        assert(self.offsets_spec()[0] == 0);
        assert(self.offsets_spec()[1] == 1);
    }

    fn new(ctx: &AirContext) -> (frame: Self) {
        let num_cols = ctx.main_trace_width();
        let frame = DefaultEvaluationFrame {
            current: zero_row(num_cols),
            next: zero_row(num_cols),
        };
        proof {
            assert(frame.offsets_spec() =~= ctx.shape_spec().offsets_spec());
            assert forall|i: int, c: int|
                0 <= i < frame.rows_spec().len() && 0 <= c < frame.width_spec() implies (
            #[trigger] frame.rows_spec()[i][c])@ == 0 by {
                if i == 0 {
                    assert(frame.rows_spec()[0] == frame.current@);
                } else {
                    assert(frame.rows_spec()[1] == frame.next@);
                }
            }
        }
        frame
    }

    fn from_table(ctx: &AirContext, table: Table) -> (frame: Self) {
        proof {
            assert(ctx.shape_spec().offsets_spec().len() == 2);
        }
        let current = copy_row(table.get_row(0));
        let next = copy_row(table.get_row(1));
        let frame = DefaultEvaluationFrame { current, next };
        proof {
            assert(frame.offsets_spec() =~= ctx.shape_spec().offsets_spec());
            assert(frame.rows_spec() =~= table@);
        }
        frame
    }

    fn to_table(&self) -> (table: Table) {
        let num_cols = self.current.len();
        let mut rows: Vec<Vec<Felt>> = Vec::new();
        rows.push(copy_row(&self.current));
        rows.push(copy_row(&self.next));
        proof {
            assert(row_views(rows@)[0] == self.current@);
            assert(row_views(rows@)[1] == self.next@);
            assert forall|i: int| 0 <= i < row_views(rows@).len() implies (#[trigger] row_views(
                rows@,
            )[i]).len() == num_cols as nat by {
                if i == 0 {
                } else {
                    assert(row_views(rows@)[1] == self.next@);
                }
            }
        }
        let table = Table::from_rows_exact(rows, num_cols);
        proof {
            assert(table@ =~= self.rows_spec());
        }
        table
    }

    fn read_from<R: TraceReader>(&mut self, data: &R, step: usize, blowup: usize) {
        proof {
            assert(old(self).offsets_spec()[1] == 1);
            assert(old(self).offsets_spec()[1] * blowup == 1 * blowup);
            assert(step + blowup <= usize::MAX);
        }
        let trace_len = data.num_rows();
        let num_cols = data.num_cols();
        let cur_step = step % trace_len;
        let next_step = (step + blowup) % trace_len;
        let mut current: Vec<Felt> = Vec::new();
        let mut next: Vec<Felt> = Vec::new();
        let mut col: usize = 0;
        while col < num_cols
            invariant
                col <= num_cols,
                data.trace_wf(),
                num_cols == data.trace_cols(),
                trace_len == data.trace_view().len(),
                trace_len >= 1,
                cur_step < trace_len,
                next_step < trace_len,
                current@.len() == col,
                next@.len() == col,
                forall|b: int|
                    0 <= b < col ==> #[trigger] current@[b] == data.trace_view()[cur_step as int][b],
                forall|b: int|
                    0 <= b < col ==> #[trigger] next@[b] == data.trace_view()[next_step as int][b],
            decreases num_cols - col,
        {
            current.push(data.get(col, cur_step));
            next.push(data.get(col, next_step));
            col = col + 1;
        }
        self.current = current;
        self.next = next;
        proof {
            assert forall|i: int, c: int|
                0 <= i < self.offsets_spec().len() && 0 <= c < self.width_spec() implies (
            #[trigger] self.rows_spec()[i][c]) == data.trace_view()[(step + self.offsets_spec()[i]
                * blowup) as int % data.trace_view().len() as int][c] by {
                if i == 0 {
                    assert(self.offsets_spec()[0] == 0);
                    assert(self.offsets_spec()[0] * blowup == 0 * blowup);
                    assert((step + self.offsets_spec()[0] * blowup) as int == step as int);
                    assert(self.rows_spec()[0] == self.current@);
                    assert(self.current@[c] == data.trace_view()[cur_step as int][c]);
                } else {
                    assert(self.offsets_spec()[1] == 1);
                    assert(self.offsets_spec()[1] * blowup == 1 * blowup);
                    assert((step + self.offsets_spec()[1] * blowup) as int == (step + blowup) as int);
                    assert(self.rows_spec()[1] == self.next@);
                    assert(self.next@[c] == data.trace_view()[next_step as int][c]);
                }
            }
        }
    }

    fn row(&self, index: usize) -> (r: &Vec<Felt>) {
        if index == 0 {
            &self.current
        } else {
            proof {
                assert(self.rows_spec()[1] == self.next@);
            }
            &self.next
        }
    }

    fn main_row(&self) -> (r: &Vec<Felt>) {
        &self.current
    }

    fn row_len(&self, offset: usize) -> (r: Option<usize>) {
        proof {
            lemma_default_offsets_contains(self.offsets_spec(), offset);
        }
        if offset < 2 {
            None
        } else {
            Some(0)
        }
    }

    fn is_active_cell(&self, offset: usize, column_index: usize) -> (r: bool) {
        proof {
            lemma_default_offsets_contains(self.offsets_spec(), offset);
        }
        offset < 2
    }

    fn offsets(&self) -> (r: Vec<usize>) {
        let mut offsets: Vec<usize> = Vec::new();
        offsets.push(0);
        offsets.push(1);
        proof {
            assert(offsets@ =~= self.offsets_spec());
        }
        offsets
    }

    fn shift(&self) -> (r: usize) {
        1
    }

    fn num_rows(&self) -> (r: usize) {
        2
    }
}

/// A frame over an arbitrary configured shape, backed by a single row-major
/// table with one row per offset.
pub struct CustomEvaluationFrame {
    table: Table,
    shape: FrameShape,
}

impl EvaluationFrame for CustomEvaluationFrame {
    closed spec fn offsets_spec(&self) -> Seq<usize> {
        self.shape.offsets_spec()
    }

    closed spec fn shift_spec(&self) -> usize {
        self.shape.shift_spec()
    }

    closed spec fn width_spec(&self) -> nat {
        self.table.cols_spec()
    }

    closed spec fn rows_spec(&self) -> Seq<Seq<Felt>> {
        self.table@
    }

    closed spec fn wf(&self) -> bool {
        self.shape.wf() && self.table.wf() && self.table@.len()
            == self.shape.offsets_spec().len()
    }

    open spec fn ctx_allowed(ctx: &AirContext) -> bool {
        true
    }

    proof fn lemma_wf(&self) {
    }

    fn new(ctx: &AirContext) -> (frame: Self) {
        let shape = ctx.shape().duplicate();
        let num_rows = shape.num_rows();
        let table = Table::new(num_rows, ctx.main_trace_width());
        CustomEvaluationFrame { table, shape }
    }

    fn from_table(ctx: &AirContext, table: Table) -> (frame: Self) {
        let shape = ctx.shape().duplicate();
        CustomEvaluationFrame { table, shape }
    }

    fn to_table(&self) -> (table: Table) {
        self.table.duplicate()
    }

    fn read_from<R: TraceReader>(&mut self, data: &R, step: usize, blowup: usize) {
        let num_cols = data.num_cols();
        proof {
            assert forall|i: int| 0 <= i < self.shape.offsets_spec().len() implies step + (
            #[trigger] self.shape.offsets_spec()[i]) * blowup <= usize::MAX by {
                assert(old(self).offsets_spec()[i] == self.shape.offsets_spec()[i]);
            }
        }
        let rows = read_window(&self.shape, data, step, blowup);
        proof {
            assert forall|i: int| 0 <= i < row_views(rows@).len() implies (#[trigger] row_views(
                rows@,
            )[i]).len() == num_cols as nat by {
                assert(rows@[i]@.len() == data.trace_cols());
            }
        }
        self.table = Table::from_rows_exact(rows, num_cols);
    }

    fn row(&self, index: usize) -> (r: &Vec<Felt>) {
        self.table.get_row(index)
    }

    fn main_row(&self) -> (r: &Vec<Felt>) {
        self.table.get_row(0)
    }

    fn row_len(&self, offset: usize) -> (r: Option<usize>) {
        self.shape.row_len(offset)
    }

    fn is_active_cell(&self, offset: usize, column_index: usize) -> (r: bool) {
        self.shape.is_active_cell(offset, column_index)
    }

    fn offsets(&self) -> (r: Vec<usize>) {
        let copy = self.shape.duplicate();
        copy.offsets
    }

    fn shift(&self) -> (r: usize) {
        self.shape.shift()
    }

    fn num_rows(&self) -> (r: usize) {
        self.shape.num_rows()
    }
}

/// Reads one shape window from the trace: row `i` holds, for each column
/// `c`, the trace value in column `c` at row
/// `(step + offsets[i] * blowup) mod trace_len`.
fn read_window<R: TraceReader>(
    shape: &FrameShape,
    data: &R,
    step: usize,
    blowup: usize,
) -> (rows: Vec<Vec<Felt>>)
    requires
        data.trace_wf(),
        data.trace_view().len() >= 1,
        forall|i: int|
            0 <= i < shape.offsets_spec().len() ==> step + (#[trigger] shape.offsets_spec()[i])
                * blowup <= usize::MAX,
    ensures
        rows@.len() == shape.offsets_spec().len(),
        forall|i: int| 0 <= i < rows@.len() ==> (#[trigger] rows@[i])@.len() == data.trace_cols(),
        forall|i: int, c: int|
            0 <= i < rows@.len() && 0 <= c < data.trace_cols() ==> (#[trigger] rows@[i]@[c])
                == data.trace_view()[(step + shape.offsets_spec()[i] * blowup) as int
                % data.trace_view().len() as int][c],
{
    let trace_len = data.num_rows();
    let num_cols = data.num_cols();
    let n = shape.num_rows();
    let mut rows: Vec<Vec<Felt>> = Vec::new();
    let mut i: usize = 0;
    while i < n
        invariant
            i <= n,
            n == shape.offsets_spec().len(),
            data.trace_wf(),
            trace_len == data.trace_view().len(),
            trace_len >= 1,
            num_cols == data.trace_cols(),
            forall|a: int|
                0 <= a < n ==> step + (#[trigger] shape.offsets_spec()[a]) * blowup <= usize::MAX,
            rows@.len() == i,
            forall|a: int| 0 <= a < i ==> (#[trigger] rows@[a])@.len() == num_cols,
            forall|a: int, c: int|
                0 <= a < i && 0 <= c < num_cols ==> (#[trigger] rows@[a]@[c])
                    == data.trace_view()[(step + shape.offsets_spec()[a] * blowup) as int
                    % trace_len as int][c],
        decreases n - i,
    {
        let offset = shape.offset_at(i);
        let idx = (step + offset * blowup) % trace_len;
        let mut row: Vec<Felt> = Vec::new();
        let mut c: usize = 0;
        while c < num_cols
            invariant
                c <= num_cols,
                data.trace_wf(),
                num_cols == data.trace_cols(),
                trace_len == data.trace_view().len(),
                idx < trace_len,
                row@.len() == c,
                forall|b: int|
                    0 <= b < c ==> #[trigger] row@[b] == data.trace_view()[idx as int][b],
            decreases num_cols - c,
        {
            row.push(data.get(c, idx));
            c = c + 1;
        }
        rows.push(row);
        i = i + 1;
    }
    rows
}

} // verus!
