//! The dense row-major matrix that backs traces, frames and trace
//! polynomials, and the trace-reader capability that exposes a trace as a
//! two-dimensional array.

use crate::field::Felt;
use vstd::prelude::*;

verus! {

/// Whether every row of `t` has exactly `cols` entries.
pub open spec fn rectangular(t: Seq<Seq<Felt>>, cols: nat) -> bool {
    forall|i: int| 0 <= i < t.len() ==> (#[trigger] t[i]).len() == cols
}

/// The rows of a vector of row vectors, as sequences.
pub open spec fn row_views(rows: Seq<Vec<Felt>>) -> Seq<Seq<Felt>> {
    rows.map_values(|row: Vec<Felt>| row@)
}

/// The ways building a table from materialized rows can fail.
#[derive(Clone, Copy, PartialEq, Eq, Structural, Debug)]
pub enum TableError {
    /// No rows were provided, so the column count is undefined.
    Empty,
    /// Two of the provided rows differ in length.
    RaggedRows,
}

/// A dense, row-major matrix of field elements with dimensions fixed at
/// construction. Its view is the sequence of its rows.
#[derive(Debug)]
pub struct Table {
    data: Vec<Vec<Felt>>,
    cols: usize,
}

impl View for Table {
    type V = Seq<Seq<Felt>>;

    closed spec fn view(&self) -> Seq<Seq<Felt>> {
        self.data@.map_values(|row: Vec<Felt>| row@)
    }
}

impl Table {
    /// The number of columns the table was built with.
    pub closed spec fn cols_spec(&self) -> nat {
        self.cols as nat
    }

    /// Every row holds exactly `cols_spec()` cells.
    pub open spec fn wf(&self) -> bool {
        rectangular(self@, self.cols_spec())
    }

    /// A zero-filled table of the given dimensions.
    pub fn new(num_rows: usize, num_cols: usize) -> (t: Table)
        ensures
            t.wf(),
            t@.len() == num_rows,
            t.cols_spec() == num_cols,
            forall|i: int, j: int|
                0 <= i < num_rows && 0 <= j < num_cols ==> (#[trigger] t@[i][j])@ == 0,
    {
        let mut data: Vec<Vec<Felt>> = Vec::new();
        let mut i: usize = 0;
        while i < num_rows
            invariant
                i <= num_rows,
                data@.len() == i,
                forall|a: int| 0 <= a < i ==> (#[trigger] data@[a])@.len() == num_cols,
                forall|a: int, b: int|
                    0 <= a < i && 0 <= b < num_cols ==> (#[trigger] data@[a]@[b])@ == 0,
            decreases num_rows - i,
        {
            data.push(zero_row(num_cols));
            i = i + 1;
        }
        Table { data, cols: num_cols }
    }

    /// A table made of the given rows, which must be non-empty and all of one
    /// length; reports the reason otherwise and builds nothing.
    pub fn from_rows(rows: Vec<Vec<Felt>>) -> (result: Result<Table, TableError>)
        ensures
            result is Ok <==> rows@.len() > 0 && rectangular(row_views(rows@), rows@[0]@.len()),
            result == Err::<Table, TableError>(TableError::Empty) <==> rows@.len() == 0,
            result == Err::<Table, TableError>(TableError::RaggedRows) <==> rows@.len() > 0
                && !rectangular(row_views(rows@), rows@[0]@.len()),
            result matches Ok(t) ==> t@ == row_views(rows@) && t.cols_spec() == rows@[0]@.len()
                && t.wf(),
    {
        if rows.len() == 0 {
            return Err(TableError::Empty);
        }
        let num_cols = rows[0].len();
        let mut i: usize = 1;
        while i < rows.len()
            invariant
                1 <= i <= rows@.len(),
                num_cols == rows@[0]@.len(),
                forall|a: int| 0 <= a < i ==> (#[trigger] rows@[a])@.len() == num_cols,
            decreases rows@.len() - i,
        {
            if rows[i].len() != num_cols {
                proof {
                    assert(row_views(rows@)[i as int] == rows@[i as int]@);
                    assert(!rectangular(row_views(rows@), rows@[0]@.len()));
                }
                return Err(TableError::RaggedRows);
            }
            i = i + 1;
        }
        proof {
            assert forall|a: int| 0 <= a < rows@.len() implies (#[trigger] row_views(
                rows@,
            )[a]).len() == num_cols as nat by {
                assert(rows@[a]@.len() == num_cols);
            }
        }
        Ok(Table { data: rows, cols: num_cols })
    }

    /// A table made of the given rows, for callers that have already
    /// established that all rows have length `num_cols`.
    pub(crate) fn from_rows_exact(rows: Vec<Vec<Felt>>, num_cols: usize) -> (t: Table)
        requires
            rectangular(row_views(rows@), num_cols as nat),
        ensures
            t.wf(),
            t@ == row_views(rows@),
            t.cols_spec() == num_cols,
    {
        Table { data: rows, cols: num_cols }
    }

    /// The number of rows.
    pub fn num_rows(&self) -> (n: usize)
        ensures
            n == self@.len(),
    {
        self.data.len()
    }

    /// The number of columns.
    pub fn num_cols(&self) -> (n: usize)
        ensures
            n == self.cols_spec(),
    {
        self.cols
    }

    /// The cell at the given row and column.
    pub fn get(&self, row: usize, col: usize) -> (v: Felt)
        requires
            self.wf(),
            row < self@.len(),
            col < self.cols_spec(),
        ensures
            v == self@[row as int][col as int],
    {
        proof {
            assert(self@[row as int] == self.data@[row as int]@);
        }
        self.data[row][col]
    }

    /// Writes one cell in place; the sole mutator, standing in for a
    /// mutable-rows iterator.
    pub fn set(&mut self, row: usize, col: usize, value: Felt)
        requires
            old(self).wf(),
            row < old(self)@.len(),
            col < old(self).cols_spec(),
        ensures
            final(self).wf(),
            final(self).cols_spec() == old(self).cols_spec(),
            final(self)@ == old(self)@.update(
                row as int,
                old(self)@[row as int].update(col as int, value),
            ),
    {
        proof {
            assert(old(self)@[row as int] == old(self).data@[row as int]@);
        }
        self.data[row][col] = value;
        proof {
            assert(self@ =~= old(self)@.update(
                row as int,
                old(self)@[row as int].update(col as int, value),
            ));
        }
    }

    /// A borrowed view of the row at the given index.
    pub fn get_row(&self, row: usize) -> (r: &Vec<Felt>)
        requires
            row < self@.len(),
        ensures
            r@ == self@[row as int],
    {
        &self.data[row]
    }

    /// An independent copy of the table.
    pub fn duplicate(&self) -> (t: Table)
        ensures
            t@ == self@,
            t.cols_spec() == self.cols_spec(),
    {
        let mut data: Vec<Vec<Felt>> = Vec::new();
        let mut i: usize = 0;
        while i < self.data.len()
            invariant
                i <= self@.len(),
                data@.len() == i,
                forall|a: int| 0 <= a < i ==> (#[trigger] data@[a])@ == self@[a],
            decreases self@.len() - i,
        {
            proof {
                assert(self@[i as int] == self.data@[i as int]@);
            }
            data.push(copy_row(&self.data[i]));
            i = i + 1;
        }
        let t = Table { data, cols: self.cols };
        proof {
            assert(t@ =~= self@);
        }
        t
    }
}

/// A row of `n` zero elements.
pub(crate) fn zero_row(n: usize) -> (row: Vec<Felt>)
    ensures
        row@.len() == n,
        forall|j: int| 0 <= j < n ==> (#[trigger] row@[j])@ == 0,
{
    let mut row: Vec<Felt> = Vec::new();
    let mut j: usize = 0;
    while j < n
        invariant
            j <= n,
            row@.len() == j,
            forall|a: int| 0 <= a < j ==> (#[trigger] row@[a])@ == 0,
        decreases n - j,
    {
        row.push(Felt::zero());
        j = j + 1;
    }
    row
}

/// An element-wise copy of a row.
pub(crate) fn copy_row(row: &Vec<Felt>) -> (r: Vec<Felt>)
    ensures
        r@ == row@,
{
    let mut r: Vec<Felt> = Vec::new();
    let mut j: usize = 0;
    while j < row.len()
        invariant
            j <= row@.len(),
            r@.len() == j,
            forall|a: int| 0 <= a < j ==> r@[a] == row@[a],
        decreases row@.len() - j,
    {
        r.push(row[j]);
        j = j + 1;
    }
    proof {
        assert(r@ =~= row@);
    }
    r
}

/// Read-only, random-access capability over an execution trace: a
/// two-dimensional array of field elements addressed by column and row.
pub trait TraceReader {
    /// The trace as a sequence of rows.
    spec fn trace_view(&self) -> Seq<Seq<Felt>>;

    /// The number of columns of the trace.
    spec fn trace_cols(&self) -> nat;

    /// Whether the reader's own invariant holds.
    spec fn trace_wf(&self) -> bool;

    /// The number of rows of the trace.
    fn num_rows(&self) -> (n: usize)
        requires
            self.trace_wf(),
        ensures
            n == self.trace_view().len(),
    ;

    /// The number of columns of the trace.
    fn num_cols(&self) -> (n: usize)
        requires
            self.trace_wf(),
        ensures
            n == self.trace_cols(),
    ;

    /// The value in the given column at the given row.
    fn get(&self, col: usize, row: usize) -> (v: Felt)
        requires
            self.trace_wf(),
            row < self.trace_view().len(),
            col < self.trace_cols(),
        ensures
            v == self.trace_view()[row as int][col as int],
    ;
}

impl TraceReader for Table {
    open spec fn trace_view(&self) -> Seq<Seq<Felt>> {
        self@
    }

    open spec fn trace_cols(&self) -> nat {
        self.cols_spec()
    }

    open spec fn trace_wf(&self) -> bool {
        self.wf()
    }

    fn num_rows(&self) -> (n: usize) {
        self.data.len()
    }

    fn num_cols(&self) -> (n: usize) {
        self.cols
    }

    fn get(&self, col: usize, row: usize) -> (v: Felt) {
        proof {
            assert(self@[row as int] == self.data@[row as int]@);
        }
        self.data[row][col]
    }
}

} // verus!
