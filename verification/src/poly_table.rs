//! Trace polynomials in coefficient form for all segments of the execution
//! trace, and the out-of-domain frame built by evaluating them at a challenge
//! point scaled by powers of the trace-domain generator.

use crate::field::{
    is_power_of_two, log2, log2_spec, pow_mod, root_of_unity_spec, Felt, MODULUS,
};
use crate::frame::{AirContext, FrameShape};
use crate::table::Table;
use vstd::arithmetic::div_mod::lemma_add_mod_noop_right;
use vstd::arithmetic::power2::{lemma2_to64, lemma_pow2_strictly_increases, pow2};
use vstd::prelude::*;

verus! {

/// Column `c` of the row-major matrix `m`: one coefficient per row.
pub open spec fn column_spec(m: Seq<Seq<Felt>>, c: int) -> Seq<Felt> {
    Seq::new(m.len(), |r: int| m[r][c])
}

/// All columns of the row-major matrix `m`, in column order.
pub open spec fn segment_columns(m: Seq<Seq<Felt>>, cols: nat) -> Seq<Seq<Felt>> {
    Seq::new(cols, |c: int| column_spec(m, c))
}

/// The value at `x` of the polynomial whose coefficients are `coeffs`, lowest
/// degree first, with all arithmetic in the field.
pub open spec fn poly_eval_spec(coeffs: Seq<Felt>, x: nat) -> nat
    decreases coeffs.len(),
{
    if coeffs.len() == 0 {
        0
    } else {
        (coeffs[0]@ + x * poly_eval_spec(coeffs.subrange(1, coeffs.len() as int), x)) % (
        MODULUS as nat)
    }
}

/// The columns of `cols` selected by `mask`, in order.
pub open spec fn masked_columns(cols: Seq<Seq<Felt>>, mask: Seq<bool>) -> Seq<Seq<Felt>>
    recommends
        mask.len() == cols.len(),
    decreases cols.len(),
{
    if cols.len() == 0 {
        Seq::<Seq<Felt>>::empty()
    } else {
        masked_columns(cols.drop_last(), mask.drop_last()) + if mask[cols.len() - 1] {
            seq![cols.last()]
        } else {
            Seq::<Seq<Felt>>::empty()
        }
    }
}

/// The per-column activity of the given shape at the given offset, as a mask
/// over `width` main-trace columns.
pub open spec fn active_mask_spec(shape: &FrameShape, offset: usize, width: nat) -> Seq<bool> {
    Seq::new(width, |c: int| shape.is_active_spec(offset, c as usize))
}

/// The way appending an auxiliary segment can fail.
#[derive(Clone, Copy, PartialEq, Eq, Structural, Debug)]
pub enum SegmentError {
    /// The auxiliary segment's polynomials have a different number of
    /// coefficients than the main segment's.
    SizeMismatch,
}

/// Trace polynomials in coefficient form for all segments of the execution
/// trace: one matrix for the main segment and one per auxiliary segment, all
/// with the same number of rows (`poly_size`, one coefficient per trace row),
/// one column per trace column.
pub struct TracePolyTable {
    main_segment_polys: Table,
    aux_segment_polys: Vec<Table>,
}

impl TracePolyTable {
    /// The main segment's coefficient matrix.
    pub closed spec fn main_view(&self) -> Seq<Seq<Felt>> {
        self.main_segment_polys@
    }

    /// The number of main segment columns.
    pub closed spec fn main_cols(&self) -> nat {
        self.main_segment_polys.cols_spec()
    }

    /// The auxiliary segments' coefficient matrices, in append order.
    pub closed spec fn aux_view(&self) -> Seq<Seq<Seq<Felt>>> {
        self.aux_segment_polys@.map_values(|t: Table| t@)
    }

    /// The number of columns of each auxiliary segment, in append order.
    pub closed spec fn aux_cols(&self) -> Seq<nat> {
        self.aux_segment_polys@.map_values(|t: Table| t.cols_spec())
    }

    /// Every stored matrix is rectangular and every auxiliary segment has as
    /// many rows as the main segment.
    pub closed spec fn wf(&self) -> bool {
        &&& self.main_segment_polys.wf()
        &&& forall|k: int|
            0 <= k < self.aux_segment_polys@.len() ==> (#[trigger] self.aux_segment_polys@[k]).wf()
                && self.aux_segment_polys@[k]@.len() == self.main_segment_polys@.len()
    }

    /// The number of coefficients of every stored polynomial.
    pub open spec fn poly_size_spec(&self) -> nat {
        self.main_view().len()
    }

    /// The columns of the first `k` auxiliary segments, concatenated in
    /// segment order.
    pub open spec fn aux_columns_upto(&self, k: int) -> Seq<Seq<Felt>>
        decreases k,
    {
        if k <= 0 {
            Seq::<Seq<Felt>>::empty()
        } else {
            self.aux_columns_upto(k - 1) + segment_columns(
                self.aux_view()[k - 1],
                self.aux_cols()[k - 1],
            )
        }
    }

    /// Every stored column polynomial: the main segment's columns followed by
    /// each auxiliary segment's columns, in segment order.
    pub open spec fn all_columns(&self) -> Seq<Seq<Felt>> {
        segment_columns(self.main_view(), self.main_cols()) + self.aux_columns_upto(
            self.aux_view().len() as int,
        )
    }

    /// The column polynomials picked out by `mask` on the main segment,
    /// followed by every auxiliary column: what a masked evaluation computes.
    pub open spec fn some_columns(&self, mask: Seq<bool>) -> Seq<Seq<Felt>> {
        masked_columns(segment_columns(self.main_view(), self.main_cols()), mask)
            + self.aux_columns_upto(self.aux_view().len() as int)
    }

    /// The point `z * g^offset` at which an out-of-domain frame row is
    /// evaluated, where `g` generates the trace domain of this table.
    pub open spec fn ood_point_spec(&self, z: nat, offset: usize) -> nat {
        (z * pow_mod(root_of_unity_spec(log2_spec(self.poly_size_spec())), offset as nat)) % (
        MODULUS as nat)
    }

    /// A table of trace polynomials from the main segment's column
    /// polynomials; `poly_size` is fixed to this matrix's row count.
    pub fn new(main_trace_polys: Table) -> (table: TracePolyTable)
        requires
            main_trace_polys.wf(),
        ensures
            table.wf(),
            table.main_view() == main_trace_polys@,
            table.main_cols() == main_trace_polys.cols_spec(),
            table.aux_view() == Seq::<Seq<Seq<Felt>>>::empty(),
            table.aux_cols() == Seq::<nat>::empty(),
    {
        let table = TracePolyTable {
            main_segment_polys: main_trace_polys,
            aux_segment_polys: Vec::new(),
        };
        proof {
            assert(table.aux_view() =~= Seq::<Seq<Seq<Felt>>>::empty());
            assert(table.aux_cols() =~= Seq::<nat>::empty());
        }
        table
    }

    /// Appends an auxiliary segment. Fails, leaving the table unchanged, if
    /// and only if the segment's row count differs from `poly_size`.
    pub fn add_aux_segment(&mut self, aux_segment_polys: Table) -> (result: Result<
        (),
        SegmentError,
    >)
        requires
            old(self).wf(),
            aux_segment_polys.wf(),
        ensures
            final(self).wf(),
            result is Ok <==> aux_segment_polys@.len() == old(self).poly_size_spec(),
            result is Err ==> result == Err::<(), SegmentError>(SegmentError::SizeMismatch)
                && *final(self) == *old(self),
            final(self).main_view() == old(self).main_view(),
            final(self).main_cols() == old(self).main_cols(),
            result is Ok ==> final(self).aux_view() == old(self).aux_view().push(
                aux_segment_polys@,
            ) && final(self).aux_cols() == old(self).aux_cols().push(
                aux_segment_polys.cols_spec(),
            ),
    {
        if aux_segment_polys.num_rows() != self.main_segment_polys.num_rows() {
            return Err(SegmentError::SizeMismatch);
        }
        self.aux_segment_polys.push(aux_segment_polys);
        proof {
            assert(self.aux_view() =~= old(self).aux_view().push(aux_segment_polys@));
            assert(self.aux_cols() =~= old(self).aux_cols().push(aux_segment_polys.cols_spec()));
        }
        Ok(())
    }

    /// The size of each polynomial: the length of a vector needed to hold one.
    pub fn poly_size(&self) -> (n: usize)
        ensures
            n == self.poly_size_spec(),
    {
        self.main_segment_polys.num_rows()
    }

    /// Evaluates all trace polynomials, across all trace segments, at `x`.
    pub fn evaluate_at(&self, x: Felt) -> (result: Vec<Felt>)
        requires
            self.wf(),
        ensures
            result@.len() == self.all_columns().len(),
            forall|k: int|
                0 <= k < result@.len() ==> (#[trigger] result@[k])@ == poly_eval_spec(
                    self.all_columns()[k],
                    x@,
                ),
    {
        let mut result = eval_segment(&self.main_segment_polys, x);
        let mut aux = self.eval_aux_segments(x);
        result.append(&mut aux);
        proof {
            assert(result@.len() == self.all_columns().len());
        }
        result
    }

    /// Evaluates the main-segment polynomials picked out by `predicate`
    /// (one flag per main column), and every auxiliary polynomial, at `x`.
    pub fn evaluate_some_at(&self, predicate: &Vec<bool>, x: Felt) -> (result: Vec<Felt>)
        requires
            self.wf(),
            predicate@.len() == self.main_cols(),
        ensures
            result@.len() == self.some_columns(predicate@).len(),
            forall|k: int|
                0 <= k < result@.len() ==> (#[trigger] result@[k])@ == poly_eval_spec(
                    self.some_columns(predicate@)[k],
                    x@,
                ),
    {
        let mut result = eval_segment_masked(&self.main_segment_polys, predicate, x);
        let mut aux = self.eval_aux_segments(x);
        result.append(&mut aux);
        result
    }

    /// Evaluates every auxiliary polynomial at `x`, segment by segment.
    fn eval_aux_segments(&self, x: Felt) -> (result: Vec<Felt>)
        requires
            self.wf(),
        ensures
            result@.len() == self.aux_columns_upto(self.aux_view().len() as int).len(),
            forall|k: int|
                0 <= k < result@.len() ==> (#[trigger] result@[k])@ == poly_eval_spec(
                    self.aux_columns_upto(self.aux_view().len() as int)[k],
                    x@,
                ),
    {
        let mut result: Vec<Felt> = Vec::new();
        let mut s: usize = 0;
        while s < self.aux_segment_polys.len()
            invariant
                s <= self.aux_view().len(),
                self.wf(),
                result@.len() == self.aux_columns_upto(s as int).len(),
                forall|k: int|
                    0 <= k < result@.len() ==> (#[trigger] result@[k])@ == poly_eval_spec(
                        self.aux_columns_upto(s as int)[k],
                        x@,
                    ),
            decreases self.aux_view().len() - s,
        {
            proof {
                assert(self.aux_view()[s as int] == self.aux_segment_polys@[s as int]@);
                assert(self.aux_cols()[s as int] == self.aux_segment_polys@[s as int].cols_spec());
            }
            let mut seg = eval_segment(&self.aux_segment_polys[s], x);
            result.append(&mut seg);
            s = s + 1;
        }
        result
    }

    /// The out-of-domain frame at challenge point `z`: one row per offset of
    /// the context's frame shape, where the row for offset `o` evaluates the
    /// columns active at `o` at the point `z * g^o`, `g` the generator of the
    /// trace domain.
    pub fn get_ood_frame(&self, z: Felt, ctx: &AirContext) -> (result: Vec<Vec<Felt>>)
        requires
            self.wf(),
            ctx.shape_spec().wf(),
            is_power_of_two(self.poly_size_spec()),
            self.poly_size_spec() <= 0x1_0000_0000,
        ensures
            result@.len() == ctx.shape_spec().offsets_spec().len(),
            forall|i: int, k: int|
                0 <= i < result@.len() && 0 <= k < result@[i]@.len() ==> (#[trigger] result@[i]@[k])@
                    == poly_eval_spec(
                    self.some_columns(
                        active_mask_spec(
                            &ctx.shape_spec(),
                            ctx.shape_spec().offsets_spec()[i],
                            self.main_cols(),
                        ),
                    )[k],
                    self.ood_point_spec(z@, ctx.shape_spec().offsets_spec()[i]),
                ),
            forall|i: int|
                0 <= i < result@.len() ==> (#[trigger] result@[i])@.len() == self.some_columns(
                    active_mask_spec(
                        &ctx.shape_spec(),
                        ctx.shape_spec().offsets_spec()[i],
                        self.main_cols(),
                    ),
                ).len(),
    {
        let n_log = log2(self.poly_size());
        proof {
            lemma2_to64();
            if n_log > 32 {
                lemma_pow2_strictly_increases(32, n_log as nat);
            }
        }
        let g = Felt::get_root_of_unity(n_log);
        let shape = ctx.shape();
        let num_offsets = shape.num_rows();
        let width = self.main_segment_polys.num_cols();
        let mut result: Vec<Vec<Felt>> = Vec::new();
        let mut i: usize = 0;
        while i < num_offsets
            invariant
                i <= num_offsets,
                self.wf(),
                num_offsets == shape.offsets_spec().len(),
                shape == ctx.shape_spec(),
                width == self.main_cols(),
                g@ == root_of_unity_spec(log2_spec(self.poly_size_spec())),
                result@.len() == i,
                forall|a: int, k: int|
                    0 <= a < i && 0 <= k < result@[a]@.len() ==> (#[trigger] result@[a]@[k])@
                        == poly_eval_spec(
                        self.some_columns(
                            active_mask_spec(shape, shape.offsets_spec()[a], self.main_cols()),
                        )[k],
                        self.ood_point_spec(z@, shape.offsets_spec()[a]),
                    ),
                forall|a: int|
                    0 <= a < i ==> (#[trigger] result@[a])@.len() == self.some_columns(
                        active_mask_spec(shape, shape.offsets_spec()[a], self.main_cols()),
                    ).len(),
            decreases num_offsets - i,
        {
            let offset = shape.offset_at(i);
            let x = z.mul(g.exp(offset as u64));
            let mask = active_mask(shape, offset, width);
            let row = self.evaluate_some_at(&mask, x);
            result.push(row);
            i = i + 1;
        }
        result
    }

    /// The polynomials of the main trace segment, one coefficient vector per
    /// column.
    pub fn main_trace_polys(&self) -> (result: Vec<Vec<Felt>>)
        requires
            self.wf(),
        ensures
            result@.len() == self.main_cols(),
            forall|c: int|
                0 <= c < result@.len() ==> (#[trigger] result@[c])@ == column_spec(
                    self.main_view(),
                    c,
                ),
    {
        let mut result: Vec<Vec<Felt>> = Vec::new();
        let mut c: usize = 0;
        let width = self.main_segment_polys.num_cols();
        while c < width
            invariant
                c <= width,
                self.wf(),
                width == self.main_cols(),
                result@.len() == c,
                forall|a: int|
                    0 <= a < c ==> (#[trigger] result@[a])@ == column_spec(self.main_view(), a),
            decreases width - c,
        {
            result.push(extract_column(&self.main_segment_polys, c));
            c = c + 1;
        }
        result
    }

    /// The polynomials of all auxiliary trace segments, one coefficient
    /// vector per column, in segment order.
    pub fn aux_trace_polys(&self) -> (result: Vec<Vec<Felt>>)
        requires
            self.wf(),
        ensures
            result@.len() == self.aux_columns_upto(self.aux_view().len() as int).len(),
            forall|k: int|
                0 <= k < result@.len() ==> (#[trigger] result@[k])@ == self.aux_columns_upto(
                    self.aux_view().len() as int,
                )[k],
    {
        let mut result: Vec<Vec<Felt>> = Vec::new();
        let mut s: usize = 0;
        while s < self.aux_segment_polys.len()
            invariant
                s <= self.aux_view().len(),
                self.wf(),
                result@.len() == self.aux_columns_upto(s as int).len(),
                forall|k: int|
                    0 <= k < result@.len() ==> (#[trigger] result@[k])@ == self.aux_columns_upto(
                        s as int,
                    )[k],
            decreases self.aux_view().len() - s,
        {
            proof {
                assert(self.aux_view()[s as int] == self.aux_segment_polys@[s as int]@);
                assert(self.aux_cols()[s as int] == self.aux_segment_polys@[s as int].cols_spec());
            }
            let ghost upto = self.aux_columns_upto(s as int);
            let ghost seg_cols = segment_columns(self.aux_view()[s as int], self.aux_cols()[s as int]);
            let seg = &self.aux_segment_polys[s];
            let seg_width = seg.num_cols();
            let mut c: usize = 0;
            while c < seg_width
                invariant
                    c <= seg_width,
                    self.wf(),
                    s < self.aux_view().len(),
                    seg == self.aux_segment_polys@[s as int],
                    seg_width == self.aux_cols()[s as int],
                    seg_cols == segment_columns(
                        self.aux_view()[s as int],
                        self.aux_cols()[s as int],
                    ),
                    upto == self.aux_columns_upto(s as int),
                    result@.len() == upto.len() + c,
                    forall|k: int| 0 <= k < upto.len() ==> (#[trigger] result@[k])@ == upto[k],
                    forall|b: int|
                        0 <= b < c ==> (#[trigger] result@[upto.len() + b])@ == seg_cols[b],
                decreases seg_width - c,
            {
                proof {
                    assert(self.aux_view()[s as int] == self.aux_segment_polys@[s as int]@);
                }
                result.push(extract_column(seg, c));
                c = c + 1;
            }
            proof {
                assert(self.aux_columns_upto(s + 1) == upto + seg_cols);
                assert forall|k: int| 0 <= k < result@.len() implies (#[trigger] result@[k])@
                    == self.aux_columns_upto(s + 1)[k] by {
                    if k < upto.len() {
                        assert((upto + seg_cols)[k] == upto[k]);
                    } else {
                        let b = k - upto.len();
                        assert((upto + seg_cols)[k] == seg_cols[b]);
                        assert(result@[upto.len() + b]@ == seg_cols[b]);
                    }
                }
            }
            s = s + 1;
        }
        result
    }

    /// The number of polynomials in the main segment of the trace.
    pub fn num_main_trace_polys(&self) -> (n: usize)
        ensures
            n == self.main_cols(),
    {
        self.main_segment_polys.num_cols()
    }

    /// The polynomial of the main trace segment at the given column index.
    pub fn get_main_trace_poly(&self, idx: usize) -> (result: Vec<Felt>)
        requires
            self.wf(),
            idx < self.main_cols(),
        ensures
            result@ == column_spec(self.main_view(), idx as int),
    {
        extract_column(&self.main_segment_polys, idx)
    }
}

/// Column `col` of the table as an owned coefficient vector.
fn extract_column(table: &Table, col: usize) -> (result: Vec<Felt>)
    requires
        table.wf(),
        col < table.cols_spec(),
    ensures
        result@ == column_spec(table@, col as int),
{
    let n = table.num_rows();
    let mut result: Vec<Felt> = Vec::new();
    let mut r: usize = 0;
    while r < n
        invariant
            r <= n,
            n == table@.len(),
            table.wf(),
            col < table.cols_spec(),
            result@.len() == r,
            forall|a: int| 0 <= a < r ==> #[trigger] result@[a] == table@[a][col as int],
        decreases n - r,
    {
        result.push(table.get(r, col));
        r = r + 1;
    }
    proof {
        assert(result@ =~= column_spec(table@, col as int));
    }
    result
}

/// Horner evaluation of one column polynomial of the table at `x`.
fn eval_column_at(table: &Table, col: usize, x: Felt) -> (r: Felt)
    requires
        table.wf(),
        col < table.cols_spec(),
    ensures
        r@ == poly_eval_spec(column_spec(table@, col as int), x@),
{
    let ghost s = column_spec(table@, col as int);
    let n = table.num_rows();
    let mut acc = Felt::zero();
    let mut i: usize = n;
    proof {
        assert(s.subrange(n as int, n as int) =~= Seq::<Felt>::empty());
    }
    while i > 0
        invariant
            i <= n,
            n == table@.len(),
            table.wf(),
            col < table.cols_spec(),
            s == column_spec(table@, col as int),
            acc@ == poly_eval_spec(s.subrange(i as int, n as int), x@),
        decreases i,
    {
        i = i - 1;
        let coeff = table.get(i, col);
        let term = x.mul(acc);
        let next = coeff.add(term);
        proof {
            let tail = s.subrange(i as int, n as int);
            assert(tail[0] == s[i as int]);
            assert(tail.subrange(1, tail.len() as int) =~= s.subrange(i + 1, n as int));
            lemma_add_mod_noop_right(s[i as int]@ as int, (x@ * acc@) as int, MODULUS as int);
        }
        acc = next;
    }
    proof {
        assert(s.subrange(0, n as int) =~= s);
    }
    acc
}

/// Evaluates every column polynomial of the table at `x`.
fn eval_segment(table: &Table, x: Felt) -> (result: Vec<Felt>)
    requires
        table.wf(),
    ensures
        result@.len() == table.cols_spec(),
        forall|c: int|
            0 <= c < result@.len() ==> (#[trigger] result@[c])@ == poly_eval_spec(
                column_spec(table@, c),
                x@,
            ),
        result@.len() == segment_columns(table@, table.cols_spec()).len(),
        forall|c: int|
            0 <= c < result@.len() ==> (#[trigger] result@[c])@ == poly_eval_spec(
                segment_columns(table@, table.cols_spec())[c],
                x@,
            ),
{
    let width = table.num_cols();
    let mut result: Vec<Felt> = Vec::new();
    let mut c: usize = 0;
    while c < width
        invariant
            c <= width,
            table.wf(),
            width == table.cols_spec(),
            result@.len() == c,
            forall|a: int|
                0 <= a < c ==> (#[trigger] result@[a])@ == poly_eval_spec(
                    column_spec(table@, a),
                    x@,
                ),
        decreases width - c,
    {
        result.push(eval_column_at(table, c, x));
        c = c + 1;
    }
    result
}

/// Extending the selection by one column appends that column's evaluation
/// exactly when its mask flag is set.
proof fn lemma_masked_columns_step(cols: Seq<Seq<Felt>>, mask: Seq<bool>, c: int)
    requires
        0 <= c < cols.len(),
        mask.len() == cols.len(),
    ensures
        masked_columns(cols.take(c + 1), mask.take(c + 1)) == masked_columns(
            cols.take(c),
            mask.take(c),
        ) + if mask[c] {
            seq![cols[c]]
        } else {
            Seq::<Seq<Felt>>::empty()
        },
{
    assert(cols.take(c + 1).drop_last() =~= cols.take(c));
    assert(mask.take(c + 1).drop_last() =~= mask.take(c));
    assert(cols.take(c + 1).last() == cols[c]);
    assert(mask.take(c + 1)[c] == mask[c]);
}

/// Evaluates the column polynomials of the table picked out by the mask.
fn eval_segment_masked(table: &Table, mask: &Vec<bool>, x: Felt) -> (result: Vec<Felt>)
    requires
        table.wf(),
        mask@.len() == table.cols_spec(),
    ensures
        result@.len() == masked_columns(segment_columns(table@, table.cols_spec()), mask@).len(),
        forall|k: int|
            0 <= k < result@.len() ==> (#[trigger] result@[k])@ == poly_eval_spec(
                masked_columns(segment_columns(table@, table.cols_spec()), mask@)[k],
                x@,
            ),
{
    let ghost all = segment_columns(table@, table.cols_spec());
    let width = table.num_cols();
    let mut result: Vec<Felt> = Vec::new();
    let mut c: usize = 0;
    proof {
        assert(all.take(0) =~= Seq::<Seq<Felt>>::empty());
        assert(mask@.take(0) =~= Seq::<bool>::empty());
    }
    while c < width
        invariant
            c <= width,
            table.wf(),
            width == table.cols_spec(),
            mask@.len() == width,
            all == segment_columns(table@, table.cols_spec()),
            result@.len() == masked_columns(all.take(c as int), mask@.take(c as int)).len(),
            forall|k: int|
                0 <= k < result@.len() ==> (#[trigger] result@[k])@ == poly_eval_spec(
                    masked_columns(all.take(c as int), mask@.take(c as int))[k],
                    x@,
                ),
        decreases width - c,
    {
        let ghost before = masked_columns(all.take(c as int), mask@.take(c as int));
        proof {
            lemma_masked_columns_step(all, mask@, c as int);
        }
        if mask[c] {
            result.push(eval_column_at(table, c, x));
            proof {
                let after = masked_columns(all.take(c + 1), mask@.take(c + 1));
                assert(after == before + seq![all[c as int]]);
                assert forall|k: int| 0 <= k < result@.len() implies (#[trigger] result@[k])@
                    == poly_eval_spec(after[k], x@) by {
                    if k < before.len() {
                        assert(after[k] == before[k]);
                    } else {
                        assert(after[k] == all[c as int]);
                        assert(all[c as int] == column_spec(table@, c as int));
                    }
                }
            }
        } else {
            proof {
                let after = masked_columns(all.take(c + 1), mask@.take(c + 1));
                assert(after =~= before);
            }
        }
        c = c + 1;
    }
    proof {
        assert(all.take(width as int) =~= all);
        assert(mask@.take(width as int) =~= mask@);
    }
    result
}

/// The activity of the shape at the given offset as a concrete mask over
/// `width` main-trace columns.
fn active_mask(shape: &FrameShape, offset: usize, width: usize) -> (mask: Vec<bool>)
    ensures
        mask@ == active_mask_spec(shape, offset, width as nat),
{
    let mut mask: Vec<bool> = Vec::new();
    let mut c: usize = 0;
    while c < width
        invariant
            c <= width,
            mask@.len() == c,
            forall|a: int|
                0 <= a < c ==> #[trigger] mask@[a] == shape.is_active_spec(offset, a as usize),
        decreases width - c,
    {
        mask.push(shape.is_active_cell(offset, c));
        c = c + 1;
    }
    proof {
        assert(mask@ =~= active_mask_spec(shape, offset, width as nat));
    }
    mask
}

} // verus!
