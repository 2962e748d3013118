//! The duality between discrete trace reads and polynomial evaluation: when
//! the trace columns are exact evaluations of the stored polynomials over the
//! trace domain, the wraparound window read that fills a frame and the
//! out-of-domain evaluation of the same columns agree at trace-domain points.

use crate::field::{
    is_power_of_two, lemma_log2_pow2, lemma_pow_mod_add, lemma_pow_mod_cycle,
    lemma_root_of_unity_order, log2_spec, pow_mod, root_of_unity_spec, Felt,
};
use crate::poly_table::{column_spec, poly_eval_spec, TracePolyTable};
use vstd::arithmetic::power2::{lemma2_to64, lemma_pow2_strictly_increases};
use vstd::prelude::*;

verus! {

/// LAW: read/evaluate duality. For a trace whose column `col` holds, at every
/// row `r`, the value of the interpolating polynomial at `g^r` (with `g` the
/// canonical generator of the trace domain), the wraparound read at row
/// `(step + offset) mod L` — what `read_from` stores for offset `offset` at
/// step `step` with a blowup of one — equals the polynomial evaluated at
/// `g^(step + offset)` — what the out-of-domain path computes at that point.
pub proof fn lemma_read_evaluate_duality(
    trace: Seq<Seq<Felt>>,
    polys: Seq<Seq<Felt>>,
    col: int,
    step: nat,
    offset: nat,
)
    requires
        trace.len() >= 1,
        is_power_of_two(trace.len()),
        trace.len() <= 0x1_0000_0000,
        forall|r: int|
            0 <= r < trace.len() ==> (#[trigger] trace[r][col])@ == poly_eval_spec(
                column_spec(polys, col),
                pow_mod(root_of_unity_spec(log2_spec(trace.len())), r as nat),
            ),
    ensures
        trace[((step + offset) % trace.len()) as int][col]@ == poly_eval_spec(
            column_spec(polys, col),
            pow_mod(root_of_unity_spec(log2_spec(trace.len())), step + offset),
        ),
{
    let l = trace.len();
    let g = root_of_unity_spec(log2_spec(l));
    lemma_log2_pow2(l);
    lemma2_to64();
    if log2_spec(l) > 32 {
        lemma_pow2_strictly_increases(32, log2_spec(l));
    }
    lemma_root_of_unity_order(log2_spec(l));
    lemma_pow_mod_cycle(g, l, step + offset);
    let reduced = (step + offset) % l;
    assert(trace[reduced as int][col]@ == poly_eval_spec(
        column_spec(polys, col),
        pow_mod(g, reduced),
    ));
}

/// LAW: out-of-domain/raw agreement at domain points. When the challenge
/// point is itself a trace-domain point `z = g^step`, the point `z * g^o` at
/// which `get_ood_frame` evaluates the row for offset `o` is exactly
/// `g^(step + o)` — so, by the read/evaluate duality above, the
/// out-of-domain row agrees with the raw frame read at that step.
pub proof fn lemma_ood_point_on_domain(table: &TracePolyTable, step: nat, offset: usize)
    ensures
        table.ood_point_spec(
            pow_mod(root_of_unity_spec(log2_spec(table.poly_size_spec())), step),
            offset,
        ) == pow_mod(
            root_of_unity_spec(log2_spec(table.poly_size_spec())),
            step + offset as nat,
        ),
{
    let g = root_of_unity_spec(log2_spec(table.poly_size_spec()));
    lemma_pow_mod_add(g, step, offset as nat);
}

} // verus!
