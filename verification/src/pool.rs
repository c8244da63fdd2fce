//! The row-partitioned kernels: the result buffer is split into disjoint
//! one-row chunks, and a worker pool computes each row independently from the
//! shared read-only inputs, blocking until every row is done. The pool
//! dispatch itself is rayon's; each row's values come from this crate's
//! verified row units, so the trusted surface is only that rayon hands every
//! row chunk to the closure exactly once.

use vstd::prelude::*;

use rayon::iter::IndexedParallelIterator;
use rayon::iter::ParallelIterator;
use rayon::slice::ParallelSliceMut;

use crate::model::dot;
use crate::model::elem_bounded;
use crate::model::is_product;
use crate::model::valid_inputs;
use crate::model::DIM_BOUND;
use crate::scalar::compute_row;
use crate::scalar::zeroed;
use crate::wide::compute_row_wide;

verus! {

/// Relies on rayon's `par_chunks_mut` and `for_each`: with `out` of length
/// `m * p` and `p != 0`, `par_chunks_mut(p)` yields exactly `m` disjoint,
/// non-overlapping mutable chunks, chunk `i` covering `out[i*p .. (i+1)*p]`;
/// `enumerate` pairs each chunk with its index `i`; `for_each` runs the
/// closure once per chunk and returns only after all have finished. The
/// closure overwrites chunk `i` with `compute_row(a, b, i, n, p)`, whose own
/// verified contract gives every written value; `copy_from_slice` copies all
/// `p` values in order.
#[verifier::external_body]
fn pool_fill_rows(out: &mut Vec<i64>, a: &Vec<i64>, b: &Vec<i64>, m: usize, n: usize, p: usize)
    requires
        1 <= p,
        old(out)@.len() == m * p,
        elem_bounded(a@),
        elem_bounded(b@),
        n <= DIM_BOUND,
        (m as int) * (n as int) <= a@.len(),
        (n as int) * (p as int) <= b@.len(),
    ensures
        final(out)@.len() == m * p,
        forall|i: int, j: int|
            0 <= i < m && 0 <= j < p ==> #[trigger] final(out)@[i * (p as int) + j] == dot(
                a@,
                b@,
                i,
                j,
                n as int,
                p as int,
            ),
{
    out.par_chunks_mut(p).enumerate().for_each(|(i, out_row)| {
        out_row.copy_from_slice(&compute_row(a, b, i, n, p));
    });
}

/// Relies on rayon's `par_chunks_mut` and `for_each`, exactly as
/// `pool_fill_rows` does; the only difference is that each chunk is
/// overwritten with `compute_row_wide(a, b, i, n, p)`, the lane-grouped row
/// unit, whose verified contract gives the same dot-product values.
#[verifier::external_body]
fn pool_fill_rows_wide(
    out: &mut Vec<i64>,
    a: &Vec<i64>,
    b: &Vec<i64>,
    m: usize,
    n: usize,
    p: usize,
)
    requires
        1 <= p,
        old(out)@.len() == m * p,
        elem_bounded(a@),
        elem_bounded(b@),
        n <= DIM_BOUND,
        (m as int) * (n as int) <= a@.len(),
        (n as int) * (p as int) <= b@.len(),
    ensures
        final(out)@.len() == m * p,
        forall|i: int, j: int|
            0 <= i < m && 0 <= j < p ==> #[trigger] final(out)@[i * (p as int) + j] == dot(
                a@,
                b@,
                i,
                j,
                n as int,
                p as int,
            ),
{
    out.par_chunks_mut(p).enumerate().for_each(|(i, out_row)| {
        out_row.copy_from_slice(&compute_row_wide(a, b, i, n, p));
    });
}

/// Multiplies two row-major matrices by splitting the result into disjoint
/// one-row blocks and computing each row on a worker pool with the scalar
/// inner loop. Rows are independent, so the result does not depend on how
/// many workers the pool uses or in which order rows finish: it is exactly
/// the dot-product matrix.
pub fn matrix_multiply_rayon(a: &Vec<i64>, b: &Vec<i64>, m: usize, n: usize, p: usize) -> (result:
    Vec<i64>)
    requires
        valid_inputs(a@, b@, m as int, n as int, p as int),
    ensures
        is_product(a@, b@, m as int, n as int, p as int, result@),
{
    let mut result = zeroed(m * p);
    if p > 0 {
        pool_fill_rows(&mut result, a, b, m, n, p);
    }
    result
}

/// Multiplies two row-major matrices by splitting the result into disjoint
/// one-row blocks and computing each row on a worker pool with the
/// lane-grouped inner loop, including its remainder handling. As with the
/// scalar pool kernel, the worker count cannot affect the result: it is
/// exactly the dot-product matrix.
pub fn matrix_multiply_avx_rayon(
    a: &Vec<i64>,
    b: &Vec<i64>,
    m: usize,
    n: usize,
    p: usize,
) -> (result: Vec<i64>)
    requires
        valid_inputs(a@, b@, m as int, n as int, p as int),
    ensures
        is_product(a@, b@, m as int, n as int, p as int, result@),
{
    let mut result = zeroed(m * p);
    if p > 0 {
        pool_fill_rows_wide(&mut result, a, b, m, n, p);
    }
    result
}

} // verus!
