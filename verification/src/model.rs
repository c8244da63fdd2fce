//! Mathematical model of the product: the dot-product formula over flat
//! row-major buffers, the shape of a valid call, and the bounds that keep
//! every accumulator inside `i64`.

use vstd::prelude::*;

verus! {

/// Largest magnitude an input element may have. With every element of both
/// inputs in `[-ELEM_BOUND, ELEM_BOUND]` and the shared dimension at most
/// `DIM_BOUND`, every partial dot product stays within `2^60`, far inside
/// `i64`.
pub const ELEM_BOUND: i64 = 1048576;

/// `ELEM_BOUND * ELEM_BOUND`: the largest magnitude of a single product of
/// two input elements.
pub const ELEM_BOUND_SQ: i64 = 1099511627776;

/// Largest shared dimension `n` accepted: a dot product of `DIM_BOUND` terms,
/// each at most `ELEM_BOUND_SQ` in magnitude, still fits in `i64`.
pub const DIM_BOUND: usize = 1048576;

/// Width of one lane group: the number of output columns the lane-grouped
/// kernels accumulate per step.
pub const LANES: usize = 8;

/// Every element of `s` lies in `[-ELEM_BOUND, ELEM_BOUND]`.
pub open spec fn elem_bounded(s: Seq<i64>) -> bool {
    forall|t: int| 0 <= t < s.len() ==> -ELEM_BOUND <= #[trigger] s[t] <= ELEM_BOUND
}

/// The first `k` terms of the dot product of row `i` of `a` (row-major with
/// `n` columns) and column `j` of `b` (row-major with `p` columns):
/// `sum over t < k of a[i*n + t] * b[t*p + j]`, accumulated with `t`
/// ascending.
pub open spec fn dot_partial(
    a: Seq<i64>,
    b: Seq<i64>,
    i: int,
    j: int,
    n: int,
    p: int,
    k: int,
) -> int
    decreases k,
{
    if k <= 0 {
        0
    } else {
        dot_partial(a, b, i, j, n, p, k - 1) + a[i * n + (k - 1)] * b[(k - 1) * p + j]
    }
}

/// The full dot product of row `i` of `a` and column `j` of `b`.
pub open spec fn dot(a: Seq<i64>, b: Seq<i64>, i: int, j: int, n: int, p: int) -> int {
    dot_partial(a, b, i, j, n, p, n)
}

/// The inputs a kernel accepts: buffer lengths match the dimensions, the
/// result length fits in `usize`, and the element and dimension bounds that
/// keep the `i64` accumulators from overflowing hold.
pub open spec fn valid_inputs(a: Seq<i64>, b: Seq<i64>, m: int, n: int, p: int) -> bool {
    &&& a.len() == m * n
    &&& b.len() == n * p
    &&& m * p <= usize::MAX
    &&& n <= DIM_BOUND
    &&& elem_bounded(a)
    &&& elem_bounded(b)
}

/// `r` is exactly the `m` by `p` row-major product of `a` and `b`: it has
/// length `m*p` and entry `(i, j)` holds the dot product of row `i` of `a`
/// and column `j` of `b`. Every kernel ensures this.
pub open spec fn is_product(a: Seq<i64>, b: Seq<i64>, m: int, n: int, p: int, r: Seq<i64>) -> bool {
    &&& r.len() == m * p
    &&& forall|i: int, j: int|
        0 <= i < m && 0 <= j < p ==> #[trigger] r[i * p + j] == dot(a, b, i, j, n, p)
}

/// A flat row-major index is in range: `i*cols + j < rows*cols`, and the row
/// containing it ends no later than the buffer does.
pub proof fn lemma_flat_index(i: int, j: int, rows: int, cols: int)
    by (nonlinear_arith)
    requires
        0 <= i < rows,
        0 <= j < cols,
    ensures
        0 <= i * cols + j,
        i * cols + j < rows * cols,
        i * cols + cols <= rows * cols,
{
}

/// Flat row-major indices of distinct rows cannot collide: an entry of an
/// earlier row lies strictly below every entry of a later row.
pub proof fn lemma_flat_order(i1: int, j1: int, i2: int, j2: int, p: int)
    by (nonlinear_arith)
    requires
        0 <= i1 < i2,
        0 <= j1 < p,
        0 <= j2,
    ensures
        i1 * p + j1 < i2 * p + j2,
        i1 * p + p <= i2 * p,
{
}

/// The product of two elements within `ELEM_BOUND` is within `ELEM_BOUND_SQ`.
pub proof fn lemma_elem_mul_bound(x: i64, y: i64)
    by (nonlinear_arith)
    requires
        -ELEM_BOUND <= x <= ELEM_BOUND,
        -ELEM_BOUND <= y <= ELEM_BOUND,
    ensures
        -ELEM_BOUND_SQ <= x * y <= ELEM_BOUND_SQ,
{
}

/// Adding one more bounded product to a `k`-term partial sum keeps it within
/// the `(k+1)`-term bound, which itself fits in `i64` while `k < DIM_BOUND`.
pub proof fn lemma_accumulate_fits(s: int, q: int, k: int)
    by (nonlinear_arith)
    requires
        0 <= k < DIM_BOUND,
        -k * ELEM_BOUND_SQ <= s <= k * ELEM_BOUND_SQ,
        -ELEM_BOUND_SQ <= q <= ELEM_BOUND_SQ,
    ensures
        -(k + 1) * ELEM_BOUND_SQ <= s + q <= (k + 1) * ELEM_BOUND_SQ,
        i64::MIN <= s + q <= i64::MAX,
{
}

/// A vector's length always fits in `usize`.
pub proof fn lemma_vec_len_bound(v: &Vec<i64>)
    ensures
        v@.len() <= usize::MAX,
{
    assert(v@.len() == v.len());
}

/// Writing the entry at row `i`, column `j` of an `m` by `p` row-major buffer
/// leaves every other in-range entry unchanged.
pub proof fn lemma_update_other(r0: Seq<i64>, r1: Seq<i64>, i: int, j: int, m: int, p: int, v: i64)
    requires
        0 <= i < m,
        0 <= j < p,
        r0.len() == m * p,
        r1 == r0.update(i * p + j, v),
    ensures
        r1.len() == m * p,
        r1[i * p + j] == v,
        forall|i2: int, j2: int|
            0 <= i2 < m && 0 <= j2 < p && !(i2 == i && j2 == j) ==> #[trigger] r1[i2 * p + j2]
                == r0[i2 * p + j2],
{
    lemma_flat_index(i, j, m, p);
    assert forall|i2: int, j2: int|
        0 <= i2 < m && 0 <= j2 < p && !(i2 == i && j2 == j) implies #[trigger] r1[i2 * p + j2]
        == r0[i2 * p + j2] by {
        lemma_flat_index(i2, j2, m, p);
        if i2 < i {
            lemma_flat_order(i2, j2, i, j, p);
        } else if i2 > i {
            lemma_flat_order(i, j, i2, j2, p);
        }
    }
}

/// A partial dot product of `k` bounded terms is bounded by
/// `k * ELEM_BOUND_SQ`.
pub proof fn lemma_dot_partial_bound(
    a: Seq<i64>,
    b: Seq<i64>,
    i: int,
    j: int,
    n: int,
    p: int,
    k: int,
)
    requires
        elem_bounded(a),
        elem_bounded(b),
        0 <= i,
        0 <= j < p,
        0 <= k <= n,
        n <= DIM_BOUND,
        i * n + n <= a.len(),
        n * p <= b.len(),
    ensures
        -k * ELEM_BOUND_SQ <= dot_partial(a, b, i, j, n, p, k) <= k * ELEM_BOUND_SQ,
    decreases k,
{
    if k > 0 {
        lemma_dot_partial_bound(a, b, i, j, n, p, k - 1);
        lemma_flat_index(i, k - 1, i + 1, n);
        lemma_flat_index(k - 1, j, n, p);
        lemma_elem_mul_bound(a[i * n + (k - 1)], b[(k - 1) * p + j]);
        lemma_accumulate_fits(
            dot_partial(a, b, i, j, n, p, k - 1),
            a[i * n + (k - 1)] * b[(k - 1) * p + j],
            k - 1,
        );
    }
}

} // verus!
