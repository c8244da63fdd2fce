//! The lane-grouped kernels: for each row and each shared index, one element
//! of the left matrix is broadcast against a group of up to `LANES` columns
//! of the right matrix and accumulated into the result row. A single
//! bounds-checked multiply-accumulate helper carries the remainder handling
//! for both the single-threaded and the row-partitioned variant.

use vstd::prelude::*;

use crate::model::dot;
use crate::model::dot_partial;
use crate::model::elem_bounded;
use crate::model::is_product;
use crate::model::lemma_accumulate_fits;
use crate::model::lemma_dot_partial_bound;
use crate::model::lemma_elem_mul_bound;
use crate::model::lemma_flat_index;
use crate::model::lemma_flat_order;
use crate::model::lemma_vec_len_bound;
use crate::model::valid_inputs;
use crate::model::DIM_BOUND;
use crate::model::ELEM_BOUND;
use crate::model::LANES;

verus! {

/// Multiply-accumulate over one lane group: for each of the `count` valid
/// lanes, add `scale * b[b_base + l]` into `out[base + l]`. `count` is at
/// most `LANES`; lanes past `count` are never read or written, which is the
/// whole of the remainder handling at a row's final column group.
#[verifier::loop_isolation(false)]
pub(crate) fn madd_chunk(
    out: &mut Vec<i64>,
    base: usize,
    scale: i64,
    b: &Vec<i64>,
    b_base: usize,
    count: usize,
)
    requires
        count <= LANES,
        base + count <= old(out)@.len(),
        b_base + count <= b@.len(),
        -ELEM_BOUND <= scale <= ELEM_BOUND,
        elem_bounded(b@),
        forall|l: int|
            0 <= l < count ==> i64::MIN <= #[trigger] (old(out)@[base + l] + scale * b@[b_base
                + l]) <= i64::MAX,
    ensures
        final(out)@.len() == old(out)@.len(),
        forall|l: int|
            0 <= l < count ==> #[trigger] final(out)@[base + l] == old(out)@[base + l] + scale
                * b@[b_base + l],
        forall|idx: int|
            0 <= idx < final(out)@.len() && !(base <= idx < base + count)
                ==> #[trigger] final(out)@[idx] == old(out)@[idx],
{
    proof {
        lemma_vec_len_bound(out);
        lemma_vec_len_bound(b);
    }
    let mut l: usize = 0;
    while l < count
        invariant
            l <= count,
            out@.len() == old(out)@.len(),
            forall|t: int|
                0 <= t < l ==> #[trigger] out@[base + t] == old(out)@[base + t] + scale * b@[b_base
                    + t],
            forall|idx: int|
                0 <= idx < out@.len() && !(base <= idx < base + l) ==> #[trigger] out@[idx]
                    == old(out)@[idx],
        decreases count - l,
    {
        proof {
            lemma_elem_mul_bound(scale, b@[b_base + l]);
        }
        out[base + l] = out[base + l] + scale * b[b_base + l];
        l = l + 1;
    }
}

/// One row of the product, computed lane group by lane group: the row starts
/// at zero and, for each shared index `k` in ascending order, accumulates the
/// broadcast element `a[i*n + k]` against the matching slice of row `k` of
/// `b`, up to `LANES` columns at a time.
#[verifier::loop_isolation(false)]
pub fn compute_row_wide(a: &Vec<i64>, b: &Vec<i64>, i: usize, n: usize, p: usize) -> (row: Vec<
    i64,
>)
    requires
        elem_bounded(a@),
        elem_bounded(b@),
        n <= DIM_BOUND,
        (i as int) * (n as int) + n <= a@.len(),
        (n as int) * (p as int) <= b@.len(),
    ensures
        row@.len() == p,
        forall|j: int|
            0 <= j < p ==> #[trigger] row@[j] == dot(a@, b@, i as int, j, n as int, p as int),
{
    proof {
        lemma_vec_len_bound(a);
        lemma_vec_len_bound(b);
    }
    let mut row = crate::scalar::zeroed(p);
    let mut k: usize = 0;
    while k < n
        invariant
            k <= n,
            row@.len() == p,
            forall|j2: int|
                0 <= j2 < p ==> #[trigger] row@[j2] == dot_partial(
                    a@,
                    b@,
                    i as int,
                    j2,
                    n as int,
                    p as int,
                    k as int,
                ),
        decreases n - k,
    {
        proof {
            lemma_flat_index(i as int, k as int, i as int + 1, n as int);
        }
        let a_elem = a[i * n + k];
        let mut j: usize = 0;
        while j < p
            invariant
                k < n,
                j <= p,
                row@.len() == p,
                forall|j2: int|
                    0 <= j2 < j ==> #[trigger] row@[j2] == dot_partial(
                        a@,
                        b@,
                        i as int,
                        j2,
                        n as int,
                        p as int,
                        k as int + 1,
                    ),
                forall|j2: int|
                    j <= j2 < p ==> #[trigger] row@[j2] == dot_partial(
                        a@,
                        b@,
                        i as int,
                        j2,
                        n as int,
                        p as int,
                        k as int,
                    ),
            decreases p - j,
        {
            let remaining = if p - j < LANES {
                p - j
            } else {
                LANES
            };
            proof {
                lemma_flat_index(k as int, j as int, n as int, p as int);
                assert forall|l: int| 0 <= l < remaining implies i64::MIN <= #[trigger] (row@[j + l]
                    + a_elem * b@[(k as int) * (p as int) + (j as int) + l]) <= i64::MAX by {
                    lemma_dot_partial_bound(a@, b@, i as int, j + l, n as int, p as int, k as int);
                    lemma_elem_mul_bound(a_elem, b@[(k as int) * (p as int) + (j as int) + l]);
                    lemma_accumulate_fits(
                        row@[j + l] as int,
                        a_elem * b@[(k as int) * (p as int) + (j as int) + l],
                        k as int,
                    );
                }
            }
            let ghost before = row@;
            madd_chunk(&mut row, j, a_elem, b, k * p + j, remaining);
            proof {
                assert forall|j2: int| 0 <= j2 < j + remaining implies #[trigger] row@[j2]
                    == dot_partial(a@, b@, i as int, j2, n as int, p as int, k as int + 1) by {
                    if j <= j2 {
                        let l = j2 - j;
                        assert(row@[j + l] == before[j + l] + a_elem * b@[(k as int) * (p as int)
                            + (j as int) + l]);
                    }
                }
            }
            j = j + remaining;
        }
        k = k + 1;
    }
    row
}

/// Multiplies two row-major matrices with the lane-grouped loop order: for
/// each output row `i` and each shared index `k` ascending, broadcast
/// `a[i*n + k]` and accumulate it against row `k` of `b`, `LANES` output
/// columns at a time, with only the valid remainder touched at the row's end.
/// The regrouped accumulation still yields exactly the dot-product matrix.
#[verifier::loop_isolation(false)]
pub fn matrix_multiply_avx(a: &Vec<i64>, b: &Vec<i64>, m: usize, n: usize, p: usize) -> (result:
    Vec<i64>)
    requires
        valid_inputs(a@, b@, m as int, n as int, p as int),
    ensures
        is_product(a@, b@, m as int, n as int, p as int, result@),
{
    proof {
        lemma_vec_len_bound(a);
        lemma_vec_len_bound(b);
    }
    let mut result = crate::scalar::zeroed(m * p);
    proof {
        assert forall|i2: int, j2: int| 0 <= i2 < m && 0 <= j2 < p implies #[trigger] result@[i2
            * (p as int) + j2] == 0 by {
            lemma_flat_index(i2, j2, m as int, p as int);
        }
    }
    let mut i: usize = 0;
    while i < m
        invariant
            i <= m,
            result@.len() == m * p,
            forall|i2: int, j2: int|
                0 <= i2 < i && 0 <= j2 < p ==> #[trigger] result@[i2 * (p as int) + j2] == dot(
                    a@,
                    b@,
                    i2,
                    j2,
                    n as int,
                    p as int,
                ),
            forall|i2: int, j2: int|
                i <= i2 < m && 0 <= j2 < p ==> #[trigger] result@[i2 * (p as int) + j2] == 0,
        decreases m - i,
    {
        let mut k: usize = 0;
        while k < n
            invariant
                i < m,
                k <= n,
                result@.len() == m * p,
                forall|i2: int, j2: int|
                    0 <= i2 < i && 0 <= j2 < p ==> #[trigger] result@[i2 * (p as int) + j2] == dot(
                        a@,
                        b@,
                        i2,
                        j2,
                        n as int,
                        p as int,
                    ),
                forall|i2: int, j2: int|
                    i < i2 < m && 0 <= j2 < p ==> #[trigger] result@[i2 * (p as int) + j2] == 0,
                forall|j2: int|
                    0 <= j2 < p ==> #[trigger] result@[(i as int) * (p as int) + j2]
                        == dot_partial(a@, b@, i as int, j2, n as int, p as int, k as int),
            decreases n - k,
        {
            proof {
                lemma_flat_index(i as int, k as int, m as int, n as int);
            }
            let a_elem = a[i * n + k];
            let mut j: usize = 0;
            while j < p
                invariant
                    i < m,
                    k < n,
                    j <= p,
                    result@.len() == m * p,
                    forall|i2: int, j2: int|
                        0 <= i2 < i && 0 <= j2 < p ==> #[trigger] result@[i2 * (p as int) + j2]
                            == dot(a@, b@, i2, j2, n as int, p as int),
                    forall|i2: int, j2: int|
                        i < i2 < m && 0 <= j2 < p ==> #[trigger] result@[i2 * (p as int) + j2]
                            == 0,
                    forall|j2: int|
                        0 <= j2 < j ==> #[trigger] result@[(i as int) * (p as int) + j2]
                            == dot_partial(a@, b@, i as int, j2, n as int, p as int, k as int + 1),
                    forall|j2: int|
                        j <= j2 < p ==> #[trigger] result@[(i as int) * (p as int) + j2]
                            == dot_partial(a@, b@, i as int, j2, n as int, p as int, k as int),
                decreases p - j,
            {
                let remaining = if p - j < LANES {
                    p - j
                } else {
                    LANES
                };
                proof {
                    lemma_flat_index(k as int, j as int, n as int, p as int);
                    lemma_flat_index(i as int, j as int, m as int, p as int);
                    assert forall|l: int| 0 <= l < remaining implies i64::MIN <= #[trigger] (
                    result@[(i as int) * (p as int) + (j as int) + l] + a_elem * b@[(k as int) * (
                    p as int) + (j as int) + l]) <= i64::MAX by {
                        assert(result@[(i as int) * (p as int) + ((j as int) + l)] == dot_partial(
                            a@,
                            b@,
                            i as int,
                            (j as int) + l,
                            n as int,
                            p as int,
                            k as int,
                        ));
                        lemma_dot_partial_bound(
                            a@,
                            b@,
                            i as int,
                            (j as int) + l,
                            n as int,
                            p as int,
                            k as int,
                        );
                        lemma_elem_mul_bound(a_elem, b@[(k as int) * (p as int) + (j as int) + l]);
                        lemma_accumulate_fits(
                            result@[(i as int) * (p as int) + (j as int) + l] as int,
                            a_elem * b@[(k as int) * (p as int) + (j as int) + l],
                            k as int,
                        );
                    }
                }
                let ghost before = result@;
                madd_chunk(&mut result, i * p + j, a_elem, b, k * p + j, remaining);
                proof {
                    let base = (i as int) * (p as int) + (j as int);
                    assert forall|i2: int, j2: int|
                        0 <= i2 < m && 0 <= j2 < p && i2 != i implies #[trigger] result@[i2 * (
                    p as int) + j2] == before[i2 * (p as int) + j2] by {
                        lemma_flat_index(i2, j2, m as int, p as int);
                        if i2 < i {
                            lemma_flat_order(i2, j2, i as int, j as int, p as int);
                        } else {
                            lemma_flat_order(i as int, j as int, i2, j2, p as int);
                        }
                    }
                    assert forall|j2: int| 0 <= j2 < j + remaining implies #[trigger] result@[(
                    i as int) * (p as int) + j2] == dot_partial(
                        a@,
                        b@,
                        i as int,
                        j2,
                        n as int,
                        p as int,
                        k as int + 1,
                    ) by {
                        lemma_flat_index(i as int, j2, m as int, p as int);
                        if j <= j2 {
                            assert(result@[base + (j2 - j)] == before[base + (j2 - j)] + a_elem
                                * b@[(k as int) * (p as int) + (j as int) + (j2 - j)]);
                        }
                    }
                    assert forall|j2: int| j + remaining <= j2 < p implies #[trigger] result@[(
                    i as int) * (p as int) + j2] == dot_partial(
                        a@,
                        b@,
                        i as int,
                        j2,
                        n as int,
                        p as int,
                        k as int,
                    ) by {
                        lemma_flat_index(i as int, j2, m as int, p as int);
                    }
                }
                j = j + remaining;
            }
            k = k + 1;
        }
        i = i + 1;
    }
    result
}

} // verus!
