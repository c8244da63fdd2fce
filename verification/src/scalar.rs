//! The baseline kernel: a triple nested loop accumulating each output entry's
//! dot product with the shared index ascending, plus the single-row unit of
//! work that the row-partitioned kernel dispatches to the pool.

use vstd::prelude::*;

use crate::model::dot;
use crate::model::dot_partial;
use crate::model::elem_bounded;
use crate::model::is_product;
use crate::model::lemma_accumulate_fits;
use crate::model::lemma_dot_partial_bound;
use crate::model::lemma_elem_mul_bound;
use crate::model::lemma_flat_index;
use crate::model::lemma_update_other;
use crate::model::lemma_vec_len_bound;
use crate::model::valid_inputs;
use crate::model::DIM_BOUND;

verus! {

/// A freshly allocated buffer of `len` zeros: the state of every result
/// buffer before accumulation begins.
pub(crate) fn zeroed(len: usize) -> (v: Vec<i64>)
    ensures
        v@.len() == len,
        forall|t: int| 0 <= t < len ==> v@[t] == 0,
{
    let mut v: Vec<i64> = Vec::new();
    let mut t: usize = 0;
    while t < len
        invariant
            t <= len,
            v@.len() == t,
            forall|u: int| 0 <= u < t ==> v@[u] == 0,
        decreases len - t,
    {
        v.push(0);
        t = t + 1;
    }
    v
}

/// One row of the product: the dot product of row `i` of `a` with every
/// column of `b`, each accumulated with the shared index ascending. This is
/// the unit of work the row-partitioned kernel runs on each row.
#[verifier::loop_isolation(false)]
pub fn compute_row(a: &Vec<i64>, b: &Vec<i64>, i: usize, n: usize, p: usize) -> (row: Vec<i64>)
    requires
        elem_bounded(a@),
        elem_bounded(b@),
        n <= DIM_BOUND,
        (i as int) * (n as int) + n <= a@.len(),
        (n as int) * (p as int) <= b@.len(),
    ensures
        row@.len() == p,
        forall|j: int|
            0 <= j < p ==> #[trigger] row@[j] == dot(a@, b@, i as int, j, n as int, p as int),
{
    proof {
        lemma_vec_len_bound(a);
        lemma_vec_len_bound(b);
    }
    let mut row: Vec<i64> = Vec::new();
    let mut j: usize = 0;
    while j < p
        invariant
            j <= p,
            row@.len() == j,
            forall|j2: int|
                0 <= j2 < j ==> #[trigger] row@[j2] == dot(
                    a@,
                    b@,
                    i as int,
                    j2,
                    n as int,
                    p as int,
                ),
        decreases p - j,
    {
        let mut sum: i64 = 0;
        let mut k: usize = 0;
        while k < n
            invariant
                j < p,
                k <= n,
                sum == dot_partial(a@, b@, i as int, j as int, n as int, p as int, k as int),
            decreases n - k,
        {
            proof {
                lemma_flat_index(i as int, k as int, i as int + 1, n as int);
                lemma_flat_index(k as int, j as int, n as int, p as int);
                lemma_dot_partial_bound(a@, b@, i as int, j as int, n as int, p as int, k as int);
                lemma_elem_mul_bound(a@[i as int * n as int + k as int], b@[k as int * p as int
                    + j as int]);
                lemma_accumulate_fits(
                    sum as int,
                    a@[i as int * n as int + k as int] * b@[k as int * p as int + j as int],
                    k as int,
                );
            }
            sum = sum + a[i * n + k] * b[k * p + j];
            k = k + 1;
        }
        row.push(sum);
        j = j + 1;
    }
    row
}

/// Multiplies two row-major matrices with the baseline triple loop: for each
/// output entry, accumulate the dot product over the shared dimension in
/// ascending order and store it at `i*p + j`.
#[verifier::loop_isolation(false)]
pub fn matrix_multiply(a: &Vec<i64>, b: &Vec<i64>, m: usize, n: usize, p: usize) -> (result: Vec<
    i64,
>)
    requires
        valid_inputs(a@, b@, m as int, n as int, p as int),
    ensures
        is_product(a@, b@, m as int, n as int, p as int, result@),
{
    proof {
        lemma_vec_len_bound(a);
        lemma_vec_len_bound(b);
    }
    let mut result = zeroed(m * p);
    let mut i: usize = 0;
    while i < m
        invariant
            i <= m,
            result@.len() == m * p,
            forall|i2: int, j2: int|
                0 <= i2 < i && 0 <= j2 < p ==> #[trigger] result@[i2 * (p as int) + j2] == dot(
                    a@,
                    b@,
                    i2,
                    j2,
                    n as int,
                    p as int,
                ),
        decreases m - i,
    {
        let mut j: usize = 0;
        while j < p
            invariant
                i < m,
                j <= p,
                result@.len() == m * p,
                forall|i2: int, j2: int|
                    0 <= i2 < i && 0 <= j2 < p ==> #[trigger] result@[i2 * (p as int) + j2] == dot(
                        a@,
                        b@,
                        i2,
                        j2,
                        n as int,
                        p as int,
                    ),
                forall|j2: int|
                    0 <= j2 < j ==> #[trigger] result@[(i as int) * (p as int) + j2] == dot(
                        a@,
                        b@,
                        i as int,
                        j2,
                        n as int,
                        p as int,
                    ),
            decreases p - j,
        {
            let mut sum: i64 = 0;
            let mut k: usize = 0;
            while k < n
                invariant
                    j < p,
                    k <= n,
                    sum == dot_partial(a@, b@, i as int, j as int, n as int, p as int, k as int),
                decreases n - k,
            {
                proof {
                    lemma_flat_index(i as int, k as int, m as int, n as int);
                    lemma_flat_index(k as int, j as int, n as int, p as int);
                    lemma_dot_partial_bound(
                        a@,
                        b@,
                        i as int,
                        j as int,
                        n as int,
                        p as int,
                        k as int,
                    );
                    lemma_elem_mul_bound(a@[i as int * n as int + k as int], b@[k as int * p as int
                        + j as int]);
                    lemma_accumulate_fits(
                        sum as int,
                        a@[i as int * n as int + k as int] * b@[k as int * p as int + j as int],
                        k as int,
                    );
                }
                sum = sum + a[i * n + k] * b[k * p + j];
                k = k + 1;
            }
            proof {
                lemma_flat_index(i as int, j as int, m as int, p as int);
            }
            let ghost before = result@;
            result[i * p + j] = sum;
            proof {
                lemma_update_other(
                    before,
                    result@,
                    i as int,
                    j as int,
                    m as int,
                    p as int,
                    sum,
                );
            }
            j = j + 1;
        }
        i = i + 1;
    }
    result
}

} // verus!
