//! Properties that relate the kernels to one another: the kernel contract
//! determines the result completely, so the four variants agree with each
//! other and with themselves across repeated calls, and degenerate dimensions
//! yield the empty buffer.

use vstd::prelude::*;

use crate::model::dot;
use crate::model::is_product;

verus! {

/// A flat index of an `m` by `p` row-major buffer decomposes into a unique
/// row and column; in particular a nonempty buffer forces both dimensions to
/// be positive.
pub proof fn lemma_index_decomp(idx: int, m: int, p: int)
    by (nonlinear_arith)
    requires
        0 <= m,
        0 <= p,
        0 <= idx < m * p,
    ensures
        0 < p,
        0 <= idx / p < m,
        0 <= idx % p < p,
        idx == (idx / p) * p + idx % p,
{
}

/// The kernel contract pins the result down: any two buffers that satisfy it
/// for the same inputs are equal. Hence all four kernels return bit-identical
/// results on the same inputs, and calling any kernel twice with the same
/// inputs yields the same output — the kernels are pure, with no hidden
/// state.
pub proof fn lemma_product_unique(
    a: Seq<i64>,
    b: Seq<i64>,
    m: int,
    n: int,
    p: int,
    r1: Seq<i64>,
    r2: Seq<i64>,
)
    requires
        0 <= m,
        0 <= p,
        is_product(a, b, m, n, p, r1),
        is_product(a, b, m, n, p, r2),
    ensures
        r1 == r2,
{
    assert forall|idx: int| 0 <= idx < r1.len() implies r1[idx] == r2[idx] by {
        lemma_index_decomp(idx, m, p);
        let i = idx / p;
        let j = idx % p;
        assert(r1[i * p + j] == dot(a, b, i, j, n, p));
        assert(r2[i * p + j] == dot(a, b, i, j, n, p));
    }
    assert(r1 =~= r2);
}

/// Degenerate dimensions produce the empty buffer: when `m == 0` or `p == 0`,
/// every buffer satisfying the kernel contract is the empty sequence.
pub proof fn lemma_degenerate_empty(a: Seq<i64>, b: Seq<i64>, m: int, n: int, p: int, r: Seq<i64>)
    requires
        0 <= m,
        0 <= p,
        m == 0 || p == 0,
        is_product(a, b, m, n, p, r),
    ensures
        r == Seq::<i64>::empty(),
{
    assert(m * p == 0) by (nonlinear_arith)
        requires
            m == 0 || p == 0,
    ;
    assert(r =~= Seq::<i64>::empty());
}

} // verus!

