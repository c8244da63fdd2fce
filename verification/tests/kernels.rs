use matmul::matrix_multiply;
use matmul::matrix_multiply_avx;
use matmul::matrix_multiply_avx_rayon;
use matmul::matrix_multiply_rayon;

/// Reference dot-product computation, written independently of the library.
fn reference_product(a: &[i64], b: &[i64], m: usize, n: usize, p: usize) -> Vec<i64> {
    let mut out = vec![0i64; m * p];
    for i in 0..m {
        for j in 0..p {
            let mut sum = 0i64;
            for k in 0..n {
                sum += a[i * n + k] * b[k * p + j];
            }
            out[i * p + j] = sum;
        }
    }
    out
}

#[test]
fn matrix_multiply_correct() {
    let a = vec![1, 2, 3, 4, 5, 6];
    let b = vec![7, 8, 9, 10, 11, 12];

    let m = 2; // Number of rows in `a`
    let n = 3; // Number of columns in `a` / Number of rows in `b`
    let p = 2; // Number of columns in `b`

    let expected_result = vec![
        58, 64, // Row 1 of the result matrix
        139, 154, // Row 2 of the result matrix
    ];

    let result = matrix_multiply(&a, &b, m, n, p);
    assert_eq!(result, expected_result);

    let result_avx = matrix_multiply_avx(&a, &b, m, n, p);
    assert_eq!(result_avx, expected_result);

    let result_avx_rayon = matrix_multiply_avx_rayon(&a, &b, m, n, p);
    assert_eq!(result_avx_rayon, expected_result);
}

#[test]
fn worker_pool_matrix_multiply_correct() {
    // a = [[1, 2], [3, 4]], b = [[5, 6], [7, 8]], flattened row-major.
    let a = vec![1, 2, 3, 4];
    let b = vec![5, 6, 7, 8];

    let result = matrix_multiply_rayon(&a, &b, 2, 2, 2);
    assert_eq!(result, vec![19, 22, 43, 50]);
}

#[test]
fn all_variants_match_reference() {
    let m = 5;
    let n = 7;
    let p = 9;
    let a: Vec<i64> = (0..m * n).map(|t| (t as i64 * 31 % 17) - 8).collect();
    let b: Vec<i64> = (0..n * p).map(|t| (t as i64 * 29 % 19) - 9).collect();

    let expected = reference_product(&a, &b, m, n, p);
    assert_eq!(matrix_multiply(&a, &b, m, n, p), expected);
    assert_eq!(matrix_multiply_rayon(&a, &b, m, n, p), expected);
    assert_eq!(matrix_multiply_avx(&a, &b, m, n, p), expected);
    assert_eq!(matrix_multiply_avx_rayon(&a, &b, m, n, p), expected);
}

#[test]
fn degenerate_dimensions_give_empty_result() {
    let b = vec![1, 2, 3];
    // m == 0: no rows in `a`.
    assert_eq!(matrix_multiply(&vec![], &b, 0, 1, 3), Vec::<i64>::new());
    assert_eq!(matrix_multiply_rayon(&vec![], &b, 0, 1, 3), Vec::<i64>::new());
    assert_eq!(matrix_multiply_avx(&vec![], &b, 0, 1, 3), Vec::<i64>::new());
    assert_eq!(matrix_multiply_avx_rayon(&vec![], &b, 0, 1, 3), Vec::<i64>::new());

    let a = vec![1, 2, 3];
    // p == 0: no columns in `b`.
    assert_eq!(matrix_multiply(&a, &vec![], 1, 3, 0), Vec::<i64>::new());
    assert_eq!(matrix_multiply_rayon(&a, &vec![], 1, 3, 0), Vec::<i64>::new());
    assert_eq!(matrix_multiply_avx(&a, &vec![], 1, 3, 0), Vec::<i64>::new());
    assert_eq!(matrix_multiply_avx_rayon(&a, &vec![], 1, 3, 0), Vec::<i64>::new());

    // n == 0: empty dot products give an all-zero m-by-p result.
    assert_eq!(matrix_multiply(&vec![], &vec![], 2, 0, 3), vec![0; 6]);
    assert_eq!(matrix_multiply_avx(&vec![], &vec![], 2, 0, 3), vec![0; 6]);
}

#[test]
fn remainder_lanes_match_scalar() {
    // p = 10 is not a multiple of the 8-wide lane group, so the final group
    // of each row exercises the partial-width remainder path.
    let m = 3;
    let n = 4;
    let p = 10;
    let a: Vec<i64> = (0..m * n).map(|t| t as i64 - 5).collect();
    let b: Vec<i64> = (0..n * p).map(|t| 2 * (t as i64) - 37).collect();

    let expected = matrix_multiply(&a, &b, m, n, p);
    assert_eq!(expected, reference_product(&a, &b, m, n, p));
    assert_eq!(matrix_multiply_avx(&a, &b, m, n, p), expected);
    assert_eq!(matrix_multiply_avx_rayon(&a, &b, m, n, p), expected);

    // p = 8 and p = 16 hit only full lane groups; p = 1 only the remainder.
    for p2 in [1usize, 8, 16] {
        let b2: Vec<i64> = (0..n * p2).map(|t| t as i64 - 3).collect();
        let want = matrix_multiply(&a, &b2, m, n, p2);
        assert_eq!(matrix_multiply_avx(&a, &b2, m, n, p2), want);
        assert_eq!(matrix_multiply_avx_rayon(&a, &b2, m, n, p2), want);
    }
}

#[test]
fn worker_count_does_not_change_result() {
    let m = 8;
    let n = 3;
    let p = 5;
    let a: Vec<i64> = (0..m * n).map(|t| (t as i64 * 13 % 23) - 11).collect();
    let b: Vec<i64> = (0..n * p).map(|t| (t as i64 * 11 % 29) - 14).collect();

    let one_worker = rayon::ThreadPoolBuilder::new()
        .num_threads(1)
        .build()
        .unwrap()
        .install(|| {
            (
                matrix_multiply_rayon(&a, &b, m, n, p),
                matrix_multiply_avx_rayon(&a, &b, m, n, p),
            )
        });
    let many_workers = rayon::ThreadPoolBuilder::new()
        .num_threads(8)
        .build()
        .unwrap()
        .install(|| {
            (
                matrix_multiply_rayon(&a, &b, m, n, p),
                matrix_multiply_avx_rayon(&a, &b, m, n, p),
            )
        });

    assert_eq!(one_worker, many_workers);
    assert_eq!(one_worker.0, matrix_multiply(&a, &b, m, n, p));
    assert_eq!(one_worker.1, one_worker.0);
}

#[test]
fn repeated_calls_are_identical() {
    let m = 4;
    let n = 6;
    let p = 11;
    let a: Vec<i64> = (0..m * n).map(|t| (t as i64 * 7 % 15) - 7).collect();
    let b: Vec<i64> = (0..n * p).map(|t| (t as i64 * 5 % 13) - 6).collect();

    assert_eq!(
        matrix_multiply(&a, &b, m, n, p),
        matrix_multiply(&a, &b, m, n, p)
    );
    assert_eq!(
        matrix_multiply_rayon(&a, &b, m, n, p),
        matrix_multiply_rayon(&a, &b, m, n, p)
    );
    assert_eq!(
        matrix_multiply_avx(&a, &b, m, n, p),
        matrix_multiply_avx(&a, &b, m, n, p)
    );
    assert_eq!(
        matrix_multiply_avx_rayon(&a, &b, m, n, p),
        matrix_multiply_avx_rayon(&a, &b, m, n, p)
    );
}

#[test]
fn extreme_elements_within_bounds() {
    // Elements at the documented magnitude bound, with the shared dimension
    // large enough to stack several maximal products.
    let big = matmul::ELEM_BOUND;
    let m = 2;
    let n = 3;
    let p = 2;
    let a = vec![big, -big, big, -big, big, -big];
    let b = vec![big, -big, -big, big, big, -big];
    let expected = reference_product(&a, &b, m, n, p);
    assert_eq!(expected[0], 3 * big * big);

    assert_eq!(matrix_multiply(&a, &b, m, n, p), expected);
    assert_eq!(matrix_multiply_rayon(&a, &b, m, n, p), expected);
    assert_eq!(matrix_multiply_avx(&a, &b, m, n, p), expected);
    assert_eq!(matrix_multiply_avx_rayon(&a, &b, m, n, p), expected);
}

#[test]
fn row_units_match_full_product() {
    let m = 4;
    let n = 5;
    let p = 11;
    let a: Vec<i64> = (0..m * n).map(|t| (t as i64 * 3 % 9) - 4).collect();
    let b: Vec<i64> = (0..n * p).map(|t| (t as i64 * 7 % 11) - 5).collect();

    let full = matrix_multiply(&a, &b, m, n, p);
    for i in 0..m {
        let row = matmul::compute_row(&a, &b, i, n, p);
        let row_wide = matmul::compute_row_wide(&a, &b, i, n, p);
        assert_eq!(row, full[i * p..(i + 1) * p].to_vec());
        assert_eq!(row_wide, row);
    }
}

#[test]
fn single_element_matrices() {
    let r = matrix_multiply(&vec![6], &vec![-7], 1, 1, 1);
    assert_eq!(r, vec![-42]);
    assert_eq!(matrix_multiply_avx(&vec![6], &vec![-7], 1, 1, 1), r);
    assert_eq!(matrix_multiply_rayon(&vec![6], &vec![-7], 1, 1, 1), r);
    assert_eq!(matrix_multiply_avx_rayon(&vec![6], &vec![-7], 1, 1, 1), r);
}
