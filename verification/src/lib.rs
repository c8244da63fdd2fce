//! Dense matrix multiplication over flat row-major buffers, offered in four
//! interchangeable kernels: a scalar triple loop, a row-partitioned kernel
//! that distributes rows across a worker pool, a lane-grouped kernel that
//! accumulates eight output columns at a time, and a kernel combining both.
//! All four are proved to return exactly the row-major dot-product matrix.

mod laws;
mod model;
mod pool;
mod scalar;
mod wide;

pub use laws::lemma_degenerate_empty;
pub use laws::lemma_index_decomp;
pub use laws::lemma_product_unique;
pub use pool::matrix_multiply_avx_rayon;
pub use pool::matrix_multiply_rayon;

pub use scalar::compute_row;
pub use scalar::matrix_multiply;
pub use wide::compute_row_wide;
pub use wide::matrix_multiply_avx;

pub use model::dot;
pub use model::dot_partial;
pub use model::elem_bounded;
pub use model::is_product;
pub use model::valid_inputs;
pub use model::DIM_BOUND;
pub use model::ELEM_BOUND;
pub use model::ELEM_BOUND_SQ;
pub use model::LANES;
