use faer::sparse::ops::union_symbolic;
use faer::sparse::SymbolicSparseColMatRef;
use sparse_llt::error::CholeskyError;
use sparse_llt::pattern::{indices_from_signed, SparsePattern};

fn failure(result: Result<SparsePattern, CholeskyError>) -> CholeskyError {
    match result {
        Ok(_) => panic!("expected a failure"),
        Err(e) => e,
    }
}

#[test]
fn load_accepts_scaled_identity() {
    let m = SparsePattern::load(vec![0, 1, 2], vec![0, 1], 2, 2, 2).unwrap();
    assert_eq!(m.dimension(), 2);
    assert_eq!(m.nnz(), 2);
    assert_eq!(m.col_ptrs(), &vec![0u32, 1, 2]);
    assert_eq!(m.row_indices(), &vec![0u32, 1]);
}

#[test]
fn load_accepts_empty_matrix() {
    let m = SparsePattern::load(vec![0], vec![], 0, 0, 0).unwrap();
    assert_eq!(m.dimension(), 0);
    assert_eq!(m.nnz(), 0);
}

#[test]
fn load_accepts_unsorted_rows_within_a_column() {
    let m = SparsePattern::load(vec![0, 3, 4, 5], vec![2, 0, 1, 1, 2], 5, 3, 3).unwrap();
    assert_eq!(m.row_indices(), &vec![2u32, 0, 1, 1, 2]);
}

#[test]
fn load_rejects_decreasing_offsets() {
    let r = SparsePattern::load(vec![0, 2, 1, 3], vec![0, 1, 2], 3, 3, 3);
    assert_eq!(failure(r), CholeskyError::MalformedMatrix);
}

#[test]
fn load_rejects_row_out_of_range() {
    let r = SparsePattern::load(vec![0, 1, 2], vec![0, 2], 2, 2, 2);
    assert_eq!(failure(r), CholeskyError::MalformedMatrix);
}

#[test]
fn load_rejects_wrong_number_of_offsets() {
    let r = SparsePattern::load(vec![0, 1], vec![0], 1, 2, 2);
    assert_eq!(failure(r), CholeskyError::MalformedMatrix);
    let r = SparsePattern::load(vec![], vec![], 0, 0, 0);
    assert_eq!(failure(r), CholeskyError::MalformedMatrix);
}

#[test]
fn load_rejects_values_of_other_length() {
    let r = SparsePattern::load(vec![0, 1, 2], vec![0, 1], 3, 2, 2);
    assert_eq!(failure(r), CholeskyError::MalformedMatrix);
}

#[test]
fn load_rejects_last_offset_other_than_entry_count() {
    let r = SparsePattern::load(vec![0, 1, 1], vec![0, 1], 2, 2, 2);
    assert_eq!(failure(r), CholeskyError::MalformedMatrix);
}

#[test]
fn load_rejects_first_offset_other_than_zero() {
    let r = SparsePattern::load(vec![1, 1, 2], vec![0, 1], 2, 2, 2);
    assert_eq!(failure(r), CholeskyError::MalformedMatrix);
}

#[test]
fn load_rejects_rectangular_shape() {
    let r = SparsePattern::load(vec![0, 1, 2], vec![0, 1], 2, 3, 2);
    assert_eq!(failure(r), CholeskyError::MalformedMatrix);
}

#[test]
fn add_rejects_differing_dimensions() {
    let a = SparsePattern::load(vec![0, 1, 2], vec![0, 1], 2, 2, 2).unwrap();
    let b = SparsePattern::load(vec![0, 1, 2, 3], vec![0, 1, 2], 3, 3, 3).unwrap();
    assert_eq!(failure(a.add(&b)), CholeskyError::DimensionMismatch);
    assert_eq!(failure(b.add(&a)), CholeskyError::DimensionMismatch);
}

#[test]
fn add_forms_the_union_of_the_patterns() {
    let a = SparsePattern::load(vec![0, 1, 2, 3], vec![0, 1, 2], 3, 3, 3).unwrap();
    let b = SparsePattern::load(vec![0, 2, 2, 4], vec![0, 2, 0, 2], 4, 3, 3).unwrap();
    let s = a.add(&b).unwrap();
    assert_eq!(s.dimension(), 3);
    assert_eq!(s.col_ptrs(), &vec![0u32, 2, 3, 5]);
    assert_eq!(s.row_indices(), &vec![0u32, 2, 1, 0, 2]);
    assert_eq!(s.nnz(), 5);
}

#[test]
fn add_of_disjoint_patterns_keeps_every_entry() {
    let a = SparsePattern::load(vec![0, 1, 1], vec![0], 1, 2, 2).unwrap();
    let b = SparsePattern::load(vec![0, 0, 1], vec![1], 1, 2, 2).unwrap();
    let s = a.add(&b).unwrap();
    assert_eq!(s.col_ptrs(), &vec![0u32, 1, 2]);
    assert_eq!(s.row_indices(), &vec![0u32, 1]);
}

#[test]
fn add_commutes_on_patterns() {
    let a = SparsePattern::load(vec![0, 2, 3, 4], vec![0, 1, 1, 2], 4, 3, 3).unwrap();
    let b = SparsePattern::load(vec![0, 1, 3, 5], vec![2, 0, 1, 0, 2], 5, 3, 3).unwrap();
    let ab = a.add(&b).unwrap();
    let ba = b.add(&a).unwrap();
    assert_eq!(ab.col_ptrs(), ba.col_ptrs());
    assert_eq!(ab.row_indices(), ba.row_indices());
    assert_eq!(ab.col_ptrs(), &vec![0u32, 3, 5, 7]);
    assert_eq!(ab.row_indices(), &vec![0u32, 1, 2, 0, 1, 0, 2]);
}

#[test]
fn add_merges_columns_front_to_front() {
    // Column 0: [2, 0] against [1] gives 1, then what is left of [2, 0].
    // Column 1: [1, 1] against [1, 0] gives 1 once, then 0, then the second 1.
    let a = SparsePattern::load(vec![0, 2, 4, 4], vec![2, 0, 1, 1], 4, 3, 3).unwrap();
    let b = SparsePattern::load(vec![0, 1, 3, 3], vec![1, 1, 0], 3, 3, 3).unwrap();
    let s = a.add(&b).unwrap();
    assert_eq!(s.col_ptrs(), &vec![0u32, 3, 6, 6]);
    assert_eq!(s.row_indices(), &vec![1u32, 2, 0, 1, 0, 1]);
}

#[test]
fn add_gives_the_pattern_of_the_numeric_sum() {
    let a = SparsePattern::load(vec![0, 2, 3, 4], vec![0, 1, 1, 2], 4, 3, 3).unwrap();
    let b = SparsePattern::load(vec![0, 1, 3, 5], vec![2, 0, 1, 0, 2], 5, 3, 3).unwrap();
    let s = a.add(&b).unwrap();
    let lhs = SymbolicSparseColMatRef::new_unsorted_checked(3, 3, a.col_ptrs(), None, a.row_indices());
    let rhs = SymbolicSparseColMatRef::new_unsorted_checked(3, 3, b.col_ptrs(), None, b.row_indices());
    let (nrows, ncols, col_ptrs, _, row_indices) = union_symbolic(lhs, rhs).unwrap().into_parts();
    assert_eq!(nrows, s.dimension());
    assert_eq!(ncols, s.dimension());
    assert_eq!(&col_ptrs, s.col_ptrs());
    assert_eq!(&row_indices, s.row_indices());
}

#[test]
fn add_of_empty_matrices_is_empty() {
    let a = SparsePattern::load(vec![0], vec![], 0, 0, 0).unwrap();
    let b = SparsePattern::load(vec![0], vec![], 0, 0, 0).unwrap();
    let s = a.add(&b).unwrap();
    assert_eq!(s.dimension(), 0);
    assert_eq!(s.col_ptrs(), &vec![0u32]);
    assert_eq!(s.nnz(), 0);
}

#[test]
fn error_messages_differ() {
    assert_eq!(CholeskyError::MalformedMatrix.message(), "malformed compressed-column matrix");
    assert_eq!(CholeskyError::DimensionMismatch.message(), "dimension mismatch");
    assert_eq!(CholeskyError::SingularPattern.message(), "inconsistent elimination tree");
    assert_eq!(CholeskyError::NotPositiveDefinite.message(), "matrix is not positive definite");
    assert_eq!(CholeskyError::AllocationFailure.message(), "allocation failure");
}

#[test]
fn signed_indices_are_read_as_unsigned() {
    assert_eq!(indices_from_signed(&vec![0, 3, 2147483647]), Ok(vec![0u32, 3, 2147483647]));
    assert_eq!(indices_from_signed(&vec![]), Ok(vec![]));
    assert_eq!(indices_from_signed(&vec![0, -1, 2]), Err(CholeskyError::MalformedMatrix));
}

#[test]
fn load_signed_accepts_what_load_accepts() {
    let m = SparsePattern::load_signed(&vec![0, 1, 2], &vec![0, 1], 2, 2, 2).unwrap();
    assert_eq!(m.dimension(), 2);
    assert_eq!(m.col_ptrs(), &vec![0u32, 1, 2]);
    assert_eq!(m.row_indices(), &vec![0u32, 1]);
}

#[test]
fn load_signed_rejects_negative_entries() {
    let r = SparsePattern::load_signed(&vec![0, 1, 2], &vec![0, -1], 2, 2, 2);
    assert_eq!(failure(r), CholeskyError::MalformedMatrix);
    let r = SparsePattern::load_signed(&vec![0, -1, 2], &vec![0, 1], 2, 2, 2);
    assert_eq!(failure(r), CholeskyError::MalformedMatrix);
    let r = SparsePattern::load_signed(&vec![0], &vec![], 0, -1, -1);
    assert_eq!(failure(r), CholeskyError::MalformedMatrix);
    let r = SparsePattern::load_signed(&vec![0, 2, 1, 3], &vec![0, 1, 2], 3, 3, 3);
    assert_eq!(failure(r), CholeskyError::MalformedMatrix);
}
