//! The structure-only phase: elimination tree, column counts and the
//! supernodal layout of the Cholesky factor, computed once per pattern.

use vstd::prelude::*;
use dyn_stack::{GlobalPodBuffer, PodStack, ReborrowMut, StackReq};
use faer::sparse::linalg::cholesky::simplicial::prefactorize_symbolic_cholesky;
use faer::sparse::linalg::cholesky::supernodal::{
    factorize_supernodal_symbolic, factorize_supernodal_symbolic_cholesky_req,
    SymbolicSupernodalCholesky,
};
use faer::sparse::{FaerError, SymbolicSparseColMatRef};
use crate::error::CholeskyError;
use crate::etree::{
    decode_parents, parents_ascend, raw_tree_consistent, tree_fits_pattern, EliminationTree,
};
use crate::pattern::{PatternView, SparsePattern};

verus! {

/// The error type of the sparse routines of `faer`, carried through
/// unopened.
#[verifier::external_type_specification]
#[verifier::external_body]
pub struct ExFaerError(FaerError);

/// The supernodal layout that `faer` computes, carried through unopened:
/// supernode boundaries, row patterns and the number of numeric values.
/// The verifier sees nothing inside it; the numeric phase reads `inner`.
#[verifier::external_body]
pub struct SupernodalLayout {
    pub inner: SymbolicSupernodalCholesky<u32>,
}

/// The raw elimination tree and the column counts that
/// `prefactorize_symbolic_cholesky` of `faer` computes for the pattern of
/// dimension `n` with the given column offsets and row indices.
pub uninterp spec fn prefactorization(n: nat, col_ptrs: Seq<u32>, row_indices: Seq<u32>) -> (
    Seq<i32>,
    Seq<u32>,
);

/// Calls `faer::sparse::linalg::cholesky::simplicial::prefactorize_symbolic_cholesky`
/// with scratch space for `n` indices. Trusted: the two arrays it fills, the
/// raw parent array and the per-column entry counts of the factor, depend on
/// the pattern alone. Nothing is claimed of what they hold.
#[verifier::external_body]
fn prefactorize(n: usize, col_ptrs: &Vec<u32>, row_indices: &Vec<u32>) -> (result: (
    Vec<i32>,
    Vec<u32>,
))
    requires
        (PatternView { nrows: n as nat, ncols: n as nat, col_ptrs: col_ptrs@, row_indices: row_indices@ }).well_formed(),
    ensures
        (result.0@, result.1@) == prefactorization(n as nat, col_ptrs@, row_indices@),
{
    let a = SymbolicSparseColMatRef::new_unsorted_checked(n, n, col_ptrs, None, row_indices);
    let mut etree: Vec<i32> = Vec::new();
    etree.resize(n, 0);
    let mut counts: Vec<u32> = Vec::new();
    counts.resize(n, 0);
    let mut mem = GlobalPodBuffer::new(StackReq::new::<u32>(n));
    prefactorize_symbolic_cholesky::<u32>(&mut etree, &mut counts, a, PodStack::new(&mut mem));
    (etree, counts)
}

/// Calls `prefactorize_symbolic_cholesky` and then
/// `faer::sparse::linalg::cholesky::supernodal::factorize_supernodal_symbolic`
/// on its output, with default parameters and scratch space sized for both.
/// Trusted only not to panic on a well-formed pattern; nothing is claimed of
/// the layout returned, and the call may fail for want of memory or index
/// range.
#[verifier::external_body]
fn supernodal_layout(n: usize, col_ptrs: &Vec<u32>, row_indices: &Vec<u32>) -> (result: Result<
    SupernodalLayout,
    FaerError,
>)
    requires
        (PatternView { nrows: n as nat, ncols: n as nat, col_ptrs: col_ptrs@, row_indices: row_indices@ }).well_formed(),
{
    let a = SymbolicSparseColMatRef::new_unsorted_checked(n, n, col_ptrs, None, row_indices);
    let mut etree: Vec<i32> = Vec::new();
    etree.resize(n, 0);
    let mut counts: Vec<u32> = Vec::new();
    counts.resize(n, 0);
    let req = StackReq::new::<u32>(n).or(factorize_supernodal_symbolic_cholesky_req::<u32>(n)?);
    let mut mem = GlobalPodBuffer::new(req);
    let mut stack = PodStack::new(&mut mem);
    let tree = prefactorize_symbolic_cholesky::<u32>(&mut etree, &mut counts, a, stack.rb_mut());
    let params = Default::default();
    let inner = factorize_supernodal_symbolic::<u32>(a, tree, &counts, stack.rb_mut(), params)?;
    Ok(SupernodalLayout { inner })
}

/// Whether per-column entry counts fit a lower-triangular factor of
/// dimension `n`: column `j` holds its diagonal and at most the rows below.
pub open spec fn counts_consistent(counts: Seq<u32>, n: nat) -> bool {
    &&& counts.len() == n
    &&& forall|j: int| 0 <= j < n ==> 1 <= #[trigger] counts[j] <= n - j
}

/// Whether the count of column `j` fits the tree: a root holds its
/// diagonal alone; any other column holds more, and all it holds below the
/// diagonal recurs in its parent.
pub open spec fn count_fits_tree(counts: Seq<u32>, parents: Seq<Option<usize>>, j: int) -> bool {
    match parents[j] {
        None => counts[j] == 1,
        Some(p) => counts[j] >= 2 && p < counts.len() && counts[j] - 1 <= counts[p as int],
    }
}

/// Whether per-column entry counts fit an elimination tree.
pub open spec fn counts_fit_tree(counts: Seq<u32>, parents: Seq<Option<usize>>) -> bool {
    &&& counts.len() == parents.len()
    &&& forall|j: int| 0 <= j < counts.len() ==> #[trigger] count_fits_tree(counts, parents, j)
}

/// Whether a raw elimination tree and column counts describe a valid
/// Cholesky structure for a pattern: the tree is a forest of ascending
/// parents that fits the pattern, and the counts fit the triangle and the
/// tree.
pub open spec fn structure_consistent(raw_etree: Seq<i32>, counts: Seq<u32>, p: PatternView) -> bool {
    &&& raw_tree_consistent(raw_etree, p.ncols)
    &&& counts_consistent(counts, p.ncols)
    &&& tree_fits_pattern(decode_parents(raw_etree), p)
    &&& counts_fit_tree(counts, decode_parents(raw_etree))
}

/// Decides `counts_consistent`.
pub fn check_counts(counts: &Vec<u32>, n: usize) -> (ok: bool)
    ensures
        ok == counts_consistent(counts@, n as nat),
{
    if counts.len() != n {
        return false;
    }
    let mut j: usize = 0;
    while j < n
        invariant
            j <= n,
            counts@.len() == n,
            forall|t: int| 0 <= t < j ==> 1 <= #[trigger] counts@[t] <= n - t,
        decreases n - j,
    {
        let c: usize = counts[j] as usize;
        if c < 1 || c > n - j {
            return false;
        }
        j += 1;
    }
    true
}

/// Decides `counts_fit_tree`.
pub fn check_counts_against_tree(counts: &Vec<u32>, tree: &EliminationTree) -> (ok: bool)
    ensures
        ok == counts_fit_tree(counts@, tree@),
{
    let n: usize = tree.len();
    if counts.len() != n {
        return false;
    }
    let mut j: usize = 0;
    while j < n
        invariant
            j <= n,
            n == tree@.len(),
            counts@.len() == n,
            forall|t: int| 0 <= t < j ==> #[trigger] count_fits_tree(counts@, tree@, t),
        decreases n - j,
    {
        let fits: bool = match tree.parent(j) {
            None => counts[j] == 1,
            Some(p) => counts[j] >= 2 && counts[j] - 1 <= counts[p],
        };
        if !fits {
            assert(!count_fits_tree(counts@, tree@, j as int));
            return false;
        }
        j += 1;
    }
    true
}

/// The reusable description of a Cholesky factor's non-zero structure.
/// Immutable once built; it keeps no reference to the matrix it came from.
pub struct SymbolicFactor {
    dimension: usize,
    etree: EliminationTree,
    col_counts: Vec<u32>,
    layout: SupernodalLayout,
}

impl SymbolicFactor {
    #[verifier::type_invariant]
    spec fn inv(self) -> bool {
        &&& self.etree@.len() == self.dimension
        &&& parents_ascend(self.etree@)
        &&& counts_consistent(self.col_counts@, self.dimension as nat)
        &&& counts_fit_tree(self.col_counts@, self.etree@)
    }

    /// The dimension of the matrices this factor describes.
    pub closed spec fn spec_dimension(&self) -> nat {
        self.dimension as nat
    }

    /// The parent of each column in the elimination tree.
    pub closed spec fn spec_parents(&self) -> Seq<Option<usize>> {
        self.etree@
    }

    /// The number of entries in each column of the factor.
    pub closed spec fn spec_col_counts(&self) -> Seq<u32> {
        self.col_counts@
    }

    /// The supernodal layout held inside.
    pub closed spec fn spec_layout(&self) -> SupernodalLayout {
        self.layout
    }

    /// Builds the factor of a pattern from the raw results of the structural
    /// passes. A tree or counts that do not describe a valid structure for
    /// the pattern give `SingularPattern`; failing that, a failed layout
    /// gives `AllocationFailure`; otherwise the factor holds exactly what
    /// was handed in.
    pub fn assemble(
        pattern: &SparsePattern,
        raw_etree: &Vec<i32>,
        col_counts: Vec<u32>,
        layout: Result<SupernodalLayout, FaerError>,
    ) -> (result: Result<SymbolicFactor, CholeskyError>)
        ensures
            !structure_consistent(raw_etree@, col_counts@, pattern@) ==> result is Err
                && result->Err_0 == CholeskyError::SingularPattern,
            structure_consistent(raw_etree@, col_counts@, pattern@) && layout is Err ==> result is Err
                && result->Err_0 == CholeskyError::AllocationFailure,
            structure_consistent(raw_etree@, col_counts@, pattern@) && layout is Ok ==> {
                &&& result is Ok
                &&& result->Ok_0.spec_dimension() == pattern@.ncols
                &&& result->Ok_0.spec_parents() == decode_parents(raw_etree@)
                &&& parents_ascend(result->Ok_0.spec_parents())
                &&& result->Ok_0.spec_col_counts() == col_counts@
                &&& result->Ok_0.spec_layout() == layout->Ok_0
            },
    {
        let n: usize = pattern.dimension();
        if raw_etree.len() != n || !check_counts(&col_counts, n) {
            return Err(CholeskyError::SingularPattern);
        }
        let etree = match EliminationTree::from_raw(raw_etree) {
            Ok(tree) => tree,
            Err(_) => {
                return Err(CholeskyError::SingularPattern);
            },
        };
        if !etree.fits(pattern) || !check_counts_against_tree(&col_counts, &etree) {
            return Err(CholeskyError::SingularPattern);
        }
        match layout {
            Ok(layout) => Ok(SymbolicFactor { dimension: n, etree, col_counts, layout }),
            Err(_) => Err(CholeskyError::AllocationFailure),
        }
    }

    /// Computes the symbolic factorization of a pattern. Only the structure
    /// is read, and the same pattern always gives the same tree and counts.
    /// The tree and counts are checked against the pattern before they are
    /// accepted.
    pub fn factorize_symbolic(pattern: &SparsePattern) -> (result: Result<SymbolicFactor, CholeskyError>)
        ensures
            ({
                let pre = prefactorization(pattern@.nrows, pattern@.col_ptrs, pattern@.row_indices);
                let sound = structure_consistent(pre.0, pre.1, pattern@);
                match result {
                    Ok(factor) => {
                        &&& sound
                        &&& factor.spec_dimension() == pattern@.nrows
                        &&& factor.spec_parents() == decode_parents(pre.0)
                        &&& factor.spec_col_counts() == pre.1
                        &&& parents_ascend(factor.spec_parents())
                        &&& tree_fits_pattern(factor.spec_parents(), pattern@)
                    },
                    Err(e) => if sound {
                        e == CholeskyError::AllocationFailure
                    } else {
                        e == CholeskyError::SingularPattern
                    },
                }
            }),
    {
        let n: usize = pattern.dimension();
        let (raw_etree, col_counts) = prefactorize(n, pattern.col_ptrs(), pattern.row_indices());
        let layout = supernodal_layout(n, pattern.col_ptrs(), pattern.row_indices());
        SymbolicFactor::assemble(pattern, &raw_etree, col_counts, layout)
    }

    /// The dimension of the matrices this factor describes.
    pub fn dimension(&self) -> (n: usize)
        ensures
            n == self.spec_dimension(),
    {
        self.dimension
    }

    /// The elimination tree of the pattern.
    pub fn etree(&self) -> (tree: &EliminationTree)
        ensures
            tree@ == self.spec_parents(),
            tree@.len() == self.spec_dimension(),
            parents_ascend(tree@),
    {
        proof {
            use_type_invariant(self);
        }
        &self.etree
    }

    /// The number of entries in each column of the factor.
    pub fn col_counts(&self) -> (counts: &Vec<u32>)
        ensures
            counts@ == self.spec_col_counts(),
            counts_consistent(counts@, self.spec_dimension()),
            counts_fit_tree(counts@, self.spec_parents()),
    {
        proof {
            use_type_invariant(self);
        }
        &self.col_counts
    }

    /// The supernodal layout, for the numeric phase.
    pub fn layout(&self) -> (layout: &SupernodalLayout)
        ensures
            *layout == self.spec_layout(),
    {
        &self.layout
    }

    /// Checks the vectors of a sampling call against the factor: both the
    /// right-hand side and the noise must have one entry per column.
    pub fn check_sample_inputs(&self, rhs_len: usize, noise_len: usize) -> (result: Result<
        (),
        CholeskyError,
    >)
        ensures
            rhs_len == self.spec_dimension() && noise_len == self.spec_dimension() ==> result is Ok,
            !(rhs_len == self.spec_dimension() && noise_len == self.spec_dimension()) ==> result
                is Err && result->Err_0 == CholeskyError::DimensionMismatch,
    {
        if rhs_len == self.dimension && noise_len == self.dimension {
            Ok(())
        } else {
            Err(CholeskyError::DimensionMismatch)
        }
    }

    /// Checks that a matrix can be factorized against this factor as far as
    /// its shape goes.
    pub fn check_matrix(&self, matrix: &SparsePattern) -> (result: Result<(), CholeskyError>)
        ensures
            matrix@.nrows == self.spec_dimension() ==> result is Ok,
            matrix@.nrows != self.spec_dimension() ==> result is Err && result->Err_0
                == CholeskyError::DimensionMismatch,
    {
        if matrix.dimension() == self.dimension {
            Ok(())
        } else {
            Err(CholeskyError::DimensionMismatch)
        }
    }
}

} // verus!
