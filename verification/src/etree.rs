//! Elimination trees: for each column, the column that absorbs its fill-in.

use vstd::prelude::*;
use crate::error::CholeskyError;
use crate::pattern::{PatternView, SparsePattern};

verus! {

/// Whether a raw parent array describes a forest over `n` columns: one
/// entry per column, each either `-1` (a root) or a later column.
pub open spec fn raw_tree_consistent(raw: Seq<i32>, n: nat) -> bool {
    &&& raw.len() == n
    &&& forall|j: int| 0 <= j < n ==> #[trigger] raw[j] == -1 || j < raw[j] < n
}

/// The parent of each column as decoded from a raw parent array.
pub open spec fn decode_parents(raw: Seq<i32>) -> Seq<Option<usize>> {
    Seq::new(raw.len(), |j: int| if raw[j] < 0 { None } else { Some(raw[j] as usize) })
}

/// Whether every parent in `parents` is a later column.
pub open spec fn parents_ascend(parents: Seq<Option<usize>>) -> bool {
    forall|j: int|
        0 <= j < parents.len() ==> match #[trigger] parents[j] {
            Some(p) => j < p < parents.len(),
            None => true,
        }
}

/// Whether stored entry `k`, which lies in column `j`, is accounted for by
/// the tree: an entry above the diagonal, at row `i`, makes column `j` take
/// part in the fill-in of column `i`, so `i` has a parent no later than `j`.
pub open spec fn entry_accounted(parents: Seq<Option<usize>>, p: PatternView, j: int, k: int) -> bool {
    let i = p.row_indices[k] as int;
    i < j ==> match parents[i] {
        Some(q) => q <= j,
        None => false,
    }
}

/// Whether a tree fits a pattern: one node per column, and every stored
/// entry accounted for.
pub open spec fn tree_fits_pattern(parents: Seq<Option<usize>>, p: PatternView) -> bool {
    &&& parents.len() == p.ncols
    &&& forall|j: int, k: int|
        0 <= j < p.ncols && p.col_ptrs[j] <= k < p.col_ptrs[j + 1] ==> #[trigger] entry_accounted(
            parents,
            p,
            j,
            k,
        )
}

/// `parent[j]` is the column that absorbs column `j`'s fill-in, or `None`
/// where `j` is a root.
pub struct EliminationTree {
    parent: Vec<Option<usize>>,
}

impl View for EliminationTree {
    type V = Seq<Option<usize>>;

    closed spec fn view(&self) -> Seq<Option<usize>> {
        self.parent@
    }
}

impl EliminationTree {
    #[verifier::type_invariant]
    spec fn inv(self) -> bool {
        parents_ascend(self.parent@)
    }

    /// Decodes a raw parent array, rejecting with `SingularPattern` one
    /// that is not a forest in which every parent is a later column.
    pub fn from_raw(raw: &Vec<i32>) -> (result: Result<EliminationTree, CholeskyError>)
        ensures
            match result {
                Ok(tree) => {
                    &&& raw_tree_consistent(raw@, raw@.len())
                    &&& tree@ == decode_parents(raw@)
                    &&& parents_ascend(tree@)
                },
                Err(e) => {
                    &&& e == CholeskyError::SingularPattern
                    &&& !raw_tree_consistent(raw@, raw@.len())
                },
            },
    {
        let n: usize = raw.len();
        let mut parent: Vec<Option<usize>> = Vec::new();
        let mut j: usize = 0;
        while j < n
            invariant
                j <= n,
                n == raw@.len(),
                parent@.len() == j,
                forall|t: int| 0 <= t < j ==> #[trigger] raw@[t] == -1 || t < raw@[t] < n,
                forall|t: int| 0 <= t < j ==> #[trigger] parent@[t] == decode_parents(raw@)[t],
            decreases n - j,
        {
            let p: i32 = raw[j];
            if p == -1 {
                parent.push(None);
            } else if p < 0 {
                return Err(CholeskyError::SingularPattern);
            } else {
                let q: usize = p as usize;
                if q <= j || q >= n {
                    return Err(CholeskyError::SingularPattern);
                }
                parent.push(Some(q));
            }
            j += 1;
        }
        assert(parent@ =~= decode_parents(raw@));
        Ok(EliminationTree { parent })
    }

    /// Decides whether the tree fits a pattern.
    pub fn fits(&self, pattern: &SparsePattern) -> (ok: bool)
        ensures
            ok == tree_fits_pattern(self@, pattern@),
    {
        let n: usize = pattern.dimension();
        if self.parent.len() != n {
            return false;
        }
        let col_ptrs = pattern.col_ptrs();
        let rows = pattern.row_indices();
        let mut j: usize = 0;
        while j < n
            invariant
                pattern@.well_formed(),
                n == pattern@.ncols,
                self.parent@.len() == n,
                col_ptrs@ == pattern@.col_ptrs,
                rows@ == pattern@.row_indices,
                j <= n,
                forall|c: int, k: int|
                    0 <= c < j && pattern@.col_ptrs[c] <= k < pattern@.col_ptrs[c + 1]
                        ==> #[trigger] entry_accounted(self@, pattern@, c, k),
            decreases n - j,
        {
            assert(col_ptrs@[j as int] <= col_ptrs@[j + 1] <= col_ptrs@[n as int]);
            let hi: usize = col_ptrs[j + 1] as usize;
            let mut k: usize = col_ptrs[j] as usize;
            while k < hi
                invariant
                    pattern@.well_formed(),
                    n == pattern@.ncols,
                    self.parent@.len() == n,
                    col_ptrs@ == pattern@.col_ptrs,
                    rows@ == pattern@.row_indices,
                    j < n,
                    hi == pattern@.col_ptrs[j + 1],
                    hi <= rows@.len(),
                    pattern@.col_ptrs[j as int] <= k <= hi,
                    forall|t: int|
                        pattern@.col_ptrs[j as int] <= t < k ==> #[trigger] entry_accounted(
                            self@,
                            pattern@,
                            j as int,
                            t,
                        ),
                decreases hi - k,
            {
                let i: usize = rows[k] as usize;
                assert((rows@[k as int] as int) < n);
                if i < j {
                    let accounted: bool = match self.parent[i] {
                        Some(q) => q <= j,
                        None => false,
                    };
                    if !accounted {
                        assert(!entry_accounted(self@, pattern@, j as int, k as int));
                        return false;
                    }
                }
                k += 1;
            }
            j += 1;
        }
        true
    }

    /// The number of columns.
    pub fn len(&self) -> (n: usize)
        ensures
            n == self@.len(),
            parents_ascend(self@),
    {
        proof {
            use_type_invariant(self);
        }
        self.parent.len()
    }

    /// The parent of column `j`, or `None` where `j` is a root.
    pub fn parent(&self, j: usize) -> (p: Option<usize>)
        requires
            j < self@.len(),
        ensures
            p == self@[j as int],
            p is Some ==> j < p->Some_0 < self@.len(),
    {
        proof {
            use_type_invariant(self);
        }
        self.parent[j]
    }
}

} // verus!
