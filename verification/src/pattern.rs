//! Compressed-column sparsity patterns of square matrices.

use vstd::prelude::*;
use crate::error::CholeskyError;

verus! {

/// The largest dimension a pattern may have: indices are 32-bit and must
/// also be representable as non-negative signed values.
pub const MAX_DIMENSION: usize = 2147483647;

/// The largest number of entries a sum may hold, for the same reason.
pub const MAX_ENTRIES: usize = 2147483647;

/// The mathematical content of a pattern: its dimensions and its two
/// compressed-column index arrays.
pub struct PatternView {
    pub nrows: nat,
    pub ncols: nat,
    pub col_ptrs: Seq<u32>,
    pub row_indices: Seq<u32>,
}

impl PatternView {
    /// The column offsets start at zero, never decrease, and end at the
    /// number of stored entries.
    pub open spec fn offsets_valid(self) -> bool {
        &&& self.col_ptrs.len() == self.ncols + 1
        &&& self.col_ptrs[0] == 0
        &&& self.col_ptrs[self.ncols as int] as int == self.row_indices.len()
        &&& forall|i: int, j: int|
            0 <= i <= j <= self.ncols ==> self.col_ptrs[i] <= self.col_ptrs[j]
    }

    /// Every stored row index names a row of the matrix.
    pub open spec fn rows_in_range(self) -> bool {
        forall|k: int| 0 <= k < self.row_indices.len() ==> (#[trigger] self.row_indices[k] as int) < self.nrows
    }

    /// The invariant of a loaded pattern.
    pub open spec fn well_formed(self) -> bool {
        &&& self.nrows == self.ncols
        &&& self.nrows <= MAX_DIMENSION
        &&& self.offsets_valid()
        &&& self.rows_in_range()
    }

    /// The stored row indices of column `j`, in storage order.
    pub open spec fn column(self, j: int) -> Seq<u32> {
        self.row_indices.subrange(self.col_ptrs[j] as int, self.col_ptrs[j + 1] as int)
    }

    /// The set of rows at which column `j` has an entry.
    pub open spec fn column_rows(self, j: int) -> Set<u32> {
        self.column(j).to_set()
    }

    /// Whether the pattern has an entry at row `i` of column `j`.
    pub open spec fn has_entry(self, i: u32, j: int) -> bool {
        self.column_rows(j).contains(i)
    }

    /// `self` is the pattern of the sum of `a` and `b`: well formed, of
    /// their shape, each column the merge of their two columns.
    pub open spec fn is_sum_of(self, a: PatternView, b: PatternView) -> bool {
        &&& self.well_formed()
        &&& self.nrows == a.nrows
        &&& self.ncols == a.ncols
        &&& forall|j: int|
            0 <= j < self.ncols ==> #[trigger] self.column(j) == merge_rows(a.column(j), b.column(j))
    }
}

/// Two columns merged front to front: the smaller head comes out first, and
/// equal heads come out once. Whatever is left of one column when the other
/// runs out follows as it stands.
pub open spec fn merge_rows(a: Seq<u32>, b: Seq<u32>) -> Seq<u32>
    decreases a.len() + b.len(),
{
    if a.len() == 0 {
        b
    } else if b.len() == 0 {
        a
    } else if a[0] < b[0] {
        seq![a[0]] + merge_rows(a.drop_first(), b)
    } else if a[0] == b[0] {
        seq![a[0]] + merge_rows(a.drop_first(), b.drop_first())
    } else {
        seq![b[0]] + merge_rows(a, b.drop_first())
    }
}

/// The number of entries in the first `j` columns of the sum of `a` and
/// `b`.
pub open spec fn sum_len(a: PatternView, b: PatternView, j: int) -> int
    decreases j,
{
    if j <= 0 {
        0
    } else {
        sum_len(a, b, j - 1) + merge_rows(a.column(j - 1), b.column(j - 1)).len()
    }
}

/// The non-zero structure of a square sparse matrix in compressed-column
/// form. Values are kept by the caller, parallel to `row_indices`.
pub struct SparsePattern {
    nrows: usize,
    ncols: usize,
    col_ptrs: Vec<u32>,
    row_indices: Vec<u32>,
}

impl View for SparsePattern {
    type V = PatternView;

    closed spec fn view(&self) -> PatternView {
        PatternView {
            nrows: self.nrows as nat,
            ncols: self.ncols as nat,
            col_ptrs: self.col_ptrs@,
            row_indices: self.row_indices@,
        }
    }
}

/// What `load` accepts: a square shape within the index range, valid
/// offsets, in-range rows, and one value per stored row index.
pub open spec fn loadable(
    col_ptrs: Seq<u32>,
    row_indices: Seq<u32>,
    values_len: nat,
    nrows: nat,
    ncols: nat,
) -> bool {
    &&& values_len == row_indices.len()
    &&& (PatternView { nrows, ncols, col_ptrs, row_indices }).well_formed()
}

/// Whether no entry of a signed index array is negative.
pub open spec fn non_negative(raw: Seq<i32>) -> bool {
    forall|k: int| 0 <= k < raw.len() ==> #[trigger] raw[k] >= 0
}

/// A signed index array read as unsigned indices, entry for entry.
pub open spec fn as_indices(raw: Seq<i32>) -> Seq<u32> {
    Seq::new(raw.len(), |k: int| raw[k] as u32)
}

/// What `load_signed` accepts: nothing negative, and arrays that `load`
/// accepts once read as unsigned.
pub open spec fn loadable_signed(
    col_ptrs: Seq<i32>,
    row_indices: Seq<i32>,
    values_len: nat,
    nrows: int,
    ncols: int,
) -> bool {
    &&& non_negative(col_ptrs)
    &&& non_negative(row_indices)
    &&& nrows >= 0
    &&& ncols >= 0
    &&& loadable(as_indices(col_ptrs), as_indices(row_indices), values_len, nrows as nat, ncols as nat)
}

/// Reads a signed index array as unsigned indices; an array with a negative
/// entry is rejected with `MalformedMatrix`.
pub fn indices_from_signed(raw: &Vec<i32>) -> (result: Result<Vec<u32>, CholeskyError>)
    ensures
        match result {
            Ok(indices) => non_negative(raw@) && indices@ == as_indices(raw@),
            Err(e) => e == CholeskyError::MalformedMatrix && !non_negative(raw@),
        },
{
    let mut indices: Vec<u32> = Vec::new();
    let mut k: usize = 0;
    while k < raw.len()
        invariant
            k <= raw@.len(),
            indices@.len() == k,
            forall|t: int| 0 <= t < k ==> #[trigger] raw@[t] >= 0,
            forall|t: int| 0 <= t < k ==> #[trigger] indices@[t] == raw@[t] as u32,
        decreases raw@.len() - k,
    {
        let v: i32 = raw[k];
        if v < 0 {
            return Err(CholeskyError::MalformedMatrix);
        }
        indices.push(v as u32);
        k += 1;
    }
    assert(indices@ =~= as_indices(raw@));
    Ok(indices)
}

impl SparsePattern {
    #[verifier::type_invariant]
    spec fn inv(self) -> bool {
        self@.well_formed()
    }

    /// Validates compressed-column arrays and wraps them without copying.
    /// `values_len` is the length of the caller's value array.
    pub fn load(
        col_ptrs: Vec<u32>,
        row_indices: Vec<u32>,
        values_len: usize,
        nrows: usize,
        ncols: usize,
    ) -> (result: Result<SparsePattern, CholeskyError>)
        ensures
            match result {
                Ok(m) => {
                    &&& loadable(col_ptrs@, row_indices@, values_len as nat, nrows as nat, ncols as nat)
                    &&& m@ == (PatternView {
                        nrows: nrows as nat,
                        ncols: ncols as nat,
                        col_ptrs: col_ptrs@,
                        row_indices: row_indices@,
                    })
                },
                Err(e) => {
                    &&& e == CholeskyError::MalformedMatrix
                    &&& !loadable(col_ptrs@, row_indices@, values_len as nat, nrows as nat, ncols as nat)
                },
            },
    {
        if nrows != ncols || nrows > MAX_DIMENSION || values_len != row_indices.len() {
            return Err(CholeskyError::MalformedMatrix);
        }
        if col_ptrs.len() != ncols + 1 || col_ptrs[0] != 0 {
            return Err(CholeskyError::MalformedMatrix);
        }
        if col_ptrs[ncols] as usize != row_indices.len() {
            return Err(CholeskyError::MalformedMatrix);
        }
        let mut j: usize = 0;
        while j < ncols
            invariant
                j <= ncols,
                col_ptrs.len() == ncols + 1,
                forall|a: int, b: int| 0 <= a <= b <= j ==> col_ptrs@[a] <= col_ptrs@[b],
            decreases ncols - j,
        {
            if col_ptrs[j] > col_ptrs[j + 1] {
                return Err(CholeskyError::MalformedMatrix);
            }
            assert forall|a: int, b: int| 0 <= a <= b <= j + 1 implies col_ptrs@[a] <= col_ptrs@[b] by {
                if b == j + 1 && a <= j {
                    assert(col_ptrs@[a] <= col_ptrs@[j as int]);
                }
            }
            j += 1;
        }
        let mut k: usize = 0;
        while k < row_indices.len()
            invariant
                k <= row_indices.len(),
                forall|t: int| 0 <= t < k ==> (#[trigger] row_indices@[t] as int) < nrows,
            decreases row_indices.len() - k,
        {
            if row_indices[k] as usize >= nrows {
                return Err(CholeskyError::MalformedMatrix);
            }
            k += 1;
        }
        Ok(SparsePattern { nrows, ncols, col_ptrs, row_indices })
    }

    /// Validates compressed-column arrays held as signed integers, as a host
    /// without unsigned integers supplies them. A negative offset, index or
    /// dimension is rejected with `MalformedMatrix`, as is whatever `load`
    /// rejects.
    pub fn load_signed(
        col_ptrs: &Vec<i32>,
        row_indices: &Vec<i32>,
        values_len: usize,
        nrows: i32,
        ncols: i32,
    ) -> (result: Result<SparsePattern, CholeskyError>)
        ensures
            match result {
                Ok(m) => {
                    &&& loadable_signed(col_ptrs@, row_indices@, values_len as nat, nrows as int, ncols as int)
                    &&& m@ == (PatternView {
                        nrows: nrows as nat,
                        ncols: ncols as nat,
                        col_ptrs: as_indices(col_ptrs@),
                        row_indices: as_indices(row_indices@),
                    })
                },
                Err(e) => {
                    &&& e == CholeskyError::MalformedMatrix
                    &&& !loadable_signed(
                        col_ptrs@,
                        row_indices@,
                        values_len as nat,
                        nrows as int,
                        ncols as int,
                    )
                },
            },
    {
        if nrows < 0 || ncols < 0 {
            return Err(CholeskyError::MalformedMatrix);
        }
        let offsets = match indices_from_signed(col_ptrs) {
            Ok(v) => v,
            Err(e) => {
                return Err(e);
            },
        };
        let rows = match indices_from_signed(row_indices) {
            Ok(v) => v,
            Err(e) => {
                return Err(e);
            },
        };
        SparsePattern::load(offsets, rows, values_len, nrows as usize, ncols as usize)
    }

    /// The pattern of the sum of two matrices: column by column the merge
    /// of the operands' columns, so an entry wherever either operand has
    /// one. Operands of different dimension are rejected with
    /// `DimensionMismatch`; a sum of more than `MAX_ENTRIES` entries is
    /// rejected with `AllocationFailure`.
    pub fn add(&self, other: &SparsePattern) -> (result: Result<SparsePattern, CholeskyError>)
        ensures
            match result {
                Ok(sum) => {
                    &&& self@.nrows == other@.nrows
                    &&& sum@.is_sum_of(self@, other@)
                    &&& sum@.row_indices.len() == sum_len(self@, other@, self@.ncols as int)
                    &&& sum@.row_indices.len() <= MAX_ENTRIES
                },
                Err(e) => if self@.nrows != other@.nrows {
                    e == CholeskyError::DimensionMismatch
                } else {
                    &&& e == CholeskyError::AllocationFailure
                    &&& sum_len(self@, other@, self@.ncols as int) > MAX_ENTRIES
                },
            },
    {
        proof {
            use_type_invariant(self);
            use_type_invariant(other);
        }
        if self.nrows != other.nrows {
            return Err(CholeskyError::DimensionMismatch);
        }
        let n: usize = self.nrows;
        let mut col_ptrs: Vec<u32> = Vec::new();
        col_ptrs.push(0);
        let mut rows: Vec<u32> = Vec::new();
        let mut j: usize = 0;
        while j < n
            invariant
                self@.well_formed(),
                other@.well_formed(),
                n == self@.ncols,
                n == other@.ncols,
                j <= n,
                col_ptrs@.len() == j + 1,
                col_ptrs@[0] == 0,
                col_ptrs@[j as int] as int == rows@.len(),
                rows@.len() <= MAX_ENTRIES,
                rows@.len() == sum_len(self@, other@, j as int),
                forall|c: int, d: int| 0 <= c <= d <= j ==> col_ptrs@[c] <= col_ptrs@[d],
                forall|c: int|
                    0 <= c < j ==> rows@.subrange(col_ptrs@[c] as int, col_ptrs@[c + 1] as int)
                        == merge_rows(#[trigger] self@.column(c), other@.column(c)),
                forall|t: int| 0 <= t < rows@.len() ==> (#[trigger] rows@[t] as int) < n,
            decreases n - j,
        {
            assert(self@.col_ptrs[j as int] <= self@.col_ptrs[j + 1] <= self@.col_ptrs[n as int]);
            assert(other@.col_ptrs[j as int] <= other@.col_ptrs[j + 1] <= other@.col_ptrs[n as int]);
            let a_lo: usize = self.col_ptrs[j] as usize;
            let a_hi: usize = self.col_ptrs[j + 1] as usize;
            let b_lo: usize = other.col_ptrs[j] as usize;
            let b_hi: usize = other.col_ptrs[j + 1] as usize;
            let start: usize = rows.len();
            let ghost before = rows@;
            let ghost a_col = self@.column(j as int);
            let ghost b_col = other@.column(j as int);
            let mut i: usize = a_lo;
            let mut k: usize = b_lo;
            assert(a_col.skip(0) =~= a_col);
            assert(b_col.skip(0) =~= b_col);
            assert(rows@.subrange(start as int, rows@.len() as int) + merge_rows(a_col, b_col)
                =~= merge_rows(a_col, b_col));
            while i < a_hi || k < b_hi
                invariant
                    self@.well_formed(),
                    other@.well_formed(),
                    n == self@.ncols,
                    n == other@.ncols,
                    j < n,
                    a_lo == self@.col_ptrs[j as int],
                    a_hi == self@.col_ptrs[j + 1],
                    b_lo == other@.col_ptrs[j as int],
                    b_hi == other@.col_ptrs[j + 1],
                    a_hi <= self@.row_indices.len(),
                    b_hi <= other@.row_indices.len(),
                    a_col == self@.column(j as int),
                    b_col == other@.column(j as int),
                    a_lo <= i <= a_hi,
                    b_lo <= k <= b_hi,
                    start == before.len(),
                    start <= rows@.len() <= MAX_ENTRIES,
                    start == sum_len(self@, other@, j as int),
                    rows@.subrange(0, start as int) == before,
                    rows@.subrange(start as int, rows@.len() as int) + merge_rows(
                        a_col.skip(i - a_lo),
                        b_col.skip(k - b_lo),
                    ) == merge_rows(a_col, b_col),
                    forall|t: int| 0 <= t < rows@.len() ==> (#[trigger] rows@[t] as int) < n,
                decreases (a_hi - i) + (b_hi - k),
            {
                let ghost x = a_col.skip(i - a_lo);
                let ghost y = b_col.skip(k - b_lo);
                let ghost done = rows@.subrange(start as int, rows@.len() as int);
                let take_a: bool = i < a_hi && (k >= b_hi || self.row_indices[i] <= other.row_indices[k]);
                let take_b: bool = k < b_hi && (i >= a_hi || other.row_indices[k] <= self.row_indices[i]);
                let v: u32 = if take_a {
                    self.row_indices[i]
                } else {
                    other.row_indices[k]
                };
                proof {
                    if i < a_hi {
                        assert(x[0] == self@.row_indices[i as int]);
                        assert(x.drop_first() =~= a_col.skip(i - a_lo + 1));
                    }
                    if k < b_hi {
                        assert(y[0] == other@.row_indices[k as int]);
                        assert(y.drop_first() =~= b_col.skip(k - b_lo + 1));
                    }
                    assert(merge_rows(x, y).len() >= 1);
                    assert(done.len() + merge_rows(x, y).len() == merge_rows(a_col, b_col).len());
                }
                if rows.len() >= MAX_ENTRIES {
                    proof {
                        lemma_sum_len_grows(self@, other@, j + 1, n as int);
                    }
                    return Err(CholeskyError::AllocationFailure);
                }
                rows.push(v);
                if take_a {
                    i += 1;
                }
                if take_b {
                    k += 1;
                }
                proof {
                    let next = merge_rows(a_col.skip(i - a_lo), b_col.skip(k - b_lo));
                    assert(merge_rows(x, y) =~= seq![v] + next);
                    assert(rows@.subrange(start as int, rows@.len() as int) =~= done.push(v));
                    assert(done.push(v) + next =~= done + (seq![v] + next));
                    assert(rows@.subrange(0, start as int) =~= before);
                }
            }
            proof {
                assert(a_col.skip(a_hi - a_lo).len() == 0);
                assert(rows@.subrange(start as int, rows@.len() as int) =~= merge_rows(a_col, b_col));
                assert forall|c: int| 0 <= c < j implies rows@.subrange(
                    col_ptrs@[c] as int,
                    col_ptrs@[c + 1] as int,
                ) == merge_rows(#[trigger] self@.column(c), other@.column(c)) by {
                    assert(col_ptrs@[c] <= col_ptrs@[c + 1] <= col_ptrs@[j as int]);
                    assert(rows@.subrange(col_ptrs@[c] as int, col_ptrs@[c + 1] as int)
                        =~= before.subrange(col_ptrs@[c] as int, col_ptrs@[c + 1] as int));
                }
            }
            let end: u32 = rows.len() as u32;
            let ghost ptrs_before = col_ptrs@;
            col_ptrs.push(end);
            proof {
                assert forall|c: int, d: int| 0 <= c <= d <= j + 1 implies col_ptrs@[c]
                    <= col_ptrs@[d] by {
                    if d == j + 1 && c <= j {
                        assert(ptrs_before[c] <= ptrs_before[j as int]);
                    }
                }
                assert forall|c: int| 0 <= c < j + 1 implies rows@.subrange(
                    col_ptrs@[c] as int,
                    col_ptrs@[c + 1] as int,
                ) == merge_rows(#[trigger] self@.column(c), other@.column(c)) by {
                    if c < j {
                        assert(col_ptrs@[c] == ptrs_before[c]);
                        assert(col_ptrs@[c + 1] == ptrs_before[c + 1]);
                    }
                }
            }
            j += 1;
        }
        let sum = SparsePattern { nrows: n, ncols: n, col_ptrs, row_indices: rows };
        proof {
            assert forall|c: int| 0 <= c < sum@.ncols implies #[trigger] sum@.column(c) == merge_rows(
                self@.column(c),
                other@.column(c),
            ) by {}
        }
        Ok(sum)
    }

    /// The dimension `n` of the `n`-by-`n` matrix.
    pub fn dimension(&self) -> (n: usize)
        ensures
            n == self@.nrows,
            n == self@.ncols,
            self@.well_formed(),
    {
        proof {
            use_type_invariant(self);
        }
        self.nrows
    }

    /// The number of stored entries.
    pub fn nnz(&self) -> (count: usize)
        ensures
            count == self@.row_indices.len(),
    {
        self.row_indices.len()
    }

    /// The column offsets, one per column and one past the end.
    pub fn col_ptrs(&self) -> (offsets: &Vec<u32>)
        ensures
            offsets@ == self@.col_ptrs,
    {
        &self.col_ptrs
    }

    /// The row index of every stored entry, column by column.
    pub fn row_indices(&self) -> (rows: &Vec<u32>)
        ensures
            rows@ == self@.row_indices,
    {
        &self.row_indices
    }
}

proof fn lemma_sum_len_grows(a: PatternView, b: PatternView, j: int, m: int)
    requires
        0 <= j <= m,
    ensures
        sum_len(a, b, j) <= sum_len(a, b, m),
    decreases m - j,
{
    if j < m {
        lemma_sum_len_grows(a, b, j, m - 1);
    }
}

/// Merging does not depend on the order of its operands.
pub proof fn lemma_merge_commutes(a: Seq<u32>, b: Seq<u32>)
    ensures
        merge_rows(a, b) == merge_rows(b, a),
    decreases a.len() + b.len(),
{
    if a.len() == 0 {
        if b.len() == 0 {
            assert(a =~= b);
        }
    } else if b.len() == 0 {
    } else if a[0] < b[0] {
        lemma_merge_commutes(a.drop_first(), b);
    } else if a[0] == b[0] {
        lemma_merge_commutes(a.drop_first(), b.drop_first());
    } else {
        lemma_merge_commutes(a, b.drop_first());
    }
}

proof fn lemma_head_or_tail(a: Seq<u32>, y: u32)
    requires
        a.len() > 0,
    ensures
        a.contains(y) <==> (y == a[0] || a.drop_first().contains(y)),
{
    if a.contains(y) {
        let i = choose|i: int| 0 <= i < a.len() && a[i] == y;
        if i > 0 {
            assert(a.drop_first()[i - 1] == y);
        }
    }
    if a.drop_first().contains(y) {
        let i = choose|i: int| 0 <= i < a.drop_first().len() && a.drop_first()[i] == y;
        assert(a[i + 1] == y);
    }
    if y == a[0] {
        assert(a[0] == y);
    }
}

/// A merge holds a row exactly when one of its operands holds it.
pub proof fn lemma_merge_holds_both(a: Seq<u32>, b: Seq<u32>, y: u32)
    ensures
        merge_rows(a, b).contains(y) <==> (a.contains(y) || b.contains(y)),
    decreases a.len() + b.len(),
{
    if a.len() == 0 {
    } else if b.len() == 0 {
    } else {
        let m = merge_rows(a, b);
        lemma_head_or_tail(a, y);
        lemma_head_or_tail(b, y);
        if a[0] < b[0] {
            let rest = merge_rows(a.drop_first(), b);
            assert(m == seq![a[0]] + rest);
            assert(m[0] == a[0] && m.drop_first() =~= rest);
            lemma_merge_holds_both(a.drop_first(), b, y);
        } else if a[0] == b[0] {
            let rest = merge_rows(a.drop_first(), b.drop_first());
            assert(m == seq![a[0]] + rest);
            assert(m[0] == a[0] && m.drop_first() =~= rest);
            lemma_merge_holds_both(a.drop_first(), b.drop_first(), y);
        } else {
            let rest = merge_rows(a, b.drop_first());
            assert(m == seq![b[0]] + rest);
            assert(m[0] == b[0] && m.drop_first() =~= rest);
            lemma_merge_holds_both(a, b.drop_first(), y);
        }
        lemma_head_or_tail(m, y);
    }
}

/// Addition of patterns is commutative: the sum of `a` and `b` is the sum
/// of `b` and `a`.
pub proof fn lemma_sum_commutes(a: PatternView, b: PatternView, sum: PatternView)
    requires
        a.nrows == b.nrows,
        a.ncols == b.ncols,
        sum.is_sum_of(a, b),
    ensures
        sum.is_sum_of(b, a),
{
    assert forall|j: int| 0 <= j < sum.ncols implies #[trigger] sum.column(j) == merge_rows(
        b.column(j),
        a.column(j),
    ) by {
        lemma_merge_commutes(a.column(j), b.column(j));
    }
}

/// A sum has an entry exactly where one of its operands has one.
pub proof fn lemma_sum_entries(a: PatternView, b: PatternView, sum: PatternView, i: u32, j: int)
    requires
        sum.is_sum_of(a, b),
        0 <= j < sum.ncols,
    ensures
        sum.has_entry(i, j) == (a.has_entry(i, j) || b.has_entry(i, j)),
{
    assert(sum.column(j) == merge_rows(a.column(j), b.column(j)));
    lemma_merge_holds_both(a.column(j), b.column(j), i);
}

proof fn lemma_offsets_agree(p: PatternView, q: PatternView, j: int)
    requires
        p.well_formed(),
        q.well_formed(),
        p.ncols == q.ncols,
        forall|c: int| 0 <= c < p.ncols ==> #[trigger] p.column(c) == q.column(c),
        0 <= j <= p.ncols,
    ensures
        p.col_ptrs[j] == q.col_ptrs[j],
    decreases j,
{
    if j > 0 {
        lemma_offsets_agree(p, q, j - 1);
        assert(p.col_ptrs[j - 1] <= p.col_ptrs[j] <= p.col_ptrs[p.ncols as int]);
        assert(q.col_ptrs[j - 1] <= q.col_ptrs[j] <= q.col_ptrs[q.ncols as int]);
        assert(p.column(j - 1).len() == p.col_ptrs[j] - p.col_ptrs[j - 1]);
        assert(q.column(j - 1).len() == q.col_ptrs[j] - q.col_ptrs[j - 1]);
        assert(p.column(j - 1) == q.column(j - 1));
    }
}

proof fn lemma_column_of_entry(p: PatternView, k: int, hi: int) -> (j: int)
    requires
        p.well_formed(),
        0 <= k,
        0 < hi <= p.ncols,
        k < p.col_ptrs[hi],
    ensures
        0 <= j < hi,
        p.col_ptrs[j] <= k < p.col_ptrs[j + 1],
    decreases hi,
{
    if p.col_ptrs[hi - 1] <= k {
        hi - 1
    } else {
        lemma_column_of_entry(p, k, hi - 1)
    }
}

/// A well-formed pattern is determined by its shape and its columns.
pub proof fn lemma_columns_determine_pattern(p: PatternView, q: PatternView)
    requires
        p.well_formed(),
        q.well_formed(),
        p.ncols == q.ncols,
        forall|c: int| 0 <= c < p.ncols ==> #[trigger] p.column(c) == q.column(c),
    ensures
        p == q,
{
    assert forall|j: int| 0 <= j <= p.ncols implies p.col_ptrs[j] == q.col_ptrs[j] by {
        lemma_offsets_agree(p, q, j);
    }
    assert(p.col_ptrs =~= q.col_ptrs);
    assert(p.row_indices.len() == q.row_indices.len());
    assert forall|k: int| 0 <= k < p.row_indices.len() implies p.row_indices[k] == q.row_indices[k] by {
        let j = lemma_column_of_entry(p, k, p.ncols as int);
        assert(p.col_ptrs[j + 1] <= p.col_ptrs[p.ncols as int]);
        assert(p.column(j) == q.column(j));
        assert(p.column(j)[k - p.col_ptrs[j]] == p.row_indices[k]);
        assert(q.column(j)[k - q.col_ptrs[j]] == q.row_indices[k]);
    }
    assert(p.row_indices =~= q.row_indices);
}

/// The two orders of addition give the same pattern, array for array.
pub proof fn lemma_sums_agree(a: PatternView, b: PatternView, ab: PatternView, ba: PatternView)
    requires
        a.nrows == b.nrows,
        a.ncols == b.ncols,
        ab.is_sum_of(a, b),
        ba.is_sum_of(b, a),
    ensures
        ab == ba,
{
    assert forall|j: int| 0 <= j < ab.ncols implies #[trigger] ab.column(j) == ba.column(j) by {
        assert(ab.column(j) == merge_rows(a.column(j), b.column(j)));
        assert(ba.column(j) == merge_rows(b.column(j), a.column(j)));
        lemma_merge_commutes(a.column(j), b.column(j));
    }
    lemma_columns_determine_pattern(ab, ba);
}

} // verus!
