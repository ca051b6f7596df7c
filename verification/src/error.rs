//! The failure taxonomy shared by every phase of the pipeline.

use vstd::prelude::*;

verus! {

/// Why an operation of the pipeline failed.
#[derive(Clone, Copy, Debug, PartialEq, Eq, Structural)]
pub enum CholeskyError {
    /// The compressed-column arrays violate their structural invariants.
    MalformedMatrix,
    /// Two matrices, or a matrix and a vector, have incompatible sizes.
    DimensionMismatch,
    /// The elimination tree of a pattern is inconsistent.
    SingularPattern,
    /// A pivot of the numeric factorization was not positive.
    NotPositiveDefinite,
    /// Scratch or result memory could not be obtained, or an index would
    /// not fit the index type.
    AllocationFailure,
}

impl CholeskyError {
    /// A short human-readable description of the failure.
    pub fn message(&self) -> (text: &'static str)
        ensures
            text@ == Self::message_of(*self),
    {
        match self {
            CholeskyError::MalformedMatrix => "malformed compressed-column matrix",
            CholeskyError::DimensionMismatch => "dimension mismatch",
            CholeskyError::SingularPattern => "inconsistent elimination tree",
            CholeskyError::NotPositiveDefinite => "matrix is not positive definite",
            CholeskyError::AllocationFailure => "allocation failure",
        }
    }

    /// The text that `message` returns for each failure.
    pub open spec fn message_of(e: CholeskyError) -> Seq<char> {
        match e {
            CholeskyError::MalformedMatrix => "malformed compressed-column matrix"@,
            CholeskyError::DimensionMismatch => "dimension mismatch"@,
            CholeskyError::SingularPattern => "inconsistent elimination tree"@,
            CholeskyError::NotPositiveDefinite => "matrix is not positive definite"@,
            CholeskyError::AllocationFailure => "allocation failure"@,
        }
    }
}

} // verus!
