//! Sparse Cholesky sampling core: compressed-column pattern handling and the
//! structure-only (symbolic) phase of a supernodal Cholesky factorization.
//!
//! The numeric phase works on floating-point values and lives outside this
//! library; everything here is integer structure.

pub mod error;
pub mod etree;
pub mod pattern;
pub mod symbolic;
