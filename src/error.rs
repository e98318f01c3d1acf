use vstd::prelude::*;

verus! {

/// Why a filter operation was refused.
#[derive(Debug, Clone, Copy, PartialEq, Eq, Structural)]
pub enum KfError {
    /// The innovation covariance could not be inverted.
    InverseError,
    /// A matrix or vector does not have the shape the operation needs.
    ShapeMismatch,
}

impl KfError {
    /// A short human-readable description of the error.
    pub fn message(&self) -> (r: &'static str)
        ensures
            *self == KfError::InverseError ==> r@ == "Matrix inversion failed"@,
            *self == KfError::ShapeMismatch ==> r@ == "Matrix shape mismatch"@,
    {
        match self {
            KfError::InverseError => "Matrix inversion failed",
            KfError::ShapeMismatch => "Matrix shape mismatch",
        }
    }
}

} // verus!
