//! The ways in which an operation can refuse its operands.

use vstd::prelude::*;

verus! {

/// Why the kernel or the engine gave no result.
#[derive(Clone, Copy, Debug, PartialEq, Eq, Structural)]
pub enum MatrixError {
    /// The operands' shapes do not fit the operation.
    DimensionMismatch,
    /// The mean and standard deviation describe no normal distribution.
    InvalidDistributionParameters,
}

} // verus!
