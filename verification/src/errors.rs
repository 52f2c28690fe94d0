//! Validation errors of the statistics engine.
//!
//! Every detectable error is a precondition violation on the input batch or
//! on the percentile fractions.  The checks run eagerly, in a fixed order,
//! and the first violated check aborts the whole call; no partial result is
//! ever produced.

use vstd::prelude::*;

verus! {

/// The first violated precondition of a statistics computation.
#[derive(Clone, Copy, Debug, PartialEq, Eq, Structural)]
pub enum SummaryError {
    /// The batch holds no point at all.
    EmptyBatch,
    /// The lower percentile fraction is not below one half.
    InvalidLowerFraction,
    /// The upper percentile fraction is not above one half.
    InvalidUpperFraction,
    /// The requested dimension count is zero.
    ZeroDimensions,
    /// Some point carries a negative (or NaN) weight.
    NegativeWeight,
    /// Some coordinate is NaN or infinite.
    NonFiniteCoordinate,
    /// The total weight of the batch is not strictly positive.
    NonPositiveTotalWeight,
    /// The total weight of the batch is not finite.
    NonFiniteTotalWeight,
}

impl SummaryError {
    /// A short description of the violated precondition.
    pub fn message(&self) -> (r: &'static str)
        ensures
            self is EmptyBatch ==> r@ == "cannot be empty list"@,
            self is InvalidLowerFraction ==> r@ == " has to be less than half"@,
            self is InvalidUpperFraction ==> r@ == "has to be larger than half"@,
            self is ZeroDimensions ==> r@ == " cannot have 0 dimensions"@,
            self is NegativeWeight ==> r@ == "point weights have to be non-negative"@,
            self is NonFiniteCoordinate ==> r@ == " cannot have NaN or infinite values"@,
            self is NonPositiveTotalWeight ==> r@ == "weights cannot be all zero"@,
            self is NonFiniteTotalWeight ==> r@ == " cannot have infinite weights"@,
    {
        match self {
            SummaryError::EmptyBatch => "cannot be empty list",
            SummaryError::InvalidLowerFraction => " has to be less than half",
            SummaryError::InvalidUpperFraction => "has to be larger than half",
            SummaryError::ZeroDimensions => " cannot have 0 dimensions",
            SummaryError::NegativeWeight => "point weights have to be non-negative",
            SummaryError::NonFiniteCoordinate => " cannot have NaN or infinite values",
            SummaryError::NonPositiveTotalWeight => "weights cannot be all zero",
            SummaryError::NonFiniteTotalWeight => " cannot have infinite weights",
        }
    }
}

} // verus!
