//! Process-wide policy constants of the summarizer.
//!
//! Binary64 constants are carried as bit patterns, like every scalar of this
//! crate.

use vstd::prelude::*;

verus! {

/// The requested cluster count is capped at this many clusters per dimension.
pub const MAX_NUMBER_PER_DIMENSION: usize = 5;

/// Bit pattern of the binary64 value 0.1: the default lower percentile
/// fraction.
pub const LOWER_FRACTION: u64 = 0x3fb9_9999_9999_999a;

/// Bit pattern of the binary64 value 0.9: the default upper percentile
/// fraction.
pub const UPPER_FRACTION: u64 = 0x3fec_cccc_cccc_cccd;

/// Bit pattern of the binary64 value 0.5, against which both fractions are
/// validated.
pub const HALF: u64 = 0x3fe0_0000_0000_0000;

/// Bit pattern of the binary64 value 2.0, by which the total weight is
/// divided to obtain the median target.
pub const TWO: u64 = 0x4000_0000_0000_0000;

} // verus!
