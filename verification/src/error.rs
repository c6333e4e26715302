//! The ways in which a health-factor computation fails.

use vstd::prelude::*;

verus! {

/// Why a computation was abandoned. A failure is total: no partial result is
/// ever returned alongside one of these.
#[derive(Clone, Copy, Debug, PartialEq, Eq, Structural)]
pub enum HfError {
    /// An arithmetic step left the representable range, or a divisor was zero.
    MathOverflow,
    /// A price was zero or negative.
    InvalidPrice,
    /// A decimals field was above 18.
    InvalidDecimals,
    /// A liquidation threshold was above 10000 basis points.
    InvalidLiqThreshold,
    /// A borrow factor was neither zero nor within 1000 to 10000 basis points.
    InvalidBorrowFactor,
}

} // verus!
