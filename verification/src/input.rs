//! The positions that a computation consumes, and the checks that each must
//! pass before any arithmetic is done on it.

use crate::error::HfError;
use vstd::prelude::*;

verus! {

/// The largest accepted `decimals`.
pub const MAX_DECIMALS: u8 = 18;

/// The largest accepted liquidation threshold or borrow factor: 100%.
pub const MAX_BPS: u16 = 10_000;

/// The smallest accepted nonzero borrow factor: 10%.
pub const MIN_BORROW_FACTOR_BPS: u16 = 1_000;

/// One collateral position.
#[derive(Clone, Copy, Debug, PartialEq, Eq)]
pub struct CollateralInput {
    /// Raw token quantity.
    pub amount: u64,
    /// Number of fractional digits that `amount` carries, at most 18.
    pub decimals: u8,
    /// Oracle price, scaled by `PRICE_SCALE`; strictly positive.
    pub price_e8: i64,
    /// Share of the position's worth that counts toward the health factor,
    /// in basis points, at most 10000.
    pub liq_threshold_bps: u16,
    /// Derating divisor in basis points: 0 for none, else 1000 to 10000.
    pub borrow_factor_bps: u16,
}

/// One debt position.
#[derive(Clone, Copy, Debug, PartialEq, Eq)]
pub struct DebtInput {
    /// Raw token quantity.
    pub amount: u64,
    /// Number of fractional digits that `amount` carries, at most 18.
    pub decimals: u8,
    /// Oracle price, scaled by `PRICE_SCALE`; strictly positive.
    pub price_e8: i64,
}

/// Everything one computation consumes: the collateral positions and the
/// debt positions, each in the order in which they are to be processed.
#[derive(Clone, Debug)]
pub struct ComputeArgs {
    pub collaterals: Vec<CollateralInput>,
    pub debts: Vec<DebtInput>,
}

/// A price is acceptable when it is strictly positive.
pub open spec fn price_ok(price_e8: i64) -> bool {
    price_e8 > 0
}

/// A decimals count is acceptable up to 18.
pub open spec fn decimals_ok(decimals: u8) -> bool {
    decimals <= MAX_DECIMALS
}

/// A liquidation threshold is acceptable up to 10000 basis points.
pub open spec fn liq_threshold_ok(bps: u16) -> bool {
    bps <= MAX_BPS
}

/// A borrow factor is acceptable when it is zero or within 1000 to 10000
/// basis points.
pub open spec fn borrow_factor_ok(bps: u16) -> bool {
    bps == 0 || (MIN_BORROW_FACTOR_BPS <= bps <= MAX_BPS)
}

/// Rejects a price that is zero or negative.
pub fn check_price(price_e8: i64) -> (r: Result<(), HfError>)
    ensures
        price_ok(price_e8) ==> r == Ok::<(), HfError>(()),
        !price_ok(price_e8) ==> r == Err::<(), HfError>(HfError::InvalidPrice),
{
    if price_e8 > 0 {
        Ok(())
    } else {
        Err(HfError::InvalidPrice)
    }
}

/// Rejects a decimals count above 18.
pub fn check_decimals(decimals: u8) -> (r: Result<(), HfError>)
    ensures
        decimals_ok(decimals) ==> r == Ok::<(), HfError>(()),
        !decimals_ok(decimals) ==> r == Err::<(), HfError>(HfError::InvalidDecimals),
{
    if decimals <= MAX_DECIMALS {
        Ok(())
    } else {
        Err(HfError::InvalidDecimals)
    }
}

/// Rejects a liquidation threshold above 10000 basis points.
pub fn check_liq_threshold(bps: u16) -> (r: Result<(), HfError>)
    ensures
        liq_threshold_ok(bps) ==> r == Ok::<(), HfError>(()),
        !liq_threshold_ok(bps) ==> r == Err::<(), HfError>(HfError::InvalidLiqThreshold),
{
    if bps <= MAX_BPS {
        Ok(())
    } else {
        Err(HfError::InvalidLiqThreshold)
    }
}

/// Rejects a borrow factor that is neither zero nor within 1000 to 10000
/// basis points.
pub fn check_borrow_factor(bps: u16) -> (r: Result<(), HfError>)
    ensures
        borrow_factor_ok(bps) ==> r == Ok::<(), HfError>(()),
        !borrow_factor_ok(bps) ==> r == Err::<(), HfError>(HfError::InvalidBorrowFactor),
{
    if bps == 0 || (bps >= MIN_BORROW_FACTOR_BPS && bps <= MAX_BPS) {
        Ok(())
    } else {
        Err(HfError::InvalidBorrowFactor)
    }
}

impl CollateralInput {
    /// The first check that this position fails, in the order price,
    /// decimals, liquidation threshold, borrow factor; `None` when it passes
    /// them all.
    pub open spec fn validation_error(&self) -> Option<HfError> {
        if !price_ok(self.price_e8) {
            Some(HfError::InvalidPrice)
        } else if !decimals_ok(self.decimals) {
            Some(HfError::InvalidDecimals)
        } else if !liq_threshold_ok(self.liq_threshold_bps) {
            Some(HfError::InvalidLiqThreshold)
        } else if !borrow_factor_ok(self.borrow_factor_bps) {
            Some(HfError::InvalidBorrowFactor)
        } else {
            None
        }
    }

    /// Whether this position passes every check.
    pub open spec fn is_valid(&self) -> bool {
        self.validation_error() is None
    }

    /// Checks the position, reporting the first check it fails.
    pub fn validate(&self) -> (r: Result<(), HfError>)
        ensures
            r == match self.validation_error() {
                Some(e) => Err::<(), HfError>(e),
                None => Ok::<(), HfError>(()),
            },
    {
        match check_price(self.price_e8) {
            Err(e) => { return Err(e); },
            Ok(_) => {},
        }
        match check_decimals(self.decimals) {
            Err(e) => { return Err(e); },
            Ok(_) => {},
        }
        match check_liq_threshold(self.liq_threshold_bps) {
            Err(e) => { return Err(e); },
            Ok(_) => {},
        }
        check_borrow_factor(self.borrow_factor_bps)
    }
}

impl DebtInput {
    /// The first check that this position fails, in the order price,
    /// decimals; `None` when it passes both.
    pub open spec fn validation_error(&self) -> Option<HfError> {
        if !price_ok(self.price_e8) {
            Some(HfError::InvalidPrice)
        } else if !decimals_ok(self.decimals) {
            Some(HfError::InvalidDecimals)
        } else {
            None
        }
    }

    /// Whether this position passes every check.
    pub open spec fn is_valid(&self) -> bool {
        self.validation_error() is None
    }

    /// Checks the position, reporting the first check it fails.
    pub fn validate(&self) -> (r: Result<(), HfError>)
        ensures
            r == match self.validation_error() {
                Some(e) => Err::<(), HfError>(e),
                None => Ok::<(), HfError>(()),
            },
    {
        match check_price(self.price_e8) {
            Err(e) => { return Err(e); },
            Ok(_) => {},
        }
        check_decimals(self.decimals)
    }
}

} // verus!
