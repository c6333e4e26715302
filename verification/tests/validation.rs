use health_factor::{
    check_borrow_factor, check_decimals, check_liq_threshold, check_price, CollateralInput,
    DebtInput, HfError, MAX_BPS, MAX_DECIMALS, MIN_BORROW_FACTOR_BPS,
};

fn sound_collateral() -> CollateralInput {
    CollateralInput {
        amount: 1000,
        decimals: 6,
        price_e8: 200_000_000,
        liq_threshold_bps: 8000,
        borrow_factor_bps: 0,
    }
}

#[test]
fn limits_are_the_documented_ones() {
    assert_eq!(MAX_DECIMALS, 18);
    assert_eq!(MAX_BPS, 10_000);
    assert_eq!(MIN_BORROW_FACTOR_BPS, 1_000);
}

#[test]
fn price_must_be_positive() {
    assert_eq!(check_price(1), Ok(()));
    assert_eq!(check_price(i64::MAX), Ok(()));
    assert_eq!(check_price(0), Err(HfError::InvalidPrice));
    assert_eq!(check_price(-1), Err(HfError::InvalidPrice));
    assert_eq!(check_price(i64::MIN), Err(HfError::InvalidPrice));
}

#[test]
fn decimals_up_to_eighteen() {
    assert_eq!(check_decimals(0), Ok(()));
    assert_eq!(check_decimals(18), Ok(()));
    assert_eq!(check_decimals(19), Err(HfError::InvalidDecimals));
    assert_eq!(check_decimals(u8::MAX), Err(HfError::InvalidDecimals));
}

#[test]
fn liq_threshold_up_to_ten_thousand() {
    assert_eq!(check_liq_threshold(0), Ok(()));
    assert_eq!(check_liq_threshold(10_000), Ok(()));
    assert_eq!(check_liq_threshold(10_001), Err(HfError::InvalidLiqThreshold));
    assert_eq!(check_liq_threshold(u16::MAX), Err(HfError::InvalidLiqThreshold));
}

#[test]
fn borrow_factor_zero_or_in_range() {
    assert_eq!(check_borrow_factor(0), Ok(()));
    assert_eq!(check_borrow_factor(1_000), Ok(()));
    assert_eq!(check_borrow_factor(5_000), Ok(()));
    assert_eq!(check_borrow_factor(10_000), Ok(()));
    assert_eq!(check_borrow_factor(1), Err(HfError::InvalidBorrowFactor));
    assert_eq!(check_borrow_factor(999), Err(HfError::InvalidBorrowFactor));
    assert_eq!(check_borrow_factor(10_001), Err(HfError::InvalidBorrowFactor));
    assert_eq!(check_borrow_factor(u16::MAX), Err(HfError::InvalidBorrowFactor));
}

#[test]
fn sound_collateral_validates() {
    assert_eq!(sound_collateral().validate(), Ok(()));
    let edge = CollateralInput {
        amount: 0,
        decimals: 18,
        price_e8: 1,
        liq_threshold_bps: 10_000,
        borrow_factor_bps: 10_000,
    };
    assert_eq!(edge.validate(), Ok(()));
}

#[test]
fn collateral_reports_each_failed_check() {
    let c = CollateralInput { price_e8: 0, ..sound_collateral() };
    assert_eq!(c.validate(), Err(HfError::InvalidPrice));
    let c = CollateralInput { decimals: 19, ..sound_collateral() };
    assert_eq!(c.validate(), Err(HfError::InvalidDecimals));
    let c = CollateralInput { liq_threshold_bps: 10_001, ..sound_collateral() };
    assert_eq!(c.validate(), Err(HfError::InvalidLiqThreshold));
    let c = CollateralInput { borrow_factor_bps: 999, ..sound_collateral() };
    assert_eq!(c.validate(), Err(HfError::InvalidBorrowFactor));
}

#[test]
fn collateral_checks_run_in_order() {
    let all_bad = CollateralInput {
        amount: 1,
        decimals: 200,
        price_e8: -5,
        liq_threshold_bps: 20_000,
        borrow_factor_bps: 5,
    };
    assert_eq!(all_bad.validate(), Err(HfError::InvalidPrice));
    let c = CollateralInput { price_e8: 5, ..all_bad };
    assert_eq!(c.validate(), Err(HfError::InvalidDecimals));
    let c = CollateralInput { decimals: 2, ..c };
    assert_eq!(c.validate(), Err(HfError::InvalidLiqThreshold));
    let c = CollateralInput { liq_threshold_bps: 2_000, ..c };
    assert_eq!(c.validate(), Err(HfError::InvalidBorrowFactor));
    let c = CollateralInput { borrow_factor_bps: 0, ..c };
    assert_eq!(c.validate(), Ok(()));
}

#[test]
fn debt_validation() {
    let d = DebtInput { amount: 500, decimals: 6, price_e8: 100_000_000 };
    assert_eq!(d.validate(), Ok(()));
    assert_eq!(DebtInput { price_e8: 0, ..d }.validate(), Err(HfError::InvalidPrice));
    assert_eq!(DebtInput { decimals: 19, ..d }.validate(), Err(HfError::InvalidDecimals));
    assert_eq!(
        DebtInput { price_e8: -1, decimals: 19, ..d }.validate(),
        Err(HfError::InvalidPrice)
    );
}
