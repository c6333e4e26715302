use health_factor::{
    collateral_value, compute_hf_internal, debt_value, resolve_health_factor,
    total_collateral_value, total_debt_value, CollateralInput, ComputeArgs, DebtInput, HfError,
    HF_UNBOUNDED, ONE_Q64_64,
};

fn collateral(amount: u64, borrow_factor_bps: u16) -> CollateralInput {
    CollateralInput {
        amount,
        decimals: 6,
        price_e8: 200_000_000,
        liq_threshold_bps: 8000,
        borrow_factor_bps,
    }
}

fn debt(amount: u64) -> DebtInput {
    DebtInput { amount, decimals: 6, price_e8: 100_000_000 }
}

/// A position of `amount` whole tokens at a price of exactly 1.0, counted in
/// full: its value is `amount` in Q64.64.
fn whole(amount: u64) -> CollateralInput {
    CollateralInput {
        amount,
        decimals: 0,
        price_e8: 100_000,
        liq_threshold_bps: 10_000,
        borrow_factor_bps: 0,
    }
}

fn whole_debt(amount: u64) -> DebtInput {
    DebtInput { amount, decimals: 0, price_e8: 100_000 }
}

fn args(collaterals: Vec<CollateralInput>, debts: Vec<DebtInput>) -> ComputeArgs {
    ComputeArgs { collaterals, debts }
}

#[test]
fn unbounded_is_the_largest_value() {
    assert_eq!(HF_UNBOUNDED, u128::MAX);
}

#[test]
fn collateral_value_of_the_reference_position() {
    assert_eq!(collateral_value(&collateral(1000, 0)), Ok(29514790517935281598));
}

#[test]
fn collateral_value_with_borrow_factor() {
    assert_eq!(collateral_value(&collateral(1000, 1_000)), Ok(295147905179352816075));
    assert_eq!(collateral_value(&collateral(1000, 5_000)), Ok(59029581035870563196));
    assert_eq!(collateral_value(&collateral(1000, 10_000)), Ok(29514790517935281598));
}

#[test]
fn collateral_value_of_whole_tokens() {
    assert_eq!(collateral_value(&whole(3)), Ok(3 * ONE_Q64_64));
    assert_eq!(collateral_value(&whole(0)), Ok(0));
    let third = CollateralInput {
        amount: 1_000_000_000,
        decimals: 9,
        price_e8: 5_000_000,
        liq_threshold_bps: 7_500,
        borrow_factor_bps: 2_500,
    };
    assert_eq!(collateral_value(&third), Ok(2767011611056432742400));
    let unweighted = CollateralInput { borrow_factor_bps: 0, ..third };
    assert_eq!(collateral_value(&unweighted), Ok(691752902764108185600));
}

#[test]
fn collateral_value_rejects_invalid_positions() {
    let c = CollateralInput { price_e8: 0, ..collateral(1000, 0) };
    assert_eq!(collateral_value(&c), Err(HfError::InvalidPrice));
    let c = CollateralInput { decimals: 19, ..collateral(1000, 0) };
    assert_eq!(collateral_value(&c), Err(HfError::InvalidDecimals));
    let c = CollateralInput { liq_threshold_bps: 10_001, ..collateral(1000, 0) };
    assert_eq!(collateral_value(&c), Err(HfError::InvalidLiqThreshold));
    let c = CollateralInput { borrow_factor_bps: 10_001, ..collateral(1000, 0) };
    assert_eq!(collateral_value(&c), Err(HfError::InvalidBorrowFactor));
}

#[test]
fn collateral_value_overflows_on_a_huge_gross_value() {
    let c = CollateralInput {
        amount: u64::MAX,
        decimals: 0,
        price_e8: i64::MAX,
        liq_threshold_bps: 10_000,
        borrow_factor_bps: 0,
    };
    assert_eq!(collateral_value(&c), Err(HfError::MathOverflow));
    // The gross value is judged before the threshold scales it down.
    let c = CollateralInput { liq_threshold_bps: 0, ..c };
    assert_eq!(collateral_value(&c), Err(HfError::MathOverflow));
}

#[test]
fn collateral_value_overflows_when_the_borrow_factor_inflates_it() {
    assert_eq!(
        collateral_value(&whole(u64::MAX)),
        Ok(340282366920938463444927863358058659840)
    );
    let c = CollateralInput { borrow_factor_bps: 1_000, ..whole(u64::MAX) };
    assert_eq!(collateral_value(&c), Err(HfError::MathOverflow));
}

#[test]
fn debt_value_of_the_reference_position() {
    assert_eq!(debt_value(&debt(500)), Ok(9223372036854775000));
    assert_eq!(debt_value(&debt(0)), Ok(0));
    assert_eq!(debt_value(&whole_debt(7)), Ok(7 * ONE_Q64_64));
    assert_eq!(debt_value(&DebtInput { amount: 1, decimals: 18, price_e8: 1 }), Ok(0));
}

#[test]
fn debt_value_failures() {
    assert_eq!(debt_value(&DebtInput { price_e8: -3, ..debt(500) }), Err(HfError::InvalidPrice));
    assert_eq!(debt_value(&DebtInput { decimals: 40, ..debt(500) }), Err(HfError::InvalidDecimals));
    let huge = DebtInput { amount: u64::MAX, decimals: 0, price_e8: i64::MAX };
    assert_eq!(debt_value(&huge), Err(HfError::MathOverflow));
}

#[test]
fn totals_add_up_in_order() {
    assert_eq!(total_collateral_value(&vec![]), Ok(0));
    assert_eq!(total_debt_value(&vec![]), Ok(0));
    assert_eq!(
        total_collateral_value(&vec![whole(1), whole(2), whole(3)]),
        Ok(6 * ONE_Q64_64)
    );
    assert_eq!(total_debt_value(&vec![whole_debt(4), whole_debt(5)]), Ok(9 * ONE_Q64_64));
    assert_eq!(
        total_collateral_value(&vec![collateral(1000, 0), collateral(1000, 5_000)]),
        Ok(29514790517935281598 + 59029581035870563196)
    );
}

#[test]
fn total_overflow_boundary() {
    // 2^127 + (2^127 - 2^64) is the largest sum of two such values that fits.
    assert_eq!(
        total_collateral_value(&vec![whole(1 << 63), whole((1 << 63) - 1)]),
        Ok(u128::MAX - (ONE_Q64_64 - 1))
    );
    // 2^127 + 2^127 is one step beyond it.
    assert_eq!(
        total_collateral_value(&vec![whole(1 << 63), whole(1 << 63)]),
        Err(HfError::MathOverflow)
    );
    assert_eq!(
        total_debt_value(&vec![whole_debt(1 << 63), whole_debt((1 << 63) - 1)]),
        Ok(u128::MAX - (ONE_Q64_64 - 1))
    );
    assert_eq!(
        total_debt_value(&vec![whole_debt(1 << 63), whole_debt(1 << 63)]),
        Err(HfError::MathOverflow)
    );
}

#[test]
fn resolve_divides_collateral_by_debt() {
    assert_eq!(resolve_health_factor(3 * ONE_Q64_64, 2 * ONE_Q64_64), Ok(3 * ONE_Q64_64 / 2));
    assert_eq!(resolve_health_factor(0, ONE_Q64_64), Ok(0));
    assert_eq!(resolve_health_factor(ONE_Q64_64, ONE_Q64_64), Ok(ONE_Q64_64));
}

#[test]
fn resolve_without_debt_is_unbounded() {
    assert_eq!(resolve_health_factor(0, 0), Ok(u128::MAX));
    assert_eq!(resolve_health_factor(12345, 0), Ok(u128::MAX));
    assert_eq!(resolve_health_factor(u128::MAX, 0), Ok(u128::MAX));
}

#[test]
fn resolve_overflows_on_a_ratio_beyond_64_integer_bits() {
    assert_eq!(resolve_health_factor(ONE_Q64_64, 1), Err(HfError::MathOverflow));
    assert_eq!(resolve_health_factor(ONE_Q64_64 - 1, 1), Ok((ONE_Q64_64 - 1) << 64));
}

#[test]
fn health_factor_of_one_collateral_and_one_debt() {
    let hf = compute_hf_internal(&args(vec![collateral(1000, 0)], vec![debt(500)]));
    assert_eq!(hf, Ok(59029581035870568367));
    // 3.2 in Q64.64, up to the rounding of the intermediate steps.
    let exact = 32 * ONE_Q64_64 / 10;
    let got = hf.unwrap();
    assert!(got.abs_diff(exact) < 1 << 16);
}

#[test]
fn health_factor_with_empty_debts_is_unbounded() {
    let hf = compute_hf_internal(&args(vec![collateral(1000, 0)], vec![]));
    assert_eq!(hf, Ok(u128::MAX));
    let hf = compute_hf_internal(&args(vec![collateral(u64::MAX, 10_000)], vec![]));
    assert_eq!(hf, Ok(u128::MAX));
    let hf = compute_hf_internal(&args(vec![], vec![]));
    assert_eq!(hf, Ok(u128::MAX));
}

#[test]
fn health_factor_with_zero_amount_debts_is_unbounded() {
    let hf = compute_hf_internal(&args(vec![collateral(1000, 0)], vec![debt(0), debt(0), debt(0)]));
    assert_eq!(hf, Ok(u128::MAX));
    // A debt too small to register in Q64.64 counts as none.
    let dust = DebtInput { amount: 1, decimals: 18, price_e8: 1 };
    let hf = compute_hf_internal(&args(vec![collateral(1000, 0)], vec![dust]));
    assert_eq!(hf, Ok(u128::MAX));
}

#[test]
fn health_factor_without_collateral_is_zero() {
    let hf = compute_hf_internal(&args(vec![], vec![debt(500)]));
    assert_eq!(hf, Ok(0));
}

#[test]
fn health_factor_of_several_positions() {
    let hf = compute_hf_internal(&args(
        vec![whole(3), whole(5)],
        vec![whole_debt(1), whole_debt(3)],
    ));
    assert_eq!(hf, Ok(2 * ONE_Q64_64));
}

#[test]
fn health_factor_ratio_overflow() {
    // 2^63 whole tokens against a debt of one unit of the last place.
    let dust = DebtInput { amount: 1, decimals: 0, price_e8: 1 };
    assert_eq!(debt_value(&dust), Ok(184467440737095));
    let hf = compute_hf_internal(&args(vec![whole(1 << 63)], vec![dust]));
    assert_eq!(hf, Err(HfError::MathOverflow));
}

#[test]
fn invalid_entry_fails_wherever_it_stands() {
    let bad = CollateralInput { liq_threshold_bps: 10_001, ..collateral(1000, 0) };
    let good = collateral(1000, 0);
    for cs in [vec![bad, good, good], vec![good, bad, good], vec![good, good, bad]] {
        let hf = compute_hf_internal(&args(cs, vec![debt(500)]));
        assert_eq!(hf, Err(HfError::InvalidLiqThreshold));
    }
    let bad_debt = DebtInput { decimals: 19, ..debt(500) };
    for ds in [vec![bad_debt, debt(1)], vec![debt(1), bad_debt]] {
        let hf = compute_hf_internal(&args(vec![good], ds));
        assert_eq!(hf, Err(HfError::InvalidDecimals));
    }
}

#[test]
fn each_validation_error_reaches_the_caller() {
    let good = collateral(1000, 0);
    let cases = [
        (CollateralInput { price_e8: 0, ..good }, HfError::InvalidPrice),
        (CollateralInput { decimals: 19, ..good }, HfError::InvalidDecimals),
        (CollateralInput { liq_threshold_bps: 10_001, ..good }, HfError::InvalidLiqThreshold),
        (CollateralInput { borrow_factor_bps: 500, ..good }, HfError::InvalidBorrowFactor),
    ];
    for (bad, expected) in cases {
        let hf = compute_hf_internal(&args(vec![good, bad], vec![debt(500)]));
        assert_eq!(hf, Err(expected));
    }
}

#[test]
fn first_failure_in_input_order_wins() {
    let bad_price = CollateralInput { price_e8: -1, ..collateral(1000, 0) };
    let bad_factor = CollateralInput { borrow_factor_bps: 1, ..collateral(1000, 0) };
    let hf = compute_hf_internal(&args(vec![bad_factor, bad_price], vec![]));
    assert_eq!(hf, Err(HfError::InvalidBorrowFactor));
    let hf = compute_hf_internal(&args(vec![bad_price, bad_factor], vec![]));
    assert_eq!(hf, Err(HfError::InvalidPrice));
    // Collaterals are processed before debts.
    let bad_debt = DebtInput { price_e8: 0, ..debt(500) };
    let hf = compute_hf_internal(&args(vec![collateral(1, 0), bad_factor], vec![bad_debt]));
    assert_eq!(hf, Err(HfError::InvalidBorrowFactor));
    // An overflow that comes first hides a later invalid entry.
    let hf = compute_hf_internal(&args(vec![whole(1 << 63), whole(1 << 63), bad_price], vec![]));
    assert_eq!(hf, Err(HfError::MathOverflow));
}

#[test]
fn raising_collateral_does_not_lower_the_health_factor() {
    let base = compute_hf_internal(&args(vec![collateral(1000, 0)], vec![debt(500)])).unwrap();
    let more = compute_hf_internal(&args(vec![collateral(1001, 0)], vec![debt(500)])).unwrap();
    assert_eq!(more, 59088610616906440372);
    assert!(base <= more);
}

#[test]
fn raising_debt_does_not_raise_the_health_factor() {
    let base = compute_hf_internal(&args(vec![collateral(1000, 0)], vec![debt(500)])).unwrap();
    let more = compute_hf_internal(&args(vec![collateral(1000, 0)], vec![debt(501)])).unwrap();
    assert_eq!(more, 58911757520828907677);
    assert!(more <= base);
    let none = compute_hf_internal(&args(vec![collateral(1000, 0)], vec![debt(0)])).unwrap();
    assert!(base <= none);
}

#[test]
fn raising_the_borrow_factor_lowers_the_credit() {
    let mut last = u128::MAX;
    for bps in [1_000u16, 2_500, 5_000, 7_500, 10_000] {
        let v = collateral_value(&collateral(1000, bps)).unwrap();
        assert!(v < last);
        last = v;
    }
    assert_eq!(
        collateral_value(&collateral(1000, 0)),
        collateral_value(&collateral(1000, 10_000))
    );
}

#[test]
fn order_changes_the_reported_failure_but_not_the_total() {
    let a = collateral(1000, 0);
    let b = collateral(77, 2_500);
    let c = whole(12);
    let forward = total_collateral_value(&vec![a, b, c]).unwrap();
    let backward = total_collateral_value(&vec![c, b, a]).unwrap();
    assert_eq!(forward, backward);
    assert_eq!(
        forward,
        collateral_value(&a).unwrap() + collateral_value(&b).unwrap() + collateral_value(&c).unwrap()
    );
}

#[test]
fn health_factor_below_one_when_debt_exceeds_credit() {
    let hf = compute_hf_internal(&args(vec![whole(1)], vec![whole_debt(2)])).unwrap();
    assert_eq!(hf, ONE_Q64_64 / 2);
    assert!(hf < ONE_Q64_64);
}
