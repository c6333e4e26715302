//! Valuation of single positions, their aggregation into two totals, and the
//! resolution of the totals into the health factor.

use crate::error::HfError;
use crate::fixed::{
    bps_floor, bps_to_q64, checked_q64, price_floor, q64_div, q64_div_floor, q64_div_spec,
    q64_from_price_e8, q64_mul, q64_mul_floor, scale_floor, scale_to_q64, ONE_Q64_64,
};
use crate::input::{CollateralInput, ComputeArgs, DebtInput};
use vstd::prelude::*;

verus! {

/// The health factor reported when there is no debt: the largest Q64.64
/// value, standing for "unbounded".
pub const HF_UNBOUNDED: u128 = u128::MAX;

/// A position's amount times its price, in Q64.64, before any weighting.
pub open spec fn gross_value(amount: u64, decimals: u8, price_e8: i64) -> int {
    q64_mul_floor(scale_floor(amount as int, decimals as nat), price_floor(price_e8 as int))
}

/// A collateral's gross value weighted by its liquidation threshold.
pub open spec fn collateral_base(c: CollateralInput) -> int {
    q64_mul_floor(
        gross_value(c.amount, c.decimals, c.price_e8),
        bps_floor(c.liq_threshold_bps as int),
    )
}

/// What a collateral counts for: its weighted value, divided by the borrow
/// factor where one is set.
pub open spec fn collateral_worth(c: CollateralInput) -> int {
    if c.borrow_factor_bps == 0 {
        collateral_base(c)
    } else {
        q64_div_floor(collateral_base(c), bps_floor(c.borrow_factor_bps as int))
    }
}

/// What `collateral_value` returns: the validation error of an invalid
/// position, an overflow where the gross value or the final worth leaves 128
/// bits, and the worth otherwise.
pub open spec fn collateral_value_spec(c: CollateralInput) -> Result<u128, HfError> {
    match c.validation_error() {
        Some(e) => Err(e),
        None => if gross_value(c.amount, c.decimals, c.price_e8) > u128::MAX {
            Err(HfError::MathOverflow)
        } else {
            checked_q64(collateral_worth(c))
        },
    }
}

/// What `debt_value` returns: the validation error of an invalid position,
/// an overflow where the gross value leaves 128 bits, and the gross value
/// otherwise.
pub open spec fn debt_value_spec(d: DebtInput) -> Result<u128, HfError> {
    match d.validation_error() {
        Some(e) => Err(e),
        None => checked_q64(gross_value(d.amount, d.decimals, d.price_e8)),
    }
}

/// The checked sum of a sequence of per-position results, taken in order:
/// the first failure met, be it a position's own or the overflow of the
/// running sum, ends the fold.
pub open spec fn checked_total(values: Seq<Result<u128, HfError>>) -> Result<u128, HfError>
    decreases values.len(),
{
    if values.len() == 0 {
        Ok(0)
    } else {
        match checked_total(values.drop_last()) {
            Err(e) => Err(e),
            Ok(sum) => match values.last() {
                Err(e) => Err(e),
                Ok(v) => checked_q64(sum + v),
            },
        }
    }
}

/// The per-position results of a list of collaterals.
pub open spec fn collateral_values(cs: Seq<CollateralInput>) -> Seq<Result<u128, HfError>> {
    Seq::new(cs.len(), |i: int| collateral_value_spec(cs[i]))
}

/// The per-position results of a list of debts.
pub open spec fn debt_values(ds: Seq<DebtInput>) -> Seq<Result<u128, HfError>> {
    Seq::new(ds.len(), |i: int| debt_value_spec(ds[i]))
}

/// What `total_collateral_value` returns.
pub open spec fn total_collateral_spec(cs: Seq<CollateralInput>) -> Result<u128, HfError> {
    checked_total(collateral_values(cs))
}

/// What `total_debt_value` returns.
pub open spec fn total_debt_spec(ds: Seq<DebtInput>) -> Result<u128, HfError> {
    checked_total(debt_values(ds))
}

/// What `resolve_health_factor` returns: the unbounded sentinel for no debt,
/// else the Q64.64 quotient of the totals.
pub open spec fn resolve_spec(total_collateral: u128, total_debt: u128) -> Result<u128, HfError> {
    if total_debt == 0 {
        Ok(HF_UNBOUNDED)
    } else {
        q64_div_spec(total_collateral, total_debt)
    }
}

/// The health factor of a list of collaterals and a list of debts:
/// collaterals are totalled first, then debts, then the totals are resolved;
/// the first failure on that path is the result.
pub open spec fn health_factor_spec(
    cs: Seq<CollateralInput>,
    ds: Seq<DebtInput>,
) -> Result<u128, HfError> {
    match total_collateral_spec(cs) {
        Err(e) => Err(e),
        Ok(total_collateral) => match total_debt_spec(ds) {
            Err(e) => Err(e),
            Ok(total_debt) => resolve_spec(total_collateral, total_debt),
        },
    }
}

/// A failure in a prefix of the values is the failure of the whole fold.
pub proof fn lemma_total_error_persists(values: Seq<Result<u128, HfError>>, n: int)
    requires
        0 <= n <= values.len(),
        checked_total(values.take(n)) is Err,
    ensures
        checked_total(values) == checked_total(values.take(n)),
    decreases values.len(),
{
    if n == values.len() {
        assert(values.take(n) =~= values);
    } else {
        assert(values.drop_last().take(n) =~= values.take(n));
        lemma_total_error_persists(values.drop_last(), n);
    }
}

/// Extending a prefix by one value extends the fold by one step.
pub proof fn lemma_total_step(values: Seq<Result<u128, HfError>>, n: int)
    requires
        0 <= n < values.len(),
    ensures
        checked_total(values.take(n + 1)) == match checked_total(values.take(n)) {
            Err(e) => Err(e),
            Ok(sum) => match values[n] {
                Err(e) => Err(e),
                Ok(v) => checked_q64(sum + v),
            },
        },
{
    assert(values.take(n + 1).drop_last() =~= values.take(n));
}

/// Scaling a Q64.64 value by a factor of at most 1.0 does not enlarge it.
proof fn lemma_mul_by_fraction(x: int, f: int)
    requires
        0 <= x,
        0 <= f <= ONE_Q64_64,
    ensures
        0 <= q64_mul_floor(x, f) <= x,
{
    assert(0 <= x * f <= x * 0x1_0000_0000_0000_0000) by (nonlinear_arith)
        requires
            0 <= x,
            0 <= f <= 0x1_0000_0000_0000_0000,
    ;
    vstd::arithmetic::div_mod::lemma_div_is_ordered(x * f, x * 0x1_0000_0000_0000_0000, 0x1_0000_0000_0000_0000);
    vstd::arithmetic::div_mod::lemma_div_pos_is_pos(x * f, 0x1_0000_0000_0000_0000);
}

/// What one collateral position counts for, in Q64.64.
///
/// The position is validated first. Its amount, price and liquidation
/// threshold are then taken to Q64.64 and multiplied, and the product is
/// divided by the borrow factor where one is set.
pub fn collateral_value(c: &CollateralInput) -> (r: Result<u128, HfError>)
    ensures
        r == collateral_value_spec(*c),
{
    match c.validate() {
        Err(e) => { return Err(e); },
        Ok(_) => {},
    }
    let amt_norm_q64 = match scale_to_q64(c.amount, c.decimals) {
        Err(e) => { return Err(e); },
        Ok(v) => v,
    };
    let price_q64 = match q64_from_price_e8(c.price_e8) {
        Err(e) => { return Err(e); },
        Ok(v) => v,
    };
    let lt_q64 = match bps_to_q64(c.liq_threshold_bps) {
        Err(e) => { return Err(e); },
        Ok(v) => v,
    };
    let gross = match q64_mul(amt_norm_q64, price_q64) {
        Err(e) => { return Err(e); },
        Ok(v) => v,
    };
    proof {
        lemma_mul_by_fraction(gross as int, lt_q64 as int);
    }
    let base = match q64_mul(gross, lt_q64) {
        Err(e) => { return Err(e); },
        Ok(v) => v,
    };
    if c.borrow_factor_bps > 0 {
        let bf_q64 = match bps_to_q64(c.borrow_factor_bps) {
            Err(e) => { return Err(e); },
            Ok(v) => v,
        };
        q64_div(base, bf_q64)
    } else {
        Ok(base)
    }
}

/// What one debt position amounts to, in Q64.64: its amount times its price,
/// after validation.
pub fn debt_value(d: &DebtInput) -> (r: Result<u128, HfError>)
    ensures
        r == debt_value_spec(*d),
{
    match d.validate() {
        Err(e) => { return Err(e); },
        Ok(_) => {},
    }
    let amt_norm_q64 = match scale_to_q64(d.amount, d.decimals) {
        Err(e) => { return Err(e); },
        Ok(v) => v,
    };
    let price_q64 = match q64_from_price_e8(d.price_e8) {
        Err(e) => { return Err(e); },
        Ok(v) => v,
    };
    q64_mul(amt_norm_q64, price_q64)
}

/// The checked sum of what the collaterals count for, taken in input order.
pub fn total_collateral_value(collaterals: &Vec<CollateralInput>) -> (r: Result<u128, HfError>)
    ensures
        r == total_collateral_spec(collaterals@),
{
    let ghost values = collateral_values(collaterals@);
    let mut total: u128 = 0;
    let mut i: usize = 0;
    assert(values.take(0) =~= Seq::<Result<u128, HfError>>::empty());
    while i < collaterals.len()
        invariant
            i <= collaterals.len(),
            values == collateral_values(collaterals@),
            checked_total(values.take(i as int)) == Ok::<u128, HfError>(total),
        decreases collaterals.len() - i,
    {
        proof {
            lemma_total_step(values, i as int);
        }
        let val = match collateral_value(&collaterals[i]) {
            Err(e) => {
                proof {
                    lemma_total_error_persists(values, i + 1);
                }
                return Err(e);
            },
            Ok(v) => v,
        };
        total = match total.checked_add(val) {
            None => {
                proof {
                    lemma_total_error_persists(values, i + 1);
                }
                return Err(HfError::MathOverflow);
            },
            Some(t) => t,
        };
        i = i + 1;
    }
    assert(values.take(i as int) =~= values);
    Ok(total)
}

/// The checked sum of what the debts amount to, taken in input order.
pub fn total_debt_value(debts: &Vec<DebtInput>) -> (r: Result<u128, HfError>)
    ensures
        r == total_debt_spec(debts@),
{
    let ghost values = debt_values(debts@);
    let mut total: u128 = 0;
    let mut i: usize = 0;
    assert(values.take(0) =~= Seq::<Result<u128, HfError>>::empty());
    while i < debts.len()
        invariant
            i <= debts.len(),
            values == debt_values(debts@),
            checked_total(values.take(i as int)) == Ok::<u128, HfError>(total),
        decreases debts.len() - i,
    {
        proof {
            lemma_total_step(values, i as int);
        }
        let val = match debt_value(&debts[i]) {
            Err(e) => {
                proof {
                    lemma_total_error_persists(values, i + 1);
                }
                return Err(e);
            },
            Ok(v) => v,
        };
        total = match total.checked_add(val) {
            None => {
                proof {
                    lemma_total_error_persists(values, i + 1);
                }
                return Err(HfError::MathOverflow);
            },
            Some(t) => t,
        };
        i = i + 1;
    }
    assert(values.take(i as int) =~= values);
    Ok(total)
}

/// The health factor of two totals: unbounded where there is no debt, else
/// collateral over debt in Q64.64.
///
/// Fails with `MathOverflow` exactly when the debt is nonzero and the
/// quotient does not fit in 128 bits.
pub fn resolve_health_factor(total_collateral: u128, total_debt: u128) -> (r: Result<
    u128,
    HfError,
>)
    ensures
        r == resolve_spec(total_collateral, total_debt),
{
    if total_debt == 0 {
        Ok(HF_UNBOUNDED)
    } else {
        q64_div(total_collateral, total_debt)
    }
}

/// The health factor of a set of positions, in Q64.64: risk-weighted
/// collateral value over debt value.
///
/// Collaterals are processed in input order, then debts in input order; the
/// first position that is invalid or whose arithmetic overflows decides the
/// error. With no debt value the result is `HF_UNBOUNDED`.
pub fn compute_hf_internal(args: &ComputeArgs) -> (r: Result<u128, HfError>)
    ensures
        r == health_factor_spec(args.collaterals@, args.debts@),
{
    let total_collateral_value_q64 = match total_collateral_value(&args.collaterals) {
        Err(e) => { return Err(e); },
        Ok(v) => v,
    };
    let total_debt_value_q64 = match total_debt_value(&args.debts) {
        Err(e) => { return Err(e); },
        Ok(v) => v,
    };
    resolve_health_factor(total_collateral_value_q64, total_debt_value_q64)
}

} // verus!
