//! What holds of the health factor over all inputs: the zero-debt sentinel,
//! monotonicity in collateral and in debt, the effect of the borrow factor,
//! and which failure an invalid position produces.

use crate::engine::{
    checked_total, collateral_base, collateral_value_spec, collateral_values, debt_value_spec,
    debt_values, gross_value, health_factor_spec, lemma_total_error_persists, lemma_total_step,
    total_collateral_spec, total_debt_spec, HF_UNBOUNDED,
};
use crate::error::HfError;
use crate::fixed::{
    bps_floor, lemma_q64_div_antitone, lemma_q64_div_monotone, lemma_q64_mul_monotone,
    lemma_scale_monotone, price_floor, q64_div_floor, scale_floor,
};
use crate::input::{CollateralInput, DebtInput};
use vstd::prelude::*;

verus! {

/// `cs` with the amount of the collateral at `k` replaced.
pub open spec fn with_collateral_amount(
    cs: Seq<CollateralInput>,
    k: int,
    amount: u64,
) -> Seq<CollateralInput> {
    cs.update(
        k,
        CollateralInput {
            amount,
            decimals: cs[k].decimals,
            price_e8: cs[k].price_e8,
            liq_threshold_bps: cs[k].liq_threshold_bps,
            borrow_factor_bps: cs[k].borrow_factor_bps,
        },
    )
}

/// `ds` with the amount of the debt at `k` replaced.
pub open spec fn with_debt_amount(ds: Seq<DebtInput>, k: int, amount: u64) -> Seq<DebtInput> {
    ds.update(k, DebtInput { amount, decimals: ds[k].decimals, price_e8: ds[k].price_e8 })
}

/// `c` with its borrow factor replaced.
pub open spec fn with_borrow_factor(c: CollateralInput, bps: u16) -> CollateralInput {
    CollateralInput {
        amount: c.amount,
        decimals: c.decimals,
        price_e8: c.price_e8,
        liq_threshold_bps: c.liq_threshold_bps,
        borrow_factor_bps: bps,
    }
}

/// One sequence of results is below another when, wherever the second holds
/// a value, the first holds a value that is no larger.
pub open spec fn pointwise_below(
    low: Seq<Result<u128, HfError>>,
    high: Seq<Result<u128, HfError>>,
) -> bool {
    &&& low.len() == high.len()
    &&& forall|i: int|
        0 <= i < high.len() && #[trigger] high[i] is Ok ==> low[i] is Ok && low[i]->Ok_0
            <= high[i]->Ok_0
}

/// A total that succeeds is the plain sum of values that all succeeded: every
/// entry is a value.
pub proof fn lemma_total_ok_entries_ok(values: Seq<Result<u128, HfError>>, i: int)
    requires
        checked_total(values) is Ok,
        0 <= i < values.len(),
    ensures
        values[i] is Ok,
    decreases values.len(),
{
    if i < values.len() - 1 {
        lemma_total_ok_entries_ok(values.drop_last(), i);
    }
}

/// The checked total is monotone: where the larger values total without
/// failure, so do the smaller ones, to no more.
pub proof fn lemma_total_monotone(
    low: Seq<Result<u128, HfError>>,
    high: Seq<Result<u128, HfError>>,
)
    requires
        pointwise_below(low, high),
        checked_total(high) is Ok,
    ensures
        checked_total(low) is Ok,
        checked_total(low)->Ok_0 <= checked_total(high)->Ok_0,
    decreases high.len(),
{
    if high.len() > 0 {
        assert(high.last() == high[high.len() - 1]);
        assert(pointwise_below(low.drop_last(), high.drop_last())) by {
            assert forall|i: int|
                0 <= i < high.drop_last().len()
                    && #[trigger] high.drop_last()[i] is Ok implies low.drop_last()[i] is Ok
                && low.drop_last()[i]->Ok_0 <= high.drop_last()[i]->Ok_0 by {
                assert(high.drop_last()[i] == high[i]);
            }
        }
        lemma_total_monotone(low.drop_last(), high.drop_last());
    }
}

/// The plain sum of the values in a sequence of results, a failure counting
/// for nothing.
pub open spec fn plain_sum(values: Seq<Result<u128, HfError>>) -> int
    decreases values.len(),
{
    if values.len() == 0 {
        0
    } else {
        plain_sum(values.drop_last()) + match values.last() {
            Ok(v) => v as int,
            Err(_) => 0,
        }
    }
}

/// The plain sum is never negative.
pub proof fn lemma_plain_sum_nonnegative(values: Seq<Result<u128, HfError>>)
    ensures
        0 <= plain_sum(values),
    decreases values.len(),
{
    if values.len() > 0 {
        lemma_plain_sum_nonnegative(values.drop_last());
    }
}

/// The checked total succeeds exactly when every entry is a value and the
/// plain sum of the values fits in 128 bits, and it then is that sum: the
/// order of the entries decides which failure is reported, never the total.
pub proof fn lemma_total_is_plain_sum(values: Seq<Result<u128, HfError>>)
    ensures
        checked_total(values) is Ok <==> (forall|i: int|
            0 <= i < values.len() ==> (#[trigger] values[i]) is Ok) && plain_sum(values)
            <= u128::MAX,
        checked_total(values) is Ok ==> checked_total(values)->Ok_0 == plain_sum(values),
    decreases values.len(),
{
    if values.len() > 0 {
        let front = values.drop_last();
        lemma_total_is_plain_sum(front);
        lemma_plain_sum_nonnegative(front);
        assert(values.last() == values[values.len() - 1]);
        if checked_total(values) is Ok {
            assert forall|i: int| 0 <= i < values.len() implies (#[trigger] values[i]) is Ok by {
                if i < values.len() - 1 {
                    assert(front[i] == values[i]);
                }
            }
        }
        if (forall|i: int| 0 <= i < values.len() ==> (#[trigger] values[i]) is Ok) && plain_sum(
            values,
        ) <= u128::MAX {
            assert forall|i: int| 0 <= i < front.len() implies (#[trigger] front[i]) is Ok by {
                assert(front[i] == values[i]);
            }
        }
    }
}

/// A total of values that are all zero is zero.
pub proof fn lemma_total_of_zeros(values: Seq<Result<u128, HfError>>)
    requires
        forall|i: int| 0 <= i < values.len() ==> values[i] == Ok::<u128, HfError>(0),
    ensures
        checked_total(values) == Ok::<u128, HfError>(0),
    decreases values.len(),
{
    if values.len() > 0 {
        lemma_total_of_zeros(values.drop_last());
    }
}

/// Zero-debt sentinel: where the collaterals total without failure and every
/// debt is worth zero (in particular where there is no debt at all), the
/// health factor is the unbounded sentinel, the largest Q64.64 value.
pub proof fn lemma_zero_debt_sentinel(cs: Seq<CollateralInput>, ds: Seq<DebtInput>)
    requires
        total_collateral_spec(cs) is Ok,
        forall|j: int| 0 <= j < ds.len() ==> debt_value_spec(#[trigger] ds[j]) == Ok::<
            u128,
            HfError,
        >(0),
    ensures
        health_factor_spec(cs, ds) == Ok::<u128, HfError>(HF_UNBOUNDED),
        HF_UNBOUNDED == u128::MAX,
{
    lemma_total_of_zeros(debt_values(ds));
}

/// A collateral with a smaller amount counts for no more: where the larger
/// amount is valued without failure, so is the smaller one, at no more.
pub proof fn lemma_collateral_value_monotone(c: CollateralInput, amount: u64)
    requires
        c.amount <= amount,
    ensures
        ({
            let raised = CollateralInput {
                amount,
                decimals: c.decimals,
                price_e8: c.price_e8,
                liq_threshold_bps: c.liq_threshold_bps,
                borrow_factor_bps: c.borrow_factor_bps,
            };
            collateral_value_spec(raised) is Ok ==> collateral_value_spec(c) is Ok
                && collateral_value_spec(c)->Ok_0 <= collateral_value_spec(raised)->Ok_0
        }),
{
    let raised = CollateralInput {
        amount,
        decimals: c.decimals,
        price_e8: c.price_e8,
        liq_threshold_bps: c.liq_threshold_bps,
        borrow_factor_bps: c.borrow_factor_bps,
    };
    if collateral_value_spec(raised) is Ok {
        assert(raised.validation_error() is None);
        assert(c.validation_error() is None);
        let price = price_floor(c.price_e8 as int);
        let lt = bps_floor(c.liq_threshold_bps as int);
        lemma_scale_monotone(c.amount as int, amount as int, c.decimals as nat);
        lemma_q64_mul_monotone(
            scale_floor(c.amount as int, c.decimals as nat),
            scale_floor(amount as int, c.decimals as nat),
            price,
        );
        lemma_q64_mul_monotone(
            gross_value(c.amount, c.decimals, c.price_e8),
            gross_value(amount, c.decimals, c.price_e8),
            lt,
        );
        if c.borrow_factor_bps != 0 {
            lemma_q64_div_monotone(
                collateral_base(c),
                collateral_base(raised),
                bps_floor(c.borrow_factor_bps as int),
            );
        }
    }
}

/// A debt with a smaller amount is worth no more: where the larger amount is
/// valued without failure, so is the smaller one, at no more.
pub proof fn lemma_debt_value_monotone(d: DebtInput, amount: u64)
    requires
        d.amount <= amount,
    ensures
        ({
            let raised = DebtInput { amount, decimals: d.decimals, price_e8: d.price_e8 };
            debt_value_spec(raised) is Ok ==> debt_value_spec(d) is Ok && debt_value_spec(
                d,
            )->Ok_0 <= debt_value_spec(raised)->Ok_0
        }),
{
    let raised = DebtInput { amount, decimals: d.decimals, price_e8: d.price_e8 };
    if debt_value_spec(raised) is Ok {
        assert(raised.validation_error() is None);
        assert(d.validation_error() is None);
        lemma_scale_monotone(d.amount as int, amount as int, d.decimals as nat);
        lemma_q64_mul_monotone(
            scale_floor(d.amount as int, d.decimals as nat),
            scale_floor(amount as int, d.decimals as nat),
            price_floor(d.price_e8 as int),
        );
    }
}

/// Monotonicity in collateral: raising the amount of one collateral, all
/// else fixed, never lowers the health factor. Where the computation with
/// the raised amount succeeds, so does the one with the original amount, and
/// its health factor is no larger.
pub proof fn lemma_monotone_in_collateral(
    cs: Seq<CollateralInput>,
    ds: Seq<DebtInput>,
    k: int,
    amount: u64,
)
    requires
        0 <= k < cs.len(),
        cs[k].amount <= amount,
        health_factor_spec(with_collateral_amount(cs, k, amount), ds) is Ok,
    ensures
        health_factor_spec(cs, ds) is Ok,
        health_factor_spec(cs, ds)->Ok_0 <= health_factor_spec(
            with_collateral_amount(cs, k, amount),
            ds,
        )->Ok_0,
{
    let raised = with_collateral_amount(cs, k, amount);
    let low = collateral_values(cs);
    let high = collateral_values(raised);
    assert(pointwise_below(low, high)) by {
        assert forall|i: int| 0 <= i < high.len() && #[trigger] high[i] is Ok implies low[i] is Ok
            && low[i]->Ok_0 <= high[i]->Ok_0 by {
            if i == k {
                lemma_collateral_value_monotone(cs[k], amount);
            } else {
                assert(raised[i] == cs[i]);
            }
        }
    }
    lemma_total_monotone(low, high);
    let tc_low = total_collateral_spec(cs)->Ok_0;
    let tc_high = total_collateral_spec(raised)->Ok_0;
    let td = total_debt_spec(ds)->Ok_0;
    if td != 0 {
        lemma_q64_div_monotone(tc_low as int, tc_high as int, td as int);
    }
}

/// Monotonicity in debt: raising the amount of one debt, all else fixed,
/// never raises the health factor. Where both computations succeed, the one
/// with the raised amount gives a health factor that is no larger.
pub proof fn lemma_monotone_in_debt(
    cs: Seq<CollateralInput>,
    ds: Seq<DebtInput>,
    k: int,
    amount: u64,
)
    requires
        0 <= k < ds.len(),
        ds[k].amount <= amount,
        health_factor_spec(cs, ds) is Ok,
        health_factor_spec(cs, with_debt_amount(ds, k, amount)) is Ok,
    ensures
        health_factor_spec(cs, with_debt_amount(ds, k, amount))->Ok_0 <= health_factor_spec(
            cs,
            ds,
        )->Ok_0,
{
    let raised = with_debt_amount(ds, k, amount);
    let low = debt_values(ds);
    let high = debt_values(raised);
    assert(pointwise_below(low, high)) by {
        assert forall|i: int| 0 <= i < high.len() && #[trigger] high[i] is Ok implies low[i] is Ok
            && low[i]->Ok_0 <= high[i]->Ok_0 by {
            if i == k {
                lemma_debt_value_monotone(ds[k], amount);
            } else {
                assert(raised[i] == ds[i]);
            }
        }
    }
    lemma_total_monotone(low, high);
    let tc = total_collateral_spec(cs)->Ok_0;
    let td_low = total_debt_spec(ds)->Ok_0;
    let td_high = total_debt_spec(raised)->Ok_0;
    if td_low != 0 {
        lemma_q64_div_antitone(tc as int, td_low as int, td_high as int);
    }
}

/// Borrow-factor effect: between two set borrow factors, the larger one
/// gives the collateral no more credit. Where the position is valued without
/// failure under the smaller factor, it is under the larger one too, at no
/// more.
pub proof fn lemma_borrow_factor_effect(c: CollateralInput, bps_low: u16, bps_high: u16)
    requires
        1_000 <= bps_low <= bps_high <= 10_000,
        collateral_value_spec(with_borrow_factor(c, bps_low)) is Ok,
    ensures
        collateral_value_spec(with_borrow_factor(c, bps_high)) is Ok,
        collateral_value_spec(with_borrow_factor(c, bps_high))->Ok_0 <= collateral_value_spec(
            with_borrow_factor(c, bps_low),
        )->Ok_0,
{
    let c_low = with_borrow_factor(c, bps_low);
    let c_high = with_borrow_factor(c, bps_high);
    assert(c_low.validation_error() is None);
    assert(c_high.validation_error() is None);
    assert(collateral_base(c_low) == collateral_base(c_high));
    let gross = gross_value(c.amount, c.decimals, c.price_e8);
    lemma_scale_monotone(0, c.amount as int, c.decimals as nat);
    lemma_q64_mul_monotone(
        0,
        scale_floor(c.amount as int, c.decimals as nat),
        price_floor(c.price_e8 as int),
    );
    lemma_q64_mul_monotone(0, gross, bps_floor(c.liq_threshold_bps as int));
    lemma_q64_div_antitone(
        collateral_base(c_low),
        bps_floor(bps_low as int),
        bps_floor(bps_high as int),
    );
    lemma_q64_div_monotone(0, collateral_base(c_high), bps_floor(bps_high as int));
}

/// A borrow factor of zero, which stands for "none", gives the same credit
/// as one of 10000 basis points.
pub proof fn lemma_unset_borrow_factor_is_full(c: CollateralInput)
    ensures
        collateral_value_spec(with_borrow_factor(c, 0)) == collateral_value_spec(
            with_borrow_factor(c, 10_000),
        ),
{
    let c_none = with_borrow_factor(c, 0);
    let c_full = with_borrow_factor(c, 10_000);
    let base = collateral_base(c_none);
    assert(collateral_base(c_full) == base);
    assert(bps_floor(10_000) == 0x1_0000_0000_0000_0000);
    assert(q64_div_floor(base, 0x1_0000_0000_0000_0000) == base) by {
        vstd::arithmetic::div_mod::lemma_div_multiples_vanish(base, 0x1_0000_0000_0000_0000);
        vstd::arithmetic::mul::lemma_mul_is_commutative(base, 0x1_0000_0000_0000_0000);
    }
}

/// Validation short-circuit, for collaterals: an invalid collateral anywhere
/// in the list makes the whole computation fail, whatever else the lists
/// hold.
pub proof fn lemma_invalid_collateral_fails(
    cs: Seq<CollateralInput>,
    ds: Seq<DebtInput>,
    k: int,
)
    requires
        0 <= k < cs.len(),
        !cs[k].is_valid(),
    ensures
        health_factor_spec(cs, ds) is Err,
{
    if total_collateral_spec(cs) is Ok {
        lemma_total_ok_entries_ok(collateral_values(cs), k);
    }
}

/// Validation short-circuit, for debts: an invalid debt anywhere in the list
/// makes the whole computation fail, whatever else the lists hold.
pub proof fn lemma_invalid_debt_fails(cs: Seq<CollateralInput>, ds: Seq<DebtInput>, k: int)
    requires
        0 <= k < ds.len(),
        !ds[k].is_valid(),
    ensures
        health_factor_spec(cs, ds) is Err,
{
    if total_debt_spec(ds) is Ok {
        lemma_total_ok_entries_ok(debt_values(ds), k);
    }
}

/// The error of an invalid collateral: where the collaterals before it total
/// without failure, the computation fails with the error of the first check
/// that the collateral fails.
pub proof fn lemma_invalid_collateral_error(
    cs: Seq<CollateralInput>,
    ds: Seq<DebtInput>,
    k: int,
)
    requires
        0 <= k < cs.len(),
        total_collateral_spec(cs.take(k)) is Ok,
        cs[k].validation_error() is Some,
    ensures
        health_factor_spec(cs, ds) == Err::<u128, HfError>(cs[k].validation_error()->Some_0),
{
    let values = collateral_values(cs);
    assert(values.take(k) =~= collateral_values(cs.take(k)));
    lemma_total_step(values, k);
    lemma_total_error_persists(values, k + 1);
}

/// The error of an invalid debt: where the collaterals total without failure
/// and so do the debts before it, the computation fails with the error of
/// the first check that the debt fails.
pub proof fn lemma_invalid_debt_error(cs: Seq<CollateralInput>, ds: Seq<DebtInput>, k: int)
    requires
        0 <= k < ds.len(),
        total_collateral_spec(cs) is Ok,
        total_debt_spec(ds.take(k)) is Ok,
        ds[k].validation_error() is Some,
    ensures
        health_factor_spec(cs, ds) == Err::<u128, HfError>(ds[k].validation_error()->Some_0),
{
    let values = debt_values(ds);
    assert(values.take(k) =~= debt_values(ds.take(k)));
    lemma_total_step(values, k);
    lemma_total_error_persists(values, k + 1);
}

} // verus!
