//! Q64.64 fixed-point primitives.
//!
//! A Q64.64 number is a `u128` whose upper 64 bits are the integer part and
//! whose lower 64 bits are the fraction: the `u128` value `v` stands for
//! `v / 2^64`. Products and shifted numerators are formed in 256 bits, so the
//! only way to fail is a zero divisor or a result beyond 128 bits.

use crate::error::HfError;
use crate::wide::Wide;
use vstd::arithmetic::power::pow;
use vstd::arithmetic::power::{lemma_pow0, lemma_pow1, lemma_pow_adds, lemma_pow_increases};
use vstd::arithmetic::power2::lemma2_to64;
use vstd::prelude::*;

verus! {

/// 1.0 in Q64.64.
pub const ONE_Q64_64: u128 = 0x1_0000_0000_0000_0000;

/// The number of basis points in 1.0.
pub const BPS_DENOMINATOR: u128 = 10_000;

/// The divisor that takes a raw oracle price to a Q64.64 price: a raw price
/// `p` stands for `p / 100000`. This constant is the one place where the
/// price convention is fixed; a feed that quotes with another scale has to be
/// rescaled before its prices reach this engine.
pub const PRICE_SCALE: u128 = 100_000;

/// The largest `decimals` for which `10^decimals` fits in a `u128`.
pub const MAX_TEN_POW: u8 = 38;

/// `v` as a Q64.64 result: itself where it fits in 128 bits, and an overflow
/// where it does not.
pub open spec fn checked_q64(v: int) -> Result<u128, HfError> {
    if 0 <= v <= u128::MAX {
        Ok(v as u128)
    } else {
        Err(HfError::MathOverflow)
    }
}

/// `floor(a * b / denom)`, for a nonzero `denom`.
pub open spec fn mul_div_floor(a: int, b: int, denom: int) -> int {
    (a * b) / denom
}

/// The Q64.64 product of two Q64.64 numbers: `floor(a * b / 2^64)`.
pub open spec fn q64_mul_floor(a: int, b: int) -> int {
    (a * b) / (ONE_Q64_64 as int)
}

/// The Q64.64 quotient of two Q64.64 numbers: `floor(a * 2^64 / b)`, for a
/// nonzero `b`.
pub open spec fn q64_div_floor(a: int, b: int) -> int {
    (a * (ONE_Q64_64 as int)) / b
}

/// A raw token amount with `decimals` implied fractional digits, in Q64.64:
/// `floor(amount * 2^64 / 10^decimals)`.
pub open spec fn scale_floor(amount: int, decimals: nat) -> int {
    (amount * (ONE_Q64_64 as int)) / pow(10, decimals)
}

/// A count of basis points in Q64.64: `floor(bps * 2^64 / 10000)`.
pub open spec fn bps_floor(bps: int) -> int {
    (bps * (ONE_Q64_64 as int)) / (BPS_DENOMINATOR as int)
}

/// A raw oracle price in Q64.64: `floor(price * 2^64 / 100000)`.
pub open spec fn price_floor(price: int) -> int {
    (price * (ONE_Q64_64 as int)) / (PRICE_SCALE as int)
}

/// What `mul_div_q64` returns.
pub open spec fn mul_div_q64_spec(a: u128, b: u128, denom: u128) -> Result<u128, HfError> {
    if denom == 0 {
        Err(HfError::MathOverflow)
    } else {
        checked_q64(mul_div_floor(a as int, b as int, denom as int))
    }
}

/// What `q64_mul` returns.
pub open spec fn q64_mul_spec(a: u128, b: u128) -> Result<u128, HfError> {
    checked_q64(q64_mul_floor(a as int, b as int))
}

/// What `q64_div` returns.
pub open spec fn q64_div_spec(a: u128, b: u128) -> Result<u128, HfError> {
    if b == 0 {
        Err(HfError::MathOverflow)
    } else {
        checked_q64(q64_div_floor(a as int, b as int))
    }
}

/// What `scale_to_q64` returns.
pub open spec fn scale_to_q64_spec(amount: u64, decimals: u8) -> Result<u128, HfError> {
    if decimals > MAX_TEN_POW {
        Err(HfError::MathOverflow)
    } else {
        Ok(scale_floor(amount as int, decimals as nat) as u128)
    }
}

/// What `q64_from_price_e8` returns.
pub open spec fn q64_from_price_e8_spec(price_e8: i64) -> Result<u128, HfError> {
    if price_e8 < 0 {
        Err(HfError::MathOverflow)
    } else {
        Ok(price_floor(price_e8 as int) as u128)
    }
}

/// The product of two 128-bit values is below 2^256.
proof fn lemma_product_fits(a: u128, b: u128)
    ensures
        0 <= a * b < crate::wide::two_256(),
{
    assert(0 <= a * b <= 0xffff_ffff_ffff_ffff_ffff_ffff_ffff_ffff
        * 0xffff_ffff_ffff_ffff_ffff_ffff_ffff_ffff) by (nonlinear_arith)
        requires
            0 <= a <= 0xffff_ffff_ffff_ffff_ffff_ffff_ffff_ffff,
            0 <= b <= 0xffff_ffff_ffff_ffff_ffff_ffff_ffff_ffff,
    ;
}

/// 10^38 written out; it is the largest power of ten below 2^128.
pub proof fn lemma_ten_pow_max()
    ensures
        pow(10, 38) == 100_000_000_000_000_000_000_000_000_000_000_000_000int,
        pow(10, 38) <= u128::MAX,
{
    lemma_pow1(10);
    lemma_pow_adds(10, 1, 1);
    assert(pow(10, 2) == 10 * 10);
    lemma_pow_adds(10, 2, 2);
    assert(pow(10, 4) == 100 * 100);
    lemma_pow_adds(10, 4, 4);
    assert(pow(10, 8) == 10_000 * 10_000);
    lemma_pow_adds(10, 8, 8);
    assert(pow(10, 16) == 100_000_000 * 100_000_000);
    lemma_pow_adds(10, 16, 16);
    assert(pow(10, 32) == 10_000_000_000_000_000 * 10_000_000_000_000_000);
    lemma_pow_adds(10, 32, 4);
    assert(pow(10, 36) == pow(10, 32) * 10_000);
    lemma_pow_adds(10, 36, 2);
    assert(pow(10, 38) == pow(10, 36) * 100);
}

/// Every power of ten up to the 38th is positive and fits in a `u128`.
pub proof fn lemma_ten_pow_fits(dec: nat)
    requires
        dec <= 38,
    ensures
        0 < pow(10, dec) <= u128::MAX,
{
    lemma_ten_pow_max();
    lemma_pow_increases(10, dec, 38);
    vstd::arithmetic::power::lemma_pow_positive(10, dec);
}

/// `10^dec`. The power must fit in a `u128`, which holds up to `dec == 38`.
pub fn ten_pow(dec: u8) -> (r: u128)
    requires
        dec <= MAX_TEN_POW,
    ensures
        r == pow(10, dec as nat),
{
    let mut r: u128 = 1;
    let mut i: u8 = 0;
    proof {
        lemma_pow0(10);
    }
    while i < dec
        invariant
            i <= dec <= 38,
            r == pow(10, i as nat),
        decreases dec - i,
    {
        proof {
            lemma_pow1(10);
            lemma_pow_adds(10, i as nat, 1);
            lemma_ten_pow_fits((i + 1) as nat);
        }
        r = r * 10;
        i = i + 1;
    }
    r
}

/// `floor(a * b / denom)`, with the product formed in 256 bits.
///
/// Fails with `MathOverflow` when `denom` is zero or the quotient does not
/// fit in 128 bits, and on no other input.
pub fn mul_div_q64(a: u128, b: u128, denom: u128) -> (r: Result<u128, HfError>)
    ensures
        r == mul_div_q64_spec(a, b, denom),
{
    if denom == 0 {
        return Err(HfError::MathOverflow);
    }
    let wa = Wide::from_u128(a);
    let wb = Wide::from_u128(b);
    let wd = Wide::from_u128(denom);
    proof {
        lemma_product_fits(a, b);
    }
    match wa.checked_mul(&wb) {
        None => Err(HfError::MathOverflow),
        Some(prod) => {
            let quot = prod.div(&wd);
            if quot.fits_u128() {
                Ok(quot.as_u128())
            } else {
                Err(HfError::MathOverflow)
            }
        },
    }
}

/// The product of two Q64.64 numbers, rounded down: `floor(a * b / 2^64)`.
///
/// Fails with `MathOverflow` exactly when the product does not fit in 128 bits.
pub fn q64_mul(a_q64: u128, b_q64: u128) -> (r: Result<u128, HfError>)
    ensures
        r == q64_mul_spec(a_q64, b_q64),
{
    let a = Wide::from_u128(a_q64);
    let b = Wide::from_u128(b_q64);
    proof {
        lemma_product_fits(a_q64, b_q64);
        lemma2_to64();
    }
    match a.checked_mul(&b) {
        None => Err(HfError::MathOverflow),
        Some(prod) => {
            let shifted = prod.shr(64);
            if shifted.fits_u128() {
                Ok(shifted.as_u128())
            } else {
                Err(HfError::MathOverflow)
            }
        },
    }
}

/// The quotient of two Q64.64 numbers, rounded down: `floor(a * 2^64 / b)`.
///
/// Fails with `MathOverflow` when `b` is zero or the quotient does not fit in
/// 128 bits, and on no other input.
pub fn q64_div(a_q64: u128, b_q64: u128) -> (r: Result<u128, HfError>)
    ensures
        r == q64_div_spec(a_q64, b_q64),
{
    if b_q64 == 0 {
        return Err(HfError::MathOverflow);
    }
    let a = Wide::from_u128(a_q64);
    let b = Wide::from_u128(b_q64);
    proof {
        lemma_product_fits(a_q64, ONE_Q64_64);
        lemma2_to64();
    }
    let numerator = a.shl(64);
    let quot = numerator.div(&b);
    if quot.fits_u128() {
        Ok(quot.as_u128())
    } else {
        Err(HfError::MathOverflow)
    }
}

/// Basis points in Q64.64: `floor(bps * 2^64 / 10000)`. Never fails: the
/// largest `u16` gives a value below 7.0.
pub fn bps_to_q64(bps: u16) -> (r: Result<u128, HfError>)
    ensures
        r == Ok::<u128, HfError>(bps_floor(bps as int) as u128),
        0 <= bps_floor(bps as int) <= u128::MAX,
{
    mul_div_q64(bps as u128, ONE_Q64_64, BPS_DENOMINATOR)
}

/// A raw token amount that carries `decimals` implied fractional digits, in
/// Q64.64: `floor(amount * 2^64 / 10^decimals)`.
///
/// Fails with `MathOverflow` exactly when `10^decimals` does not fit in 128
/// bits, that is for `decimals` above 38.
pub fn scale_to_q64(amount: u64, decimals: u8) -> (r: Result<u128, HfError>)
    ensures
        r == scale_to_q64_spec(amount, decimals),
        decimals <= MAX_TEN_POW ==> 0 <= scale_floor(amount as int, decimals as nat) <= u128::MAX,
{
    if decimals > MAX_TEN_POW {
        return Err(HfError::MathOverflow);
    }
    let denom = ten_pow(decimals);
    proof {
        lemma_ten_pow_fits(decimals as nat);
        lemma_scale_bounded(amount as int, denom as int);
    }
    mul_div_q64(amount as u128, ONE_Q64_64, denom)
}

/// A raw oracle price in Q64.64: `floor(price_e8 * 2^64 / 100000)`.
///
/// Fails with `MathOverflow` exactly when the price is negative: an unsigned
/// fixed-point number cannot hold it.
pub fn q64_from_price_e8(price_e8: i64) -> (r: Result<u128, HfError>)
    ensures
        r == q64_from_price_e8_spec(price_e8),
        price_e8 >= 0 ==> 0 <= price_floor(price_e8 as int) <= u128::MAX,
{
    if price_e8 < 0 {
        return Err(HfError::MathOverflow);
    }
    proof {
        lemma_scale_bounded(price_e8 as int, PRICE_SCALE as int);
    }
    mul_div_q64(price_e8 as u128, ONE_Q64_64, PRICE_SCALE)
}

/// A 64-bit value times 2^64, divided by a positive number, fits in 128 bits.
proof fn lemma_scale_bounded(x: int, d: int)
    requires
        0 <= x < 0x1_0000_0000_0000_0000,
        d >= 1,
    ensures
        0 <= (x * (ONE_Q64_64 as int)) / d <= u128::MAX,
{
    let n = x * (ONE_Q64_64 as int);
    assert(0 <= n <= 0xffff_ffff_ffff_ffff * 0x1_0000_0000_0000_0000) by (nonlinear_arith)
        requires
            0 <= x <= 0xffff_ffff_ffff_ffff,
            n == x * 0x1_0000_0000_0000_0000,
    ;
    vstd::arithmetic::div_mod::lemma_div_nonincreasing(n, d);
    vstd::arithmetic::div_mod::lemma_div_pos_is_pos(n, d);
}

/// `q64_mul_floor` is nonnegative on nonnegative arguments, and does not
/// decrease when its first argument grows.
pub proof fn lemma_q64_mul_monotone(a1: int, a2: int, b: int)
    requires
        0 <= a1 <= a2,
        0 <= b,
    ensures
        0 <= q64_mul_floor(a1, b) <= q64_mul_floor(a2, b),
{
    vstd::arithmetic::mul::lemma_mul_nonnegative(a1, b);
    vstd::arithmetic::mul::lemma_mul_inequality(a1, a2, b);
    vstd::arithmetic::div_mod::lemma_div_pos_is_pos(a1 * b, ONE_Q64_64 as int);
    vstd::arithmetic::div_mod::lemma_div_is_ordered(a1 * b, a2 * b, ONE_Q64_64 as int);
}

/// `q64_div_floor` is nonnegative on a nonnegative numerator, and does not
/// decrease when the numerator grows.
pub proof fn lemma_q64_div_monotone(a1: int, a2: int, b: int)
    requires
        0 <= a1 <= a2,
        0 < b,
    ensures
        0 <= q64_div_floor(a1, b) <= q64_div_floor(a2, b),
{
    vstd::arithmetic::mul::lemma_mul_nonnegative(a1, ONE_Q64_64 as int);
    vstd::arithmetic::mul::lemma_mul_inequality(a1, a2, ONE_Q64_64 as int);
    vstd::arithmetic::div_mod::lemma_div_pos_is_pos(a1 * (ONE_Q64_64 as int), b);
    vstd::arithmetic::div_mod::lemma_div_is_ordered(
        a1 * (ONE_Q64_64 as int),
        a2 * (ONE_Q64_64 as int),
        b,
    );
}

/// `q64_div_floor` does not increase when the divisor grows.
pub proof fn lemma_q64_div_antitone(a: int, b1: int, b2: int)
    requires
        0 <= a,
        0 < b1 <= b2,
    ensures
        q64_div_floor(a, b2) <= q64_div_floor(a, b1),
{
    vstd::arithmetic::mul::lemma_mul_nonnegative(a, ONE_Q64_64 as int);
    vstd::arithmetic::div_mod::lemma_div_is_ordered_by_denominator(
        a * (ONE_Q64_64 as int),
        b1,
        b2,
    );
}

/// `scale_floor` is nonnegative on a nonnegative amount, and does not
/// decrease when the amount grows.
pub proof fn lemma_scale_monotone(a1: int, a2: int, decimals: nat)
    requires
        0 <= a1 <= a2,
    ensures
        0 <= scale_floor(a1, decimals) <= scale_floor(a2, decimals),
{
    vstd::arithmetic::power::lemma_pow_positive(10, decimals);
    vstd::arithmetic::mul::lemma_mul_nonnegative(a1, ONE_Q64_64 as int);
    vstd::arithmetic::mul::lemma_mul_inequality(a1, a2, ONE_Q64_64 as int);
    vstd::arithmetic::div_mod::lemma_div_pos_is_pos(a1 * (ONE_Q64_64 as int), pow(10, decimals));
    vstd::arithmetic::div_mod::lemma_div_is_ordered(
        a1 * (ONE_Q64_64 as int),
        a2 * (ONE_Q64_64 as int),
        pow(10, decimals),
    );
}

/// The overflow boundary of the fixed-point product: `q64_mul` succeeds
/// exactly when the full product is below 2^192, so that the largest
/// representable result is still returned and the next one up is not.
pub proof fn lemma_q64_mul_boundary(a: u128, b: u128)
    ensures
        q64_mul_spec(a, b) is Ok <==> a * b < crate::wide::two_192(),
{
    lemma_product_fits(a, b);
    let p = a * b;
    assert(p / 0x1_0000_0000_0000_0000 <= 0xffff_ffff_ffff_ffff_ffff_ffff_ffff_ffff <==> p
        < 0x1_0000_0000_0000_0000_0000_0000_0000_0000_0000_0000_0000_0000int);
}

/// The overflow boundary of the fixed-point quotient: `q64_div` by a nonzero
/// divisor succeeds exactly when the shifted numerator is below the divisor
/// times 2^128.
pub proof fn lemma_q64_div_boundary(a: u128, b: u128)
    requires
        b != 0,
    ensures
        q64_div_spec(a, b) is Ok <==> a * ONE_Q64_64 < b * crate::wide::two_128(),
{
    lemma_product_fits(a, ONE_Q64_64);
    let n = a * ONE_Q64_64;
    let limit = 0x1_0000_0000_0000_0000_0000_0000_0000_0000int;
    vstd::arithmetic::div_mod::lemma_fundamental_div_mod(n, b as int);
    vstd::arithmetic::div_mod::lemma_mod_bound(n, b as int);
    vstd::arithmetic::div_mod::lemma_div_pos_is_pos(n, b as int);
    let q = n / (b as int);
    if q < limit {
        assert(b * q <= b * (limit - 1)) by (nonlinear_arith)
            requires
                0 <= q <= limit - 1,
                b >= 0,
        ;
        assert(b * (limit - 1) == b * limit - b) by (nonlinear_arith);
    } else {
        assert(b * q >= b * limit) by (nonlinear_arith)
            requires
                q >= limit,
                b >= 0,
        ;
    }
}

} // verus!
