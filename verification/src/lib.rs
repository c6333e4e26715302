//! Health-factor engine for a lending protocol: Q64.64 fixed-point
//! primitives, per-asset input validation, and the aggregation of collateral
//! and debt positions into one risk ratio.

pub mod engine;
pub mod error;
pub mod fixed;
pub mod input;
pub mod laws;
pub mod wide;

pub use engine::{
    collateral_value, compute_hf_internal, debt_value, resolve_health_factor,
    total_collateral_value, total_debt_value, HF_UNBOUNDED,
};
pub use error::HfError;
pub use fixed::{
    bps_to_q64, mul_div_q64, q64_div, q64_from_price_e8, q64_mul, scale_to_q64, ten_pow,
    BPS_DENOMINATOR, MAX_TEN_POW, ONE_Q64_64, PRICE_SCALE,
};
pub use input::{
    check_borrow_factor, check_decimals, check_liq_threshold, check_price, CollateralInput,
    ComputeArgs, DebtInput, MAX_BPS, MAX_DECIMALS, MIN_BORROW_FACTOR_BPS,
};
