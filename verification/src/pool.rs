//! Constant-product pool math of the synthetic liquidity pool, and the checks
//! that tell whether a swap pushes the pool price further from its oracle peg.
use vstd::prelude::*;
use crate::constants::{FEE_MULTIPLIER, PRICE_PRECISION};
use crate::fixed_point::{u128_wide_mul_floor, u128_wide_mul_ceil, fixed_div_round, div_round_spec, ceil_div};
use soroban_sdk::Env;

verus! {

/// Errors of the synthetic liquidity pool contract.
#[derive(Clone, Copy, Debug, PartialEq, Eq, Structural)]
pub enum LiquidityPoolError {
    AlreadyInitialized,
    PlaneAlreadyInitialized,
    RewardsAlreadyInitialized,
    InvariantDoesNotHold,
    PoolDepositKilled,
    PoolSwapKilled,
    PoolClaimKilled,
    FutureShareIdNotSet,
    SinkDepositFailure,
    SinkWithdrawFailure,
    InvalidTokenADelta,
    BonusClaimTooEarly,
    InsufficientBonusReserve,
    NoBonusToClaim,
    NoTaxTableFound,
    NoBonusTableFound,
}

impl LiquidityPoolError {
    /// The contract error code of this failure.
    pub fn code(&self) -> (c: u32)
        ensures
            c == match *self {
                LiquidityPoolError::AlreadyInitialized => 201u32,
                LiquidityPoolError::PlaneAlreadyInitialized => 202,
                LiquidityPoolError::RewardsAlreadyInitialized => 203,
                LiquidityPoolError::InvariantDoesNotHold => 204,
                LiquidityPoolError::PoolDepositKilled => 205,
                LiquidityPoolError::PoolSwapKilled => 206,
                LiquidityPoolError::PoolClaimKilled => 207,
                LiquidityPoolError::FutureShareIdNotSet => 208,
                LiquidityPoolError::SinkDepositFailure => 209,
                LiquidityPoolError::SinkWithdrawFailure => 210,
                LiquidityPoolError::InvalidTokenADelta => 211,
                LiquidityPoolError::BonusClaimTooEarly => 212,
                LiquidityPoolError::InsufficientBonusReserve => 213,
                LiquidityPoolError::NoBonusToClaim => 214,
                LiquidityPoolError::NoTaxTableFound => 215,
                LiquidityPoolError::NoBonusTableFound => 216,
            },
    {
        match self {
            LiquidityPoolError::AlreadyInitialized => 201,
            LiquidityPoolError::PlaneAlreadyInitialized => 202,
            LiquidityPoolError::RewardsAlreadyInitialized => 203,
            LiquidityPoolError::InvariantDoesNotHold => 204,
            LiquidityPoolError::PoolDepositKilled => 205,
            LiquidityPoolError::PoolSwapKilled => 206,
            LiquidityPoolError::PoolClaimKilled => 207,
            LiquidityPoolError::FutureShareIdNotSet => 208,
            LiquidityPoolError::SinkDepositFailure => 209,
            LiquidityPoolError::SinkWithdrawFailure => 210,
            LiquidityPoolError::InvalidTokenADelta => 211,
            LiquidityPoolError::BonusClaimTooEarly => 212,
            LiquidityPoolError::InsufficientBonusReserve => 213,
            LiquidityPoolError::NoBonusToClaim => 214,
            LiquidityPoolError::NoTaxTableFound => 215,
            LiquidityPoolError::NoBonusTableFound => 216,
        }
    }
}

/// Validation failures of pool operations. `MathOverflow` stands for an
/// intermediate value that does not fit in `u128`, or a zero divisor.
#[derive(Clone, Copy, Debug, PartialEq, Eq, Structural)]
pub enum PoolValidationError {
    InvalidDepositAmount,
    InsufficientBalance,
    OutTokenOutOfBounds,
    MathOverflow,
}

/// The outcome of a deposit: the amounts taken so that they match the reserve ratio.
pub open spec fn deposit_outcome(desired_a: u128, min_a: u128, desired_b: u128, min_b: u128, reserve_a: u128, reserve_b: u128) -> Result<(u128, u128), PoolValidationError> {
    let amount_b = (desired_a * reserve_b) / (reserve_a as int);
    let amount_a = (desired_b * reserve_a) / (reserve_b as int);
    if reserve_a == 0 && reserve_b == 0 {
        Ok((desired_a, desired_b))
    } else if reserve_a == 0 {
        Err(PoolValidationError::MathOverflow)
    } else if amount_b <= desired_b {
        if amount_b < min_b {
            Err(PoolValidationError::InvalidDepositAmount)
        } else {
            Ok((desired_a, amount_b as u128))
        }
    } else if amount_a > desired_a || amount_a < min_a {
        Err(PoolValidationError::InvalidDepositAmount)
    } else {
        Ok((amount_a as u128, desired_b))
    }
}

/// Amounts to deposit into a pool with reserves `(reserve_a, reserve_b)`: an empty
/// pool takes what is desired; otherwise one side is taken as desired and the other
/// in the reserve ratio (floored), which must not fall below its minimum. A pool
/// with only its `a` reserve empty fails with `MathOverflow` (a zero divisor).
pub fn get_deposit_amounts(
    e: &Env,
    desired_a: u128,
    min_a: u128,
    desired_b: u128,
    min_b: u128,
    reserve_a: u128,
    reserve_b: u128,
) -> (r: Result<(u128, u128), PoolValidationError>)
    requires
        reserve_a > 0 ==> (desired_a * reserve_b) / (reserve_a as int) <= u128::MAX,
    ensures
        r == deposit_outcome(desired_a, min_a, desired_b, min_b, reserve_a, reserve_b),
{
    if reserve_a == 0 && reserve_b == 0 {
        return Ok((desired_a, desired_b));
    }
    if reserve_a == 0 {
        return Err(PoolValidationError::MathOverflow);
    }
    let amount_b = u128_wide_mul_floor(e, desired_a, reserve_b, reserve_a);
    if amount_b <= desired_b {
        if amount_b < min_b {
            return Err(PoolValidationError::InvalidDepositAmount);
        }
        Ok((desired_a, amount_b))
    } else {
        proof {
            // the ratio above the desired b bounds the ratio for a by the desired a
            assert(desired_a * reserve_b >= (amount_b as int) * reserve_a) by (nonlinear_arith)
                requires amount_b == (desired_a * reserve_b) / (reserve_a as int), reserve_a > 0;
            assert(desired_b * reserve_a < desired_a * reserve_b) by (nonlinear_arith)
                requires
                    desired_a * reserve_b >= (amount_b as int) * reserve_a,
                    desired_b < amount_b,
                    reserve_a > 0,
            ;
            assert(reserve_b > 0) by (nonlinear_arith)
                requires desired_b * reserve_a < desired_a * reserve_b, desired_b >= 0, reserve_a > 0;
            assert((desired_b * reserve_a) / (reserve_b as int) <= desired_a) by (nonlinear_arith)
                requires desired_b * reserve_a < desired_a * reserve_b, reserve_b > 0, desired_b * reserve_a >= 0;
        }
        let amount_a = u128_wide_mul_floor(e, desired_b, reserve_a, reserve_b);
        if amount_a > desired_a || amount_a < min_a {
            return Err(PoolValidationError::InvalidDepositAmount);
        }
        Ok((amount_a, desired_b))
    }
}

/// The input left after the fee: `in_amount * (FEE_MULTIPLIER - fee) / FEE_MULTIPLIER`.
pub open spec fn after_fee(in_amount: int, fee_fraction: int) -> int {
    in_amount * (FEE_MULTIPLIER - fee_fraction) / FEE_MULTIPLIER as int
}

/// The outcome of selling exactly `in_amount`: the amount bought and the fee kept.
pub open spec fn amount_out_outcome(in_amount: u128, reserve_sell: u128, reserve_buy: u128, fee_fraction: u32) -> Result<(u128, u128), PoolValidationError> {
    let dx = after_fee(in_amount as int, fee_fraction as int);
    if in_amount == 0 {
        Ok((0u128, 0u128))
    } else if fee_fraction > FEE_MULTIPLIER || in_amount * (FEE_MULTIPLIER - fee_fraction) > u128::MAX
        || reserve_sell + dx > u128::MAX || reserve_sell + dx == 0 {
        Err(PoolValidationError::MathOverflow)
    } else {
        Ok((((dx * reserve_buy) / (reserve_sell + dx)) as u128, (in_amount - dx) as u128))
    }
}

/// Sells exactly `in_amount` into the pool: the fee (`fee_fraction / FEE_MULTIPLIER`)
/// is taken on the input, and the rest buys
/// `floor(in_after_fee * reserve_buy / (reserve_sell + in_after_fee))`.
/// Returns the amount bought and the fee.
pub fn get_amount_out(e: &Env, in_amount: u128, reserve_sell: u128, reserve_buy: u128, fee_fraction: u32) -> (r: Result<(u128, u128), PoolValidationError>)
    ensures
        r == amount_out_outcome(in_amount, reserve_sell, reserve_buy, fee_fraction),
{
    if in_amount == 0 {
        return Ok((0, 0));
    }
    let fee_fraction = fee_fraction as u128;
    if fee_fraction > FEE_MULTIPLIER {
        return Err(PoolValidationError::MathOverflow);
    }
    let scaled = match in_amount.checked_mul(FEE_MULTIPLIER - fee_fraction) {
        Some(v) => v,
        None => return Err(PoolValidationError::MathOverflow),
    };
    let in_after_fee = scaled / FEE_MULTIPLIER;
    assert(in_after_fee <= in_amount) by (nonlinear_arith)
        requires
            in_after_fee == in_amount * (10_000 - fee_fraction) / 10_000,
            fee_fraction <= 10_000,
    ;
    let denominator = match reserve_sell.checked_add(in_after_fee) {
        Some(v) => v,
        None => return Err(PoolValidationError::MathOverflow),
    };
    if denominator == 0 {
        return Err(PoolValidationError::MathOverflow);
    }
    proof {
        assert((in_after_fee * reserve_buy) / (denominator as int) <= reserve_buy) by (nonlinear_arith)
            requires denominator == reserve_sell + in_after_fee, denominator > 0, in_after_fee >= 0;
    }
    let raw_out = u128_wide_mul_floor(e, in_after_fee, reserve_buy, denominator);
    Ok((raw_out, in_amount - in_after_fee))
}

/// Whether quoting `out_amount` keeps its intermediate values in `u128`: the net input
/// and the input grossed up for the fee both fit.
pub open spec fn strict_receive_in_range(out_amount: u128, reserve_sell: u128, reserve_buy: u128, fee_fraction: u32) -> bool {
    let net = ceil_div(reserve_sell * out_amount, reserve_buy - out_amount);
    (0 < out_amount < reserve_buy && fee_fraction < FEE_MULTIPLIER) ==> (
        net <= u128::MAX && ceil_div(net * FEE_MULTIPLIER, FEE_MULTIPLIER - fee_fraction) <= u128::MAX)
}

/// The outcome of buying exactly `out_amount`: the amount sold and the fee paid.
pub open spec fn strict_receive_outcome(out_amount: u128, reserve_sell: u128, reserve_buy: u128, fee_fraction: u32) -> Result<(u128, u128), PoolValidationError> {
    let net = ceil_div(reserve_sell * out_amount, reserve_buy - out_amount);
    let gross = ceil_div(net * FEE_MULTIPLIER, FEE_MULTIPLIER - fee_fraction);
    if out_amount == 0 {
        Ok((0u128, 0u128))
    } else if out_amount >= reserve_buy {
        Err(PoolValidationError::InsufficientBalance)
    } else if fee_fraction >= FEE_MULTIPLIER {
        Err(PoolValidationError::MathOverflow)
    } else {
        Ok((gross as u128, (gross - net) as u128))
    }
}

/// Buys exactly `out_amount` from the pool: the net input is
/// `ceil(reserve_sell * out_amount / (reserve_buy - out_amount))`, grossed up for the
/// fee with `ceil(net * FEE_MULTIPLIER / (FEE_MULTIPLIER - fee))`.
/// Returns the amount to sell and the fee.
pub fn get_amount_out_strict_receive(e: &Env, out_amount: u128, reserve_sell: u128, reserve_buy: u128, fee_fraction: u32) -> (r: Result<(u128, u128), PoolValidationError>)
    requires
        strict_receive_in_range(out_amount, reserve_sell, reserve_buy, fee_fraction),
    ensures
        r == strict_receive_outcome(out_amount, reserve_sell, reserve_buy, fee_fraction),
{
    if out_amount == 0 {
        return Ok((0, 0));
    }
    if out_amount >= reserve_buy {
        return Err(PoolValidationError::InsufficientBalance);
    }
    let fee = fee_fraction as u128;
    if fee >= FEE_MULTIPLIER {
        return Err(PoolValidationError::MathOverflow);
    }
    let dx_after_fee = u128_wide_mul_ceil(e, reserve_sell, out_amount, reserve_buy - out_amount);
    let dx_before_fee = u128_wide_mul_ceil(e, dx_after_fee, FEE_MULTIPLIER, FEE_MULTIPLIER - fee);
    proof {
        lemma_ceil_gross_up(dx_after_fee as int, fee as int);
    }
    Ok((dx_before_fee, dx_before_fee - dx_after_fee))
}

/// Grossing up a net amount for a fee below 100% never lowers it, and the result
/// times the share left after the fee covers the net amount.
proof fn lemma_ceil_gross_up(net: int, fee: int)
    requires
        net >= 0,
        0 <= fee < 10_000,
    ensures
        ceil_div(net * 10_000, 10_000 - fee) >= net,
        ceil_div(net * 10_000, 10_000 - fee) * (10_000 - fee) >= net * 10_000,
{
    let d = 10_000 - fee;
    let g = ceil_div(net * 10_000, d);
    lemma_ceil_div_covers(net * 10_000, d);
    assert(g >= net) by (nonlinear_arith)
        requires g * d >= net * 10_000, 0 < d <= 10_000, net >= 0;
}

/// `ceil(n / d)` times `d` covers `n`, and is non-negative for `n >= 0`.
proof fn lemma_ceil_div_covers(n: int, d: int)
    requires
        n >= 0,
        d > 0,
    ensures
        ceil_div(n, d) * d >= n,
        ceil_div(n, d) >= 0,
{
    let q = (n + d - 1) / d;
    assert(q * d >= n && q >= 0) by (nonlinear_arith)
        requires q == (n + d - 1) / d, n >= 0, d > 0;
}

/// `numerator / denominator` in `PRICE_PRECISION` units, rounded, with 0 for an empty side.
pub open spec fn ratio_price(numerator: int, denominator: int) -> int {
    div_round_spec(numerator, denominator, PRICE_PRECISION as int)
}

/// Price of the synthetic token in the pool: 0 while either reserve is empty.
pub fn pool_price(reserve_a: u128, reserve_b: u128, token_a_synthetic: bool) -> (r: Result<u128, PoolValidationError>)
    ensures
        (reserve_a == 0 || reserve_b == 0) ==> r == Ok::<u128, PoolValidationError>(0),
        r matches Ok(v) ==> (reserve_a == 0 || reserve_b == 0 || v == if token_a_synthetic {
            ratio_price(reserve_b as int, reserve_a as int)
        } else {
            ratio_price(reserve_a as int, reserve_b as int)
        }),
        r is Err <==> (reserve_a != 0 && reserve_b != 0
            && (if token_a_synthetic { reserve_b * PRICE_PRECISION > u128::MAX } else { reserve_a * PRICE_PRECISION > u128::MAX })),
        r is Err ==> r == Err::<u128, PoolValidationError>(PoolValidationError::MathOverflow),
{
    if reserve_a == 0 || reserve_b == 0 {
        return Ok(0);
    }
    let price = if token_a_synthetic {
        fixed_div_round(reserve_b, reserve_a, PRICE_PRECISION)
    } else {
        fixed_div_round(reserve_a, reserve_b, PRICE_PRECISION)
    };
    match price {
        Some(v) => Ok(v),
        None => Err(PoolValidationError::MathOverflow),
    }
}

/// Peg price from the base and quote oracle TWAPs: `quote / base` when token A is
/// synthetic, `base / quote` otherwise; 0 while either TWAP is zero.
pub fn peg_price(base_twap: u128, quote_twap: u128, token_a_synthetic: bool) -> (r: Result<u128, PoolValidationError>)
    ensures
        (base_twap == 0 || quote_twap == 0) ==> r == Ok::<u128, PoolValidationError>(0),
        r matches Ok(v) ==> (base_twap == 0 || quote_twap == 0 || v == if token_a_synthetic {
            ratio_price(quote_twap as int, base_twap as int)
        } else {
            ratio_price(base_twap as int, quote_twap as int)
        }),
        r is Err <==> (base_twap != 0 && quote_twap != 0
            && (if token_a_synthetic { quote_twap * PRICE_PRECISION > u128::MAX } else { base_twap * PRICE_PRECISION > u128::MAX })),
        r is Err ==> r == Err::<u128, PoolValidationError>(PoolValidationError::MathOverflow),
{
    if base_twap == 0 || quote_twap == 0 {
        return Ok(0);
    }
    let price = if token_a_synthetic {
        fixed_div_round(quote_twap, base_twap, PRICE_PRECISION)
    } else {
        fixed_div_round(base_twap, quote_twap, PRICE_PRECISION)
    };
    match price {
        Some(v) => Ok(v),
        None => Err(PoolValidationError::MathOverflow),
    }
}

/// `price_a - price_b` as a signed value.
pub fn calculate_price_difference(price_a: u128, price_b: u128) -> (r: i128)
    requires
        price_a <= i128::MAX,
        price_b <= i128::MAX,
    ensures
        r == price_a - price_b,
{
    price_a as i128 - price_b as i128
}

/// Whether a swap that pays out token `out_idx` moves the pool price further from
/// the peg: with the pool above the peg, selling the normal token for the synthetic
/// one does; with the pool below the peg, buying the normal token does.
pub open spec fn risk_increasing(pool_price: int, peg_price: int, out_idx: int, token_a_synthetic: bool) -> bool {
    let buying_normal_token = (token_a_synthetic && out_idx == 0) || (!token_a_synthetic && out_idx == 1);
    if pool_price == 0 || peg_price == 0 || pool_price == peg_price {
        false
    } else if pool_price > peg_price {
        !buying_normal_token
    } else {
        buying_normal_token
    }
}

/// Tells whether a swap paying out token `out_idx` (0 or 1) increases the distance
/// of the pool price from the peg. Fails with `OutTokenOutOfBounds` for another index.
pub fn is_swap_risk_increasing(pool_price: u128, peg_price: u128, out_idx: u32, token_a_synthetic: bool) -> (r: Result<bool, PoolValidationError>)
    requires
        pool_price != 0 && peg_price != 0 && out_idx <= 1 ==> pool_price <= i128::MAX && peg_price <= i128::MAX,
    ensures
        (pool_price == 0 || peg_price == 0) ==> r == Ok::<bool, PoolValidationError>(false),
        (pool_price != 0 && peg_price != 0 && out_idx > 1) ==> r == Err::<bool, PoolValidationError>(
            PoolValidationError::OutTokenOutOfBounds),
        out_idx <= 1 ==> r == Ok::<bool, PoolValidationError>(
            risk_increasing(pool_price as int, peg_price as int, out_idx as int, token_a_synthetic)),
{
    if pool_price == 0 || peg_price == 0 {
        return Ok(false);
    }
    if out_idx > 1 {
        return Err(PoolValidationError::OutTokenOutOfBounds);
    }
    let price_diff = calculate_price_difference(pool_price, peg_price);
    if price_diff == 0 {
        return Ok(false);
    }
    let buying_normal_token = (token_a_synthetic && out_idx == 0) || (!token_a_synthetic && out_idx == 1);
    if price_diff > 0 {
        Ok(!buying_normal_token)
    } else {
        Ok(buying_normal_token)
    }
}

/// Selling into the pool never lowers the constant product of the reserves, and
/// never buys the whole opposite reserve when the pool has input liquidity.
pub proof fn lemma_swap_keeps_product(in_amount: u128, reserve_sell: u128, reserve_buy: u128, fee_fraction: u32)
    requires
        amount_out_outcome(in_amount, reserve_sell, reserve_buy, fee_fraction) is Ok,
    ensures
        ({
            let (out, fee) = amount_out_outcome(in_amount, reserve_sell, reserve_buy, fee_fraction).unwrap();
            let dx = in_amount - fee;
            &&& out <= reserve_buy
            &&& (reserve_sell + dx) * (reserve_buy - out) >= reserve_sell * reserve_buy
            &&& (reserve_sell > 0 ==> out < reserve_buy || reserve_buy == 0)
        }),
{
    if in_amount != 0 {
        let x = reserve_sell as int;
        let y = reserve_buy as int;
        let dx = after_fee(in_amount as int, fee_fraction as int);
        let out = (dx * y) / (x + dx);
        assert(0 <= dx <= in_amount) by (nonlinear_arith)
            requires dx == in_amount * (10_000 - fee_fraction) / 10_000, fee_fraction <= 10_000;
        assert(out * (x + dx) <= dx * y) by (nonlinear_arith)
            requires out == (dx * y) / (x + dx), x + dx > 0, dx >= 0, y >= 0;
        assert(out <= y) by (nonlinear_arith)
            requires out * (x + dx) <= dx * y, x >= 0, dx >= 0, y >= 0, x + dx > 0;
        assert((x + dx) * (y - out) >= x * y) by (nonlinear_arith)
            requires out * (x + dx) <= dx * y, x >= 0, dx >= 0;
        if x > 0 && y > 0 {
            assert(out < y) by (nonlinear_arith)
                requires out * (x + dx) <= dx * y, x > 0, dx >= 0, y > 0;
        }
    }
}

/// Buying exactly `out_amount` charges enough that the constant product of the
/// reserves does not fall.
pub proof fn lemma_strict_receive_keeps_product(out_amount: u128, reserve_sell: u128, reserve_buy: u128, fee_fraction: u32)
    requires
        strict_receive_in_range(out_amount, reserve_sell, reserve_buy, fee_fraction),
        strict_receive_outcome(out_amount, reserve_sell, reserve_buy, fee_fraction) is Ok,
    ensures
        ({
            let (dx_before, fee) = strict_receive_outcome(out_amount, reserve_sell, reserve_buy, fee_fraction).unwrap();
            let dx_after = dx_before - fee;
            (reserve_sell + dx_after) * (reserve_buy - out_amount) >= reserve_sell * reserve_buy
        }),
{
    if out_amount != 0 {
        let x = reserve_sell as int;
        let y = reserve_buy as int;
        let o = out_amount as int;
        assert(x * o >= 0) by (nonlinear_arith) requires x >= 0, o >= 0;
        lemma_ceil_div_covers(x * o, y - o);
        let d = ceil_div(x * o, y - o);
        lemma_ceil_gross_up(d, fee_fraction as int);
        assert((x + d) * (y - o) >= x * y) by (nonlinear_arith)
            requires d * (y - o) >= x * o;
    }
}

/// Paying the input that `get_amount_out_strict_receive` quotes for `out_amount`
/// buys at least `out_amount` through `get_amount_out`, as long as the pool has input
/// liquidity and that sale does not overflow; the quoted fee is the quoted input
/// minus the net input `ceil(reserve_sell * out_amount / (reserve_buy - out_amount))`.
pub proof fn lemma_strict_receive_round_trip(out_amount: u128, reserve_sell: u128, reserve_buy: u128, fee_fraction: u32)
    requires
        0 < out_amount,
        0 < reserve_sell,
        strict_receive_in_range(out_amount, reserve_sell, reserve_buy, fee_fraction),
        strict_receive_outcome(out_amount, reserve_sell, reserve_buy, fee_fraction) is Ok,
        amount_out_outcome(
            strict_receive_outcome(out_amount, reserve_sell, reserve_buy, fee_fraction).unwrap().0,
            reserve_sell,
            reserve_buy,
            fee_fraction,
        ) is Ok,
    ensures
        ({
            let (dx, fee) = strict_receive_outcome(out_amount, reserve_sell, reserve_buy, fee_fraction).unwrap();
            let (bought, _) = amount_out_outcome(dx, reserve_sell, reserve_buy, fee_fraction).unwrap();
            &&& bought >= out_amount
            &&& fee == dx - ceil_div(reserve_sell * out_amount, reserve_buy - out_amount)
        }),
{
    let x = reserve_sell as int;
    let y = reserve_buy as int;
    let o = out_amount as int;
    let f = fee_fraction as int;
    assert(x * o >= 0) by (nonlinear_arith) requires x >= 0, o >= 0;
    lemma_ceil_div_covers(x * o, y - o);
    let d = ceil_div(x * o, y - o);
    lemma_ceil_gross_up(d, f);
    let b = ceil_div(d * 10_000, 10_000 - f);
    assert(d > 0) by (nonlinear_arith)
        requires d * (y - o) >= x * o, x > 0, o > 0, y - o > 0;
    let net = after_fee(b, f);
    assert(net >= d) by (nonlinear_arith)
        requires net == b * (10_000 - f) / 10_000, b * (10_000 - f) >= d * 10_000, 0 <= f < 10_000;
    let bought = (net * y) / (x + net);
    assert(net * (y - o) >= x * o) by (nonlinear_arith)
        requires d * (y - o) >= x * o, net >= d, y - o > 0;
    assert(net * y >= o * (x + net)) by (nonlinear_arith)
        requires net * (y - o) >= x * o;
    assert(bought >= o) by (nonlinear_arith)
        requires bought == (net * y) / (x + net), net * y >= o * (x + net), x + net > 0;
    let (dx, fee) = strict_receive_outcome(out_amount, reserve_sell, reserve_buy, fee_fraction).unwrap();
    assert(b <= u128::MAX);
    assert(dx == b);
    assert(fee == b - d);
    assert(after_fee(dx as int, f) == net);
    assert(bought <= y) by (nonlinear_arith)
        requires bought == (net * y) / (x + net), net >= 0, x >= 0, y >= 0, x + net > 0;
}

} // verus!
