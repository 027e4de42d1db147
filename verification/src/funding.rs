//! Funding between the long and the short side of a pair: when the two pool
//! prices drift from their ideal prices in opposite directions, arbitrage cannot
//! close the gap and a funding rate moves value from the overpriced side to the
//! underpriced one through cumulative funding indexes.
use vstd::prelude::*;
use crate::constants::{
    FUNDING_RATE_BUFFER, ONE_HOUR, PERCENTAGE_PRECISION_U64, PERCENT_MULTIPLIER, PRICE_PRECISION,
    TWENTY_FOUR_HOUR,
};
use crate::fixed_point::{i128_fixed_div_floor, fixed_div_round, div_round_spec};
use crate::ln::trunc_div;
use crate::pair::LongShortPairError;

verus! {

/// Whether the price deltas of the two pools point in opposite directions, which
/// arbitrage cannot fix, so that funding must be applied.
pub open spec fn deltas_require_funding(delta_long: int, delta_short: int) -> bool {
    (delta_long > 0 && delta_short < 0) || (delta_long < 0 && delta_short > 0)
}

/// If the price deltas are opposite, arbitrage will not naturally fix them and the
/// funding rate must be applied; otherwise it is zero.
pub fn do_deltas_require_funding(delta_long: i64, delta_short: i64) -> (r: bool)
    ensures
        r == deltas_require_funding(delta_long as int, delta_short as int),
{
    (delta_long > 0 && delta_short < 0) || (delta_long < 0 && delta_short > 0)
}

/// Ideal price of a pool whose side receives `pct` of the collateral:
/// `collateral_per_pair * (PERCENT_MULTIPLIER - pct) / PERCENT_MULTIPLIER`.
pub open spec fn ideal_price(collateral_per_pair: int, pct: int) -> int {
    collateral_per_pair * (PERCENT_MULTIPLIER - pct) / PERCENT_MULTIPLIER as int
}

/// Signed deviation of `price` from `ideal` in `PERCENT_MULTIPLIER` units, floored,
/// with the price read as an `i128` and the result as an `i64`, both by
/// two's-complement wrapping.
pub open spec fn delta_pct(price: u128, ideal: int) -> int {
    (((((price as i128) as int - ideal) * PERCENT_MULTIPLIER) / ideal) as i64) as int
}

/// Whether one pool's deviation can be computed: the ideal price is positive and fits
/// in `i128`, and the difference and its scaled value fit in `i128`.
pub open spec fn delta_in_range(price: u128, ideal: int) -> bool {
    &&& 0 < ideal <= i128::MAX
    &&& i128::MIN <= (price as i128) as int - ideal <= i128::MAX
    &&& i128::MIN <= ((price as i128) as int - ideal) * PERCENT_MULTIPLIER <= i128::MAX
}

/// Funding rate for a clamped imbalance: `imbalance * FUNDING_RATE_BUFFER / PERCENT_MULTIPLIER / period_adjustment`,
/// each division truncating toward zero.
pub open spec fn rate_for(clamped: int, period_adjustment: int) -> int {
    trunc_div(trunc_div(clamped * FUNDING_RATE_BUFFER, PERCENT_MULTIPLIER as int), period_adjustment)
}

/// `imbalance` clamped into `[-max, max]`.
pub open spec fn clamp_imbalance(imbalance: int, max: int) -> int {
    if imbalance < -max { -max } else if imbalance > max { max } else { imbalance }
}

/// The outcome of computing the funding rate: the rate and whether funding applies.
pub open spec fn funding_rate_outcome(
    long_pool_price: int,
    short_pool_price: int,
    collateral_percent_long: int,
    period_adjustment: int,
    collateral_per_pair: int,
    funding_clamp: int,
) -> Result<(i64, bool), LongShortPairError> {
    let pct_short = PERCENT_MULTIPLIER - collateral_percent_long;
    let long_ideal = ideal_price(collateral_per_pair, collateral_percent_long);
    let short_ideal = ideal_price(collateral_per_pair, pct_short);
    let dl = delta_pct(long_pool_price as u128, long_ideal);
    let ds = delta_pct(short_pool_price as u128, short_ideal);
    let clamped = clamp_imbalance(dl - ds, funding_clamp);
    if collateral_percent_long > PERCENT_MULTIPLIER {
        Err(LongShortPairError::InvalidCalculatorValue)
    } else if collateral_per_pair * (PERCENT_MULTIPLIER - collateral_percent_long) > u128::MAX
        || collateral_per_pair * collateral_percent_long > u128::MAX
        || !delta_in_range(long_pool_price as u128, long_ideal)
        || !delta_in_range(short_pool_price as u128, short_ideal)
        || !(i64::MIN <= dl - ds <= i64::MAX) {
        Err(LongShortPairError::MathOverflow)
    } else if !deltas_require_funding(dl, ds) {
        Ok((0i64, false))
    } else if funding_clamp < 0 || !(i64::MIN <= clamped * FUNDING_RATE_BUFFER <= i64::MAX)
        || period_adjustment == 0 {
        Err(LongShortPairError::MathOverflow)
    } else {
        Ok((rate_for(clamped, period_adjustment) as i64, true))
    }
}

/// Deviation of `price` from `ideal`, in `PERCENT_MULTIPLIER` units.
fn price_delta_pct(price: u128, ideal: u128) -> (r: Result<i64, LongShortPairError>)
    ensures
        delta_in_range(price, ideal as int) ==> r == Ok::<i64, LongShortPairError>(
            delta_pct(price, ideal as int) as i64),
        !delta_in_range(price, ideal as int) ==> r == Err::<i64, LongShortPairError>(
            LongShortPairError::MathOverflow),
{
    if ideal > i128::MAX as u128 || ideal == 0 {
        return Err(LongShortPairError::MathOverflow);
    }
    let p: i128 = #[verifier::truncate] (price as i128);
    let i = ideal as i128;
    let delta = match p.checked_sub(i) {
        Some(d) => d,
        None => return Err(LongShortPairError::MathOverflow),
    };
    let pct = match i128_fixed_div_floor(delta, i, PERCENT_MULTIPLIER as i128) {
        Some(v) => v,
        None => return Err(LongShortPairError::MathOverflow),
    };
    assert(i128::MIN <= (delta * PERCENT_MULTIPLIER) / (ideal as int) <= i128::MAX) by (nonlinear_arith)
        requires
            i128::MIN <= delta * PERCENT_MULTIPLIER <= i128::MAX,
            ideal >= 1,
    ;
    assert(pct == (delta * PERCENT_MULTIPLIER) / (ideal as int));
    assert(p as int == (price as i128) as int);
    let r: i64 = #[verifier::truncate] (pct as i64);
    Ok(r)
}

/// Computes the funding rate from the two pool prices: each pool's deviation from
/// its ideal price (`collateral_per_pair` times the other side's settlement share),
/// and, when the deviations are opposite, the clamped imbalance scaled by
/// `FUNDING_RATE_BUFFER / PERCENT_MULTIPLIER` and divided by `period_adjustment`.
/// Returns the rate and whether funding applies.
pub fn calculate_funding_rate(
    long_pool_price: u128,
    short_pool_price: u128,
    collateral_percent_long: u64,
    period_adjustment: i64,
    collateral_per_pair: u128,
    funding_clamp: i128,
) -> (r: Result<(i64, bool), LongShortPairError>)
    ensures
        r == funding_rate_outcome(
            long_pool_price as int,
            short_pool_price as int,
            collateral_percent_long as int,
            period_adjustment as int,
            collateral_per_pair as int,
            funding_clamp as int,
        ),
{
    if collateral_percent_long as u128 > PERCENT_MULTIPLIER {
        return Err(LongShortPairError::InvalidCalculatorValue);
    }
    let collateral_percent_short = PERCENT_MULTIPLIER - collateral_percent_long as u128;
    proof {
        assert(collateral_per_pair * (PERCENT_MULTIPLIER - collateral_percent_long) >= 0) by (nonlinear_arith)
            requires collateral_percent_long <= PERCENT_MULTIPLIER;
        assert(collateral_per_pair * collateral_percent_long >= 0) by (nonlinear_arith);
    }
    let long_product = match collateral_per_pair.checked_mul(PERCENT_MULTIPLIER - collateral_percent_long as u128) {
        Some(v) => v,
        None => return Err(LongShortPairError::MathOverflow),
    };
    let short_product = match collateral_per_pair.checked_mul(PERCENT_MULTIPLIER - collateral_percent_short) {
        Some(v) => v,
        None => return Err(LongShortPairError::MathOverflow),
    };
    let long_pool_ideal_price = long_product / PERCENT_MULTIPLIER;
    let short_pool_ideal_price = short_product / PERCENT_MULTIPLIER;
    let delta_long_pct = price_delta_pct(long_pool_price, long_pool_ideal_price)?;
    let delta_short_pct = price_delta_pct(short_pool_price, short_pool_ideal_price)?;
    let requires_funding = do_deltas_require_funding(delta_long_pct, delta_short_pct);
    let imbalance = match delta_long_pct.checked_sub(delta_short_pct) {
        Some(v) => v,
        None => return Err(LongShortPairError::MathOverflow),
    };
    if !requires_funding {
        return Ok((0i64, requires_funding));
    }
    if funding_clamp < 0 {
        return Err(LongShortPairError::MathOverflow);
    }
    let max_imbalance = funding_clamp;
    let wide = imbalance as i128;
    let clamped_imbalance: i64 = if wide < -max_imbalance {
        -max_imbalance as i64
    } else if wide > max_imbalance {
        max_imbalance as i64
    } else {
        imbalance
    };
    let scaled = match clamped_imbalance.checked_mul(FUNDING_RATE_BUFFER as i64) {
        Some(v) => v,
        None => return Err(LongShortPairError::MathOverflow),
    };
    let scaled = scaled / (PERCENT_MULTIPLIER as i64);
    if period_adjustment == 0 {
        return Err(LongShortPairError::MathOverflow);
    }
    proof {
        assert(scaled != i64::MIN) by (nonlinear_arith)
            requires scaled == trunc_div(clamped_imbalance * 1000, 10000), i64::MIN <= clamped_imbalance * 1000 <= i64::MAX;
    }
    let funding_rate = scaled / period_adjustment;
    Ok((funding_rate, requires_funding))
}

/// The wait from the last update until the next one is due, aligned so that updates
/// land on multiples of `period`: a last update early in its period (at most a third
/// in) waits for the next boundary, a later one for the boundary after that.
pub open spec fn next_update_wait(last_update_ts: int, period: int) -> int {
    if period > 1 {
        let delay = last_update_ts % period;
        if delay != 0 {
            let wait = if delay > period / 3 { 2 * period - delay } else { period - delay };
            if wait > 2 * period { wait - period } else { wait }
        } else {
            period
        }
    } else {
        period
    }
}

/// Two's-complement reading of a `u64` as an `i64`.
pub open spec fn as_i64(x: int) -> int {
    if x > i64::MAX { x - 0x1_0000_0000_0000_0000 } else { x }
}

/// Seconds remaining until the next on-the-hour update is allowed (0 when it is due).
pub open spec fn time_until_update(now: int, last_update_ts: int, period: int) -> int {
    let remaining = as_i64(next_update_wait(last_update_ts, period)) - as_i64(now - last_update_ts);
    if remaining > 0 { remaining } else { 0 }
}

/// Whether `on_the_hour_update` accepts its inputs.
pub open spec fn hour_update_in_range(now: int, last_update_ts: int, period: int) -> bool {
    &&& last_update_ts <= now
    &&& (period > 1 && last_update_ts % period != 0 ==> 2 * period <= u64::MAX)
    &&& i64::MIN <= as_i64(next_update_wait(last_update_ts, period)) - as_i64(now - last_update_ts) <= i64::MAX
}

/// Seconds remaining until the next update, with updates aligned to multiples of
/// `update_period`.
pub fn on_the_hour_update(now: u64, last_update_ts: u64, update_period: u64) -> (r: u64)
    requires
        hour_update_in_range(now as int, last_update_ts as int, update_period as int),
    ensures
        r == time_until_update(now as int, last_update_ts as int, update_period as int),
{
    let time_since_last_update = now - last_update_ts;
    let mut next_update_wait = update_period;
    if update_period > 1 {
        let last_update_delay = last_update_ts % update_period;
        if last_update_delay != 0 {
            let max_delay_for_next_period = update_period / 3;
            let two_funding_periods = update_period * 2;
            if last_update_delay > max_delay_for_next_period {
                next_update_wait = two_funding_periods - last_update_delay;
            } else {
                next_update_wait = update_period - last_update_delay;
            }
            if next_update_wait > two_funding_periods {
                next_update_wait = next_update_wait - update_period;
            }
        }
    }
    let wait = if next_update_wait > i64::MAX as u64 {
        (next_update_wait as i128 - 0x1_0000_0000_0000_0000i128) as i64
    } else {
        next_update_wait as i64
    };
    let since = if time_since_last_update > i64::MAX as u64 {
        (time_since_last_update as i128 - 0x1_0000_0000_0000_0000i128) as i64
    } else {
        time_since_last_update as i64
    };
    let remaining = wait as i128 - since as i128;
    if remaining > 0 {
        remaining as u64
    } else {
        0
    }
}

/// Fails with `FundingWasNotUpdated` unless funding is live and the next update is due.
pub fn validate_funding_rate_update(
    funding_paused: bool,
    current_time: u64,
    last_funding_rate_ts: u64,
    funding_period: u64,
) -> (r: Result<(), LongShortPairError>)
    requires
        hour_update_in_range(current_time as int, last_funding_rate_ts as int, funding_period as int),
    ensures
        r is Ok <==> (!funding_paused && time_until_update(
            current_time as int,
            last_funding_rate_ts as int,
            funding_period as int,
        ) == 0),
        r matches Err(e) ==> e == LongShortPairError::FundingWasNotUpdated,
{
    let time_until_next_update = on_the_hour_update(current_time, last_funding_rate_ts, funding_period);
    if funding_paused || time_until_next_update != 0 {
        return Err(LongShortPairError::FundingWasNotUpdated);
    }
    Ok(())
}

/// `spread * PRICE_PRECISION / other_price`, truncating toward zero.
pub fn calculate_price_delta_pct(spread: i64, other_price: u64) -> (r: i64)
    requires
        0 < other_price <= i64::MAX,
        i64::MIN <= spread * PRICE_PRECISION <= i64::MAX,
    ensures
        r == trunc_div(spread * PRICE_PRECISION, other_price as int),
{
    let scaled = spread * (PRICE_PRECISION as i64);
    proof {
        assert(trunc_div(scaled as int, other_price as int) <= i64::MAX && trunc_div(scaled as int, other_price as int) >= i64::MIN) by (nonlinear_arith)
            requires i64::MIN <= scaled <= i64::MAX, other_price >= 1;
    }
    scaled / (other_price as i64)
}

/// Whether a ratio spread exceeds the allowed divergence, which is at least 10%.
pub open spec fn too_divergent(ratio_spread_pct: int, max_ratio_percent_divergence: int) -> bool {
    let max_divergence = if max_ratio_percent_divergence > PERCENTAGE_PRECISION_U64 / 10 {
        max_ratio_percent_divergence
    } else {
        (PERCENTAGE_PRECISION_U64 / 10) as int
    };
    (if ratio_spread_pct < 0 { -ratio_spread_pct } else { ratio_spread_pct }) > max_divergence
}

/// Whether `ratio_spread_pct` diverges by more than the larger of
/// `max_ratio_percent_divergence` and 10%.
pub fn is_price_delta_too_divergent(ratio_spread_pct: i64, max_ratio_percent_divergence: u64) -> (r: bool)
    ensures
        r == too_divergent(ratio_spread_pct as int, max_ratio_percent_divergence as int),
{
    let max_divergence = if max_ratio_percent_divergence > PERCENTAGE_PRECISION_U64 / 10 {
        max_ratio_percent_divergence
    } else {
        PERCENTAGE_PRECISION_U64 / 10
    };
    let magnitude: u64 = if ratio_spread_pct < 0 {
        (-(ratio_spread_pct as i128)) as u64
    } else {
        ratio_spread_pct as u64
    };
    magnitude > max_divergence
}

/// Funding parameters and accumulated funding of a pair.
#[derive(Clone, Copy, Debug, PartialEq, Eq, Structural)]
pub struct FundingState {
    pub cumulative_funding_index_long: i64,
    pub cumulative_funding_index_short: i64,
    pub last_funding_rate: i64,
    pub last_24h_avg_funding_rate: i64,
    pub last_funding_rate_ts: u64,
    /// Seconds between funding updates.
    pub funding_period: u64,
    /// Largest imbalance, in `PERCENT_MULTIPLIER` units, that funding compensates.
    pub funding_clamp: i128,
    pub max_ratio_percent_divergence: u64,
    /// When the pair's allocation was last updated.
    pub last_update_ts: u64,
    pub is_killed_update_funding: bool,
}

/// Whether an operation must be blocked: the pair has not been updated for longer than
/// a funding period, the price spread is too divergent, or funding is paused.
pub fn block_operation(state: &FundingState, price_delta_pct: i64, now: u64) -> (r: bool)
    ensures
        r == (now - state.last_update_ts > state.funding_period
            || too_divergent(price_delta_pct as int, state.max_ratio_percent_divergence as int)
            || state.is_killed_update_funding),
{
    let is_spread_pct_too_divergent = is_price_delta_too_divergent(price_delta_pct, state.max_ratio_percent_divergence);
    let seconds_since_update = now.saturating_sub(state.last_update_ts);
    proof {
        assert(now - state.last_update_ts > state.funding_period <==> seconds_since_update > state.funding_period);
    }
    seconds_since_update > state.funding_period || is_spread_pct_too_divergent || state.is_killed_update_funding
}

/// Signed weighted average of two data points, rounded towards the newer datum,
/// with divisions truncating toward zero.
pub open spec fn weighted_average_signed(data1: int, data2: int, weight1: int, weight2: int) -> int {
    let prev = data1 * weight1;
    let latest = data2 * weight2;
    let bias = if weight2 > 1 {
        if latest < prev { -1int } else if latest > prev { 1int } else { 0int }
    } else {
        0int
    };
    let twap = trunc_div(prev + latest, weight1 + weight2);
    if weight1 == 0 {
        data2
    } else if weight2 == 0 {
        data1
    } else if twap == 0 && bias < 0 {
        0
    } else {
        twap + bias
    }
}

/// The new average after observing `value` at `now`: the time since `last_ts` weighs
/// the new value, the rest of `period` (at least one second) the old average.
pub open spec fn new_average_signed(value: int, now: int, last_avg: int, last_ts: int, period: int) -> int {
    let since_last = if now - last_ts > 0 { now - last_ts } else { 0 };
    let from_start = if period - since_last > 1 { period - since_last } else { 1 };
    weighted_average_signed(value, last_avg, since_last, from_start)
}

/// Folds `value`, observed at `now`, into the running average of the last `period` seconds.
pub fn calculate_new_average(value: i64, now: u64, last_avg: i64, last_ts: u64, period: u64) -> (r: Option<i64>)
    requires
        period <= i64::MAX,
    ensures
        r matches Some(v) ==> v == new_average_signed(value as int, now as int, last_avg as int, last_ts as int, period as int),
        r is Some <==> (now <= i64::MAX && last_ts <= i64::MAX && i64::MIN <= new_average_signed(
            value as int, now as int, last_avg as int, last_ts as int, period as int) <= i64::MAX),
{
    if now > i64::MAX as u64 || last_ts > i64::MAX as u64 {
        return None;
    }
    let since_last: i128 = if now > last_ts { (now - last_ts) as i128 } else { 0 };
    let from_start: i128 = if period as i128 - since_last > 1 { period as i128 - since_last } else { 1 };
    if since_last == 0 {
        return Some(last_avg);
    }
    proof {
        assert(-0x8000_0000_0000_0000 * 0x7fff_ffff_ffff_ffff <= value * since_last <= 0x8000_0000_0000_0000 * 0x7fff_ffff_ffff_ffff)
            by (nonlinear_arith)
            requires 0 <= since_last <= 0x7fff_ffff_ffff_ffff, i64::MIN <= value <= i64::MAX;
        assert(-0x8000_0000_0000_0000 * 0x7fff_ffff_ffff_ffff <= last_avg * from_start <= 0x8000_0000_0000_0000 * 0x7fff_ffff_ffff_ffff)
            by (nonlinear_arith)
            requires 1 <= from_start <= 0x7fff_ffff_ffff_ffff, i64::MIN <= last_avg <= i64::MAX;
    }
    let prev = (value as i128) * since_last;
    let latest = (last_avg as i128) * from_start;
    let bias: i128 = if from_start > 1 {
        if latest < prev {
            -1
        } else if latest > prev {
            1
        } else {
            0
        }
    } else {
        0
    };
    let twap = (prev + latest) / (since_last + from_start);
    proof {
        assert(-0x8000_0000_0000_0000 * 0x7fff_ffff_ffff_ffff <= twap <= 0x8000_0000_0000_0000 * 0x7fff_ffff_ffff_ffff)
            by (nonlinear_arith)
            requires
                twap == trunc_div(prev + latest, since_last + from_start),
                since_last + from_start >= 2,
                -2 * 0x8000_0000_0000_0000 * 0x7fff_ffff_ffff_ffff <= prev + latest <= 2 * 0x8000_0000_0000_0000 * 0x7fff_ffff_ffff_ffff;
    }
    let avg = if twap == 0 && bias < 0 { twap } else { twap + bias };
    if avg < i64::MIN as i128 || avg > i64::MAX as i128 {
        return None;
    }
    Some(avg as i64)
}

impl FundingState {
    /// The outcome of recording `funding_rate` at `current_time`: when funding applies
    /// the long index falls and the short index rises by the rate, otherwise both reset
    /// to zero; the rate is folded into the 24-hour average.
    pub open spec fn funding_info_outcome(self, requires_funding: bool, funding_rate: i64, current_time: u64) -> Result<FundingState, LongShortPairError> {
        let long = if requires_funding { self.cumulative_funding_index_long - funding_rate } else { 0 };
        let short = if requires_funding { self.cumulative_funding_index_short + funding_rate } else { 0 };
        let avg = new_average_signed(
            funding_rate as int,
            current_time as int,
            self.last_24h_avg_funding_rate as int,
            self.last_funding_rate_ts as int,
            TWENTY_FOUR_HOUR as int,
        );
        if !(i64::MIN <= long <= i64::MAX) || !(i64::MIN <= short <= i64::MAX) || current_time > i64::MAX
            || self.last_funding_rate_ts > i64::MAX || !(i64::MIN <= avg <= i64::MAX) {
            Err(LongShortPairError::MathOverflow)
        } else {
            Ok(FundingState {
                last_funding_rate: funding_rate,
                cumulative_funding_index_long: long as i64,
                cumulative_funding_index_short: short as i64,
                last_24h_avg_funding_rate: avg as i64,
                last_funding_rate_ts: current_time,
                ..self
            })
        }
    }

    /// Records a new funding rate. On failure the state is unchanged.
    pub fn update_funding_info(&mut self, requires_funding: bool, funding_rate: i64, current_time: u64) -> (r: Result<(), LongShortPairError>)
        ensures
            match old(self).funding_info_outcome(requires_funding, funding_rate, current_time) {
                Ok(s) => r is Ok && *final(self) == s,
                Err(e) => r == Err::<(), LongShortPairError>(e) && *final(self) == *old(self),
            },
    {
        let new_funding_index_long = if requires_funding {
            match self.cumulative_funding_index_long.checked_sub(funding_rate) {
                Some(v) => v,
                None => return Err(LongShortPairError::MathOverflow),
            }
        } else {
            0
        };
        let new_funding_index_short = if requires_funding {
            match self.cumulative_funding_index_short.checked_add(funding_rate) {
                Some(v) => v,
                None => return Err(LongShortPairError::MathOverflow),
            }
        } else {
            0
        };
        let avg = match calculate_new_average(
            funding_rate,
            current_time,
            self.last_24h_avg_funding_rate,
            self.last_funding_rate_ts,
            TWENTY_FOUR_HOUR,
        ) {
            Some(v) => v,
            None => return Err(LongShortPairError::MathOverflow),
        };
        self.last_funding_rate = funding_rate;
        self.cumulative_funding_index_long = new_funding_index_long;
        self.cumulative_funding_index_short = new_funding_index_short;
        self.last_24h_avg_funding_rate = avg;
        self.last_funding_rate_ts = current_time;
        Ok(())
    }
}

/// Pool price of a pool with reserves `(a, b)`: `b / a` in `PRICE_PRECISION` units, rounded.
pub open spec fn pool_price_of(reserve_a: int, reserve_b: int) -> int {
    div_round_spec(reserve_b, reserve_a, PRICE_PRECISION as int)
}

/// The outcome of pricing both pools from their reserves.
pub open spec fn pool_prices_outcome(long_reserves: (u128, u128), short_reserves: (u128, u128)) -> Result<(u128, u128), LongShortPairError> {
    if long_reserves.0 == 0 || long_reserves.1 == 0 || short_reserves.0 == 0 || short_reserves.1 == 0 {
        Err(LongShortPairError::FundingRateRequiresPoolLiquidity)
    } else if long_reserves.1 * PRICE_PRECISION > u128::MAX || short_reserves.1 * PRICE_PRECISION > u128::MAX {
        Err(LongShortPairError::MathOverflow)
    } else {
        Ok((
            pool_price_of(long_reserves.0 as int, long_reserves.1 as int) as u128,
            pool_price_of(short_reserves.0 as int, short_reserves.1 as int) as u128,
        ))
    }
}

/// Prices of the long and the short pool from their reserves. Any empty reserve
/// fails with `FundingRateRequiresPoolLiquidity`.
pub fn pool_prices_from_reserves(long_reserves: (u128, u128), short_reserves: (u128, u128)) -> (r: Result<(u128, u128), LongShortPairError>)
    ensures
        r == pool_prices_outcome(long_reserves, short_reserves),
{
    let (long_a, long_b) = long_reserves;
    let (short_a, short_b) = short_reserves;
    if long_a == 0 || long_b == 0 || short_a == 0 || short_b == 0 {
        return Err(LongShortPairError::FundingRateRequiresPoolLiquidity);
    }
    let long_price = match fixed_div_round(long_b, long_a, PRICE_PRECISION) {
        Some(p) => p,
        None => return Err(LongShortPairError::MathOverflow),
    };
    let short_price = match fixed_div_round(short_b, short_a, PRICE_PRECISION) {
        Some(p) => p,
        None => return Err(LongShortPairError::MathOverflow),
    };
    Ok((long_price, short_price))
}

/// How many funding periods fit in a day: `24 hours / max(1 hour, funding_period)`,
/// where a period beyond `i64::MAX` counts as one hour.
pub open spec fn period_adjustment(funding_period: int) -> int {
    let p = if ONE_HOUR < funding_period <= i64::MAX { funding_period } else { ONE_HOUR as int };
    TWENTY_FOUR_HOUR as int / p
}

/// Funding positions of one account: the indexes it last settled at and its balances.
#[derive(Clone, Copy, Debug, PartialEq, Eq, Structural)]
pub struct FundingCheckpoint {
    pub long_index: i64,
    pub short_index: i64,
    pub long_balance: u128,
    pub short_balance: u128,
}

impl FundingCheckpoint {
    /// An empty checkpoint.
    pub fn new() -> (c: FundingCheckpoint)
        ensures
            c == (FundingCheckpoint { long_index: 0, short_index: 0, long_balance: 0, short_balance: 0 }),
    {
        FundingCheckpoint { long_index: 0, short_index: 0, long_balance: 0, short_balance: 0 }
    }

    /// Records a mint of `tokens_to_mint` pairs at the current indexes.
    pub fn mint(&mut self, tokens_to_mint: u128, index_long: i64, index_short: i64) -> (r: Result<(), LongShortPairError>)
        ensures
            (old(self).long_balance + tokens_to_mint <= u128::MAX && old(self).short_balance + tokens_to_mint <= u128::MAX)
                <==> r is Ok,
            r is Ok ==> *final(self) == (FundingCheckpoint {
                long_index: index_long,
                short_index: index_short,
                long_balance: (old(self).long_balance + tokens_to_mint) as u128,
                short_balance: (old(self).short_balance + tokens_to_mint) as u128,
            }),
            r is Err ==> *final(self) == *old(self) && r == Err::<(), LongShortPairError>(LongShortPairError::MathOverflow),
    {
        let long_balance = match self.long_balance.checked_add(tokens_to_mint) {
            Some(v) => v,
            None => return Err(LongShortPairError::MathOverflow),
        };
        let short_balance = match self.short_balance.checked_add(tokens_to_mint) {
            Some(v) => v,
            None => return Err(LongShortPairError::MathOverflow),
        };
        *self = FundingCheckpoint { long_index: index_long, short_index: index_short, long_balance, short_balance };
        Ok(())
    }

    /// Records a redemption of `tokens_to_redeem` pairs at the current indexes.
    pub fn redeem(&mut self, tokens_to_redeem: u128, index_long: i64, index_short: i64) -> (r: Result<(), LongShortPairError>)
        ensures
            (tokens_to_redeem <= old(self).long_balance && tokens_to_redeem <= old(self).short_balance) <==> r is Ok,
            r is Ok ==> *final(self) == (FundingCheckpoint {
                long_index: index_long,
                short_index: index_short,
                long_balance: (old(self).long_balance - tokens_to_redeem) as u128,
                short_balance: (old(self).short_balance - tokens_to_redeem) as u128,
            }),
            r is Err ==> *final(self) == *old(self) && r == Err::<(), LongShortPairError>(LongShortPairError::MathOverflow),
    {
        if tokens_to_redeem > self.long_balance || tokens_to_redeem > self.short_balance {
            return Err(LongShortPairError::MathOverflow);
        }
        *self = FundingCheckpoint {
            long_index: index_long,
            short_index: index_short,
            long_balance: self.long_balance - tokens_to_redeem,
            short_balance: self.short_balance - tokens_to_redeem,
        };
        Ok(())
    }

    /// The funding owed to the account since its checkpoint: the short index's
    /// movement minus the long index's.
    pub open spec fn funding_delta(self, index_long: int, index_short: int) -> int {
        (index_short - self.short_index) - (index_long - self.long_index)
    }

    /// Net funding delta since the checkpoint, or `MathOverflow` when an intermediate
    /// difference does not fit in `i64`.
    pub fn net_funding_delta(&self, index_long: i64, index_short: i64) -> (r: Result<i64, LongShortPairError>)
        ensures
            (i64::MIN <= index_long - self.long_index <= i64::MAX
                && i64::MIN <= index_short - self.short_index <= i64::MAX
                && i64::MIN <= self.funding_delta(index_long as int, index_short as int) <= i64::MAX) <==> r is Ok,
            r matches Ok(v) ==> v == self.funding_delta(index_long as int, index_short as int),
            r matches Err(e) ==> e == LongShortPairError::MathOverflow,
    {
        let long_delta = match index_long.checked_sub(self.long_index) {
            Some(v) => v,
            None => return Err(LongShortPairError::MathOverflow),
        };
        let short_delta = match index_short.checked_sub(self.short_index) {
            Some(v) => v,
            None => return Err(LongShortPairError::MathOverflow),
        };
        match short_delta.checked_sub(long_delta) {
            Some(v) => Ok(v),
            None => Err(LongShortPairError::MathOverflow),
        }
    }
}

/// The outcome of a funding update: the rate and the new state.
pub open spec fn funding_update_outcome(
    state: FundingState,
    funding_paused: bool,
    current_time: u64,
    reserves: Option<((u128, u128), (u128, u128))>,
    collateral_percent_long: u64,
    collateral_per_pair: u128,
) -> Result<(i64, FundingState), LongShortPairError> {
    if funding_paused || time_until_update(
        current_time as int,
        state.last_funding_rate_ts as int,
        state.funding_period as int,
    ) != 0 {
        Err(LongShortPairError::FundingWasNotUpdated)
    } else {
        match reserves {
            None => Err(LongShortPairError::FailedToGetPoolReserves),
            Some((long_reserves, short_reserves)) => match pool_prices_outcome(long_reserves, short_reserves) {
                Err(e) => Err(e),
                Ok((long_price, short_price)) => match funding_rate_outcome(
                    long_price as int,
                    short_price as int,
                    collateral_percent_long as int,
                    period_adjustment(state.funding_period as int),
                    collateral_per_pair as int,
                    state.funding_clamp as int,
                ) {
                    Err(e) => Err(e),
                    Ok((rate, requires_funding)) => match state.funding_info_outcome(requires_funding, rate, current_time) {
                        Err(e) => Err(e),
                        Ok(next) => Ok((rate, next)),
                    },
                },
            },
        }
    }
}

/// A funding update as a whole: checks that one is due, prices both pools from
/// their reserves (`None` when the pool query failed), computes the rate at the
/// pair's allocation (`collateral_percent_long` in `PERCENT_MULTIPLIER` units) and
/// records it. Returns the rate. On failure the state is unchanged.
pub fn update_funding_rate(
    state: &mut FundingState,
    funding_paused: bool,
    current_time: u64,
    reserves: Option<((u128, u128), (u128, u128))>,
    collateral_percent_long: u64,
    collateral_per_pair: u128,
) -> (r: Result<i64, LongShortPairError>)
    requires
        hour_update_in_range(current_time as int, old(state).last_funding_rate_ts as int, old(state).funding_period as int),
    ensures
        match funding_update_outcome(*old(state), funding_paused, current_time, reserves, collateral_percent_long, collateral_per_pair) {
            Ok((rate, next)) => r == Ok::<i64, LongShortPairError>(rate) && *final(state) == next,
            Err(e) => r == Err::<i64, LongShortPairError>(e) && *final(state) == *old(state),
        },
{
    validate_funding_rate_update(funding_paused, current_time, state.last_funding_rate_ts, state.funding_period)?;
    let funding_period = state.funding_period;
    let period: i64 = if funding_period > ONE_HOUR && funding_period <= i64::MAX as u64 {
        funding_period as i64
    } else {
        ONE_HOUR as i64
    };
    let adjustment = (TWENTY_FOUR_HOUR as i64) / period;
    assert(adjustment == period_adjustment(funding_period as int));
    let (long_reserves, short_reserves) = match reserves {
        Some(r) => r,
        None => return Err(LongShortPairError::FailedToGetPoolReserves),
    };
    let (long_pool_price, short_pool_price) = pool_prices_from_reserves(long_reserves, short_reserves)?;
    let (funding_rate, requires_funding) = calculate_funding_rate(
        long_pool_price,
        short_pool_price,
        collateral_percent_long,
        adjustment,
        collateral_per_pair,
        state.funding_clamp,
    )?;
    state.update_funding_info(requires_funding, funding_rate, current_time)?;
    Ok(funding_rate)
}

/// Funding applies exactly when one pool is above and the other below its ideal
/// price, whichever is which.
pub proof fn lemma_funding_requirement_symmetric(delta_long: int, delta_short: int)
    ensures
        deltas_require_funding(delta_long, delta_short) == deltas_require_funding(delta_short, delta_long),
        deltas_require_funding(delta_long, delta_short) ==> delta_long * delta_short < 0,
{
    if delta_long > 0 && delta_short < 0 {
        assert(delta_long * delta_short < 0) by (nonlinear_arith)
            requires delta_long > 0, delta_short < 0;
    }
    if delta_long < 0 && delta_short > 0 {
        assert(delta_long * delta_short < 0) by (nonlinear_arith)
            requires delta_long < 0, delta_short > 0;
    }
}

/// The funding rate is zero when funding does not apply, never exceeds the clamp
/// scaled by `FUNDING_RATE_BUFFER / PERCENT_MULTIPLIER` in size, and for a positive
/// period adjustment has the sign of the long pool's excess over the short pool's.
pub proof fn lemma_funding_rate_bounded(
    long_pool_price: u128,
    short_pool_price: u128,
    collateral_percent_long: int,
    period_adjustment: int,
    collateral_per_pair: int,
    funding_clamp: int,
)
    requires
        period_adjustment > 0,
        funding_clamp >= 0,
    ensures
        funding_rate_outcome(long_pool_price as int, short_pool_price as int, collateral_percent_long, period_adjustment,
            collateral_per_pair, funding_clamp) matches Ok((rate, requires_funding)) ==> {
            let long_ideal = ideal_price(collateral_per_pair, collateral_percent_long);
            let short_ideal = ideal_price(collateral_per_pair, PERCENT_MULTIPLIER - collateral_percent_long);
            let imbalance = delta_pct(long_pool_price, long_ideal) - delta_pct(short_pool_price, short_ideal);
            &&& (!requires_funding ==> rate == 0)
            &&& -(funding_clamp * FUNDING_RATE_BUFFER / PERCENT_MULTIPLIER as int) <= rate
            &&& rate <= funding_clamp * FUNDING_RATE_BUFFER / PERCENT_MULTIPLIER as int
            &&& (imbalance > 0 ==> rate >= 0)
            &&& (imbalance < 0 ==> rate <= 0)
        },
{
    let long_ideal = ideal_price(collateral_per_pair, collateral_percent_long);
    let short_ideal = ideal_price(collateral_per_pair, PERCENT_MULTIPLIER - collateral_percent_long);
    let imbalance = delta_pct(long_pool_price, long_ideal) - delta_pct(short_pool_price, short_ideal);
    let c = clamp_imbalance(imbalance, funding_clamp);
    if funding_rate_outcome(long_pool_price as int, short_pool_price as int, collateral_percent_long, period_adjustment,
        collateral_per_pair, funding_clamp) is Ok {
        let m = funding_clamp * FUNDING_RATE_BUFFER / PERCENT_MULTIPLIER as int;
        assert(-funding_clamp <= c <= funding_clamp);
        let a = trunc_div(c * 1000, 10000);
        assert(-m <= a <= m && (c > 0 ==> a >= 0) && (c < 0 ==> a <= 0)) by (nonlinear_arith)
            requires
                -funding_clamp <= c <= funding_clamp,
                funding_clamp >= 0,
                a == trunc_div(c * 1000, 10000),
                m == funding_clamp * 1000 / 10000,
        ;
        let r = trunc_div(a, period_adjustment);
        assert(-m <= r <= m && (a >= 0 ==> r >= 0) && (a <= 0 ==> r <= 0)) by (nonlinear_arith)
            requires -m <= a <= m, m >= 0, period_adjustment > 0, r == trunc_div(a, period_adjustment);
        assert(imbalance > 0 ==> c > 0 || c == 0);
    }
}

/// Funding moves value between the two sides without creating any: while funding
/// applies, the sum of the long and the short index is unchanged.
pub proof fn lemma_funding_is_zero_sum(state: FundingState, funding_rate: i64, current_time: u64)
    ensures
        state.funding_info_outcome(true, funding_rate, current_time) matches Ok(s) ==>
            s.cumulative_funding_index_long + s.cumulative_funding_index_short
                == state.cumulative_funding_index_long + state.cumulative_funding_index_short,
{
}

/// Right after a mint or a redemption at the current indexes, no funding is owed.
pub proof fn lemma_checkpoint_settles(c: FundingCheckpoint, index_long: i64, index_short: i64)
    requires
        c.long_index == index_long,
        c.short_index == index_short,
    ensures
        c.funding_delta(index_long as int, index_short as int) == 0,
{
}

/// The wait until the next funding update never exceeds two periods.
pub proof fn lemma_next_update_wait_bounded(last_update_ts: int, period: int)
    requires
        last_update_ts >= 0,
        period >= 0,
    ensures
        0 <= next_update_wait(last_update_ts, period) <= 2 * period,
{
    if period > 1 {
        let delay = last_update_ts % period;
        assert(0 <= delay < period);
    }
}

/// The funding rate compares each pool with its ideal price at allocation `p`:
/// the long pool with `collateral_per_pair * (PERCENT_MULTIPLIER - p) / PERCENT_MULTIPLIER`
/// and the short pool with `collateral_per_pair * p / PERCENT_MULTIPLIER`. Each
/// deviation is floored in `PERCENT_MULTIPLIER` units; funding applies exactly when
/// the two deviations have opposite signs, and the rate is then the imbalance clamped
/// to `[-funding_clamp, funding_clamp]`, times `FUNDING_RATE_BUFFER / PERCENT_MULTIPLIER`,
/// divided by `period_adjustment` (each division truncating toward zero).
pub proof fn lemma_funding_rate_formula(
    long_pool_price: u128,
    short_pool_price: u128,
    p: u64,
    period_adjustment: i64,
    collateral_per_pair: u128,
    funding_clamp: i128,
)
    requires
        long_pool_price <= i128::MAX,
        short_pool_price <= i128::MAX,
        funding_rate_outcome(
            long_pool_price as int,
            short_pool_price as int,
            p as int,
            period_adjustment as int,
            collateral_per_pair as int,
            funding_clamp as int,
        ) is Ok,
        ({
            let long_ideal = collateral_per_pair * (10_000 - p) / 10_000;
            let short_ideal = collateral_per_pair * p / 10_000;
            &&& i64::MIN <= (long_pool_price - long_ideal) * 10_000 / long_ideal <= i64::MAX
            &&& i64::MIN <= (short_pool_price - short_ideal) * 10_000 / short_ideal <= i64::MAX
        }),
    ensures
        ({
            let long_ideal = collateral_per_pair * (10_000 - p) / 10_000;
            let short_ideal = collateral_per_pair * p / 10_000;
            let dl = (long_pool_price - long_ideal) * 10_000 / long_ideal;
            let ds = (short_pool_price - short_ideal) * 10_000 / short_ideal;
            let imbalance = dl - ds;
            let clamped = if imbalance < -funding_clamp {
                -funding_clamp
            } else if imbalance > funding_clamp {
                funding_clamp as int
            } else {
                imbalance
            };
            let (rate, applies) = funding_rate_outcome(
                long_pool_price as int,
                short_pool_price as int,
                p as int,
                period_adjustment as int,
                collateral_per_pair as int,
                funding_clamp as int,
            ).unwrap();
            &&& p <= 10_000
            &&& long_ideal > 0
            &&& short_ideal > 0
            &&& applies == ((dl > 0 && ds < 0) || (dl < 0 && ds > 0))
            &&& !applies ==> rate == 0
            &&& applies ==> rate == trunc_div(trunc_div(clamped * 1_000, 10_000), period_adjustment as int)
        }),
{
    let long_ideal = collateral_per_pair * (10_000 - p) / 10_000;
    let short_ideal = collateral_per_pair * p / 10_000;
    assert(ideal_price(collateral_per_pair as int, p as int) == long_ideal);
    assert(ideal_price(collateral_per_pair as int, 10_000 - p) == short_ideal);
    assert((long_pool_price as i128) as int == long_pool_price);
    assert((short_pool_price as i128) as int == short_pool_price);
    let dl = (long_pool_price - long_ideal) * 10_000 / long_ideal;
    let ds = (short_pool_price - short_ideal) * 10_000 / short_ideal;
    assert(delta_pct(long_pool_price, long_ideal) == dl);
    assert(delta_pct(short_pool_price, short_ideal) == ds);
    let c = clamp_imbalance(dl - ds, funding_clamp as int);
    if deltas_require_funding(dl, ds) {
        let a = trunc_div(c * 1_000, 10_000);
        let r = trunc_div(a, period_adjustment as int);
        assert(i64::MIN <= c * 1_000 <= i64::MAX);
        assert(period_adjustment != 0);
        assert(i64::MIN <= a <= i64::MAX) by (nonlinear_arith)
            requires a == trunc_div(c * 1_000, 10_000), i64::MIN <= c * 1_000 <= i64::MAX;
        assert(i64::MIN <= r <= i64::MAX) by (nonlinear_arith)
            requires
                r == trunc_div(a, period_adjustment as int),
                i64::MIN / 10 <= a <= i64::MAX / 10,
                period_adjustment != 0,
        {
        }
        assert(rate_for(c, period_adjustment as int) == r);
    }
}

/// With both pools priced exactly at their ideal prices for allocation `p` (the long
/// pool at `collateral_per_pair * (PERCENT_MULTIPLIER - p) / PERCENT_MULTIPLIER`, the
/// short pool at `collateral_per_pair * p / PERCENT_MULTIPLIER`), no funding applies.
pub proof fn lemma_ideal_prices_need_no_funding(
    p: u64,
    period_adjustment: i64,
    collateral_per_pair: u128,
    funding_clamp: i128,
)
    requires
        p <= 10_000,
        collateral_per_pair * (10_000 - p) <= u128::MAX,
        collateral_per_pair * p <= u128::MAX,
        collateral_per_pair * (10_000 - p) / 10_000 > 0,
        collateral_per_pair * p / 10_000 > 0,
    ensures
        funding_rate_outcome(
            (collateral_per_pair * (10_000 - p) / 10_000),
            (collateral_per_pair * p / 10_000),
            p as int,
            period_adjustment as int,
            collateral_per_pair as int,
            funding_clamp as int,
        ) == Ok::<(i64, bool), LongShortPairError>((0i64, false)),
{
    let long_ideal = collateral_per_pair * (10_000 - p) / 10_000;
    let short_ideal = collateral_per_pair * p / 10_000;
    assert(long_ideal <= u128::MAX / 10_000) by (nonlinear_arith)
        requires long_ideal == collateral_per_pair * (10_000 - p) / 10_000, collateral_per_pair * (10_000 - p) <= u128::MAX;
    assert(short_ideal <= u128::MAX / 10_000) by (nonlinear_arith)
        requires short_ideal == collateral_per_pair * p / 10_000, collateral_per_pair * p <= u128::MAX;
    assert(ideal_price(collateral_per_pair as int, p as int) == long_ideal);
    assert(ideal_price(collateral_per_pair as int, 10_000 - p) == short_ideal);
    assert(((long_ideal as u128) as i128) as int == long_ideal);
    assert(((short_ideal as u128) as i128) as int == short_ideal);
    assert(delta_pct(long_ideal as u128, long_ideal) == 0);
    assert(delta_pct(short_ideal as u128, short_ideal) == 0);
}

/// The funding period scales the rate: with a period of `k` hours (1 to 24), a
/// recorded rate is the one computed with period adjustment `24 / k` from the two
/// pools' prices at their reserves.
pub proof fn lemma_funding_period_scales_rate(
    state: FundingState,
    funding_paused: bool,
    current_time: u64,
    reserves: Option<((u128, u128), (u128, u128))>,
    collateral_percent_long: u64,
    collateral_per_pair: u128,
    k: u64,
)
    requires
        1 <= k <= 24,
        state.funding_period == k * 3_600,
        funding_update_outcome(
            state,
            funding_paused,
            current_time,
            reserves,
            collateral_percent_long,
            collateral_per_pair,
        ) is Ok,
    ensures
        ({
            let (rate, _) = funding_update_outcome(
                state,
                funding_paused,
                current_time,
                reserves,
                collateral_percent_long,
                collateral_per_pair,
            ).unwrap();
            let ((la, lb), (sa, sb)) = reserves.unwrap();
            &&& reserves is Some
            &&& funding_rate_outcome(
                (2 * lb * 10_000_000 + la) / (2 * la),
                (2 * sb * 10_000_000 + sa) / (2 * sa),
                collateral_percent_long as int,
                24int / (k as int),
                collateral_per_pair as int,
                state.funding_clamp as int,
            ) matches Ok((r, _)) && r == rate
        }),
{
    let p = state.funding_period as int;
    assert(86_400int / p == 24int / (k as int)) by (nonlinear_arith)
        requires p == k * 3_600, 1 <= k <= 24;
    if k == 1 {
        assert(period_adjustment(p) == 24);
    } else {
        assert(period_adjustment(p) == 86_400int / p);
    }
}

} // verus!
