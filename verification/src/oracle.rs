//! Oracle price math: sanitising new prices against the TWAP, rolling
//! time-weighted averages, and classifying price data as valid or not.
use vstd::prelude::*;
use crate::constants::{
    DEFAULT_MAX_TWAP_UPDATE_PRICE_BAND_DENOMINATOR, FIVE_MINUTE, PERCENTAGE_PRECISION,
    PERCENTAGE_PRECISION_U64, PRICE_PRECISION,
};
use crate::fixed_point::{fixed_div_round, div_round_spec};
use crate::pair::LongShortPairError;

verus! {

/// A price read from the upstream oracle and how old it is.
#[derive(Clone, Copy, Debug, PartialEq, Eq, Structural)]
pub struct OraclePriceData {
    pub price: u128,
    /// Seconds since the price was published.
    pub delay: u64,
}

/// Rolling oracle history.
#[derive(Clone, Copy, Debug, PartialEq, Eq, Structural)]
pub struct HistoricalOracleData {
    pub last_price_twap: u128,
    pub last_price: u128,
    pub last_update_ts: u64,
    pub last_delay_ts: u64,
}

/// Health of a price reading.
#[derive(Clone, Copy, Debug, PartialEq, Eq, Structural)]
pub enum OracleValidity {
    NonPositive,
    TooVolatile,
    StaleForPool,
    Valid,
}

/// Thresholds of the validity check.
#[derive(Clone, Copy, Debug, PartialEq, Eq, Structural)]
pub struct ValidityGuardRails {
    /// Relative move from the TWAP, in `PERCENTAGE_PRECISION` units, that counts as too volatile.
    pub too_volatile_ratio: u64,
    /// Age at which a price is stale.
    pub seconds_before_stale_for_pool: u64,
}

/// The clamp denominator actually used: the given one, or the default when it is 0.
pub open spec fn effective_denominator(d: u64) -> int {
    if d != 0 { d as int } else { DEFAULT_MAX_TWAP_UPDATE_PRICE_BAND_DENOMINATOR as int }
}

/// `new_price` clamped into `[twap - twap / d, twap + twap / d]` (floored at 0),
/// or `new_price` itself when there is no TWAP yet.
pub open spec fn sanitized_price(new_price: int, twap: int, d: u64) -> int {
    let band = twap / effective_denominator(d);
    if twap == 0 {
        new_price
    } else if new_price > twap + band {
        twap + band
    } else if new_price < twap - band {
        if band >= twap { 0 } else { twap - band }
    } else {
        new_price
    }
}

/// Limits `new_price` to a band of `last_price_twap / d` around the TWAP, where `d`
/// is `sanitize_clamp_denominator`, or the default denominator when that is 0.
/// With no TWAP yet (`last_price_twap == 0`) the price is returned as it is.
pub fn sanitize_new_price(new_price: u128, last_price_twap: u128, sanitize_clamp_denominator: u64) -> (r: u128)
    requires
        new_price > 0,
    ensures
        r == sanitized_price(new_price as int, last_price_twap as int, sanitize_clamp_denominator),
{
    // when/if twap is 0, dont try to normalize new_price
    if last_price_twap == 0 {
        return new_price;
    }
    let (new_price_spread, price_is_increasing) = if new_price >= last_price_twap {
        (new_price - last_price_twap, true)
    } else {
        (last_price_twap - new_price, false)
    };
    let sanitize_clamp_denominator = if sanitize_clamp_denominator != 0 {
        sanitize_clamp_denominator
    } else {
        DEFAULT_MAX_TWAP_UPDATE_PRICE_BAND_DENOMINATOR
    };
    let price_twap_price_band = last_price_twap / (sanitize_clamp_denominator as u128);
    if new_price_spread > price_twap_price_band {
        if price_is_increasing {
            last_price_twap + price_twap_price_band
        } else if price_twap_price_band >= last_price_twap {
            0
        } else {
            last_price_twap - price_twap_price_band
        }
    } else {
        new_price
    }
}

/// The rounding bias of the weighted average: towards the newer datum when it
/// carries more than one unit of weight.
pub open spec fn average_bias(prev: int, latest: int, weight2: int) -> int {
    if weight2 > 1 {
        if latest < prev { -1 } else if latest > prev { 1 } else { 0 }
    } else {
        0
    }
}

/// `(data1 * weight1 + data2 * weight2) / (weight1 + weight2)` plus the bias, never
/// below zero; a zero weight selects the other datum.
pub open spec fn weighted_average(data1: int, data2: int, weight1: int, weight2: int) -> int {
    let prev = data1 * weight1;
    let latest = data2 * weight2;
    let bias = average_bias(prev, latest, weight2);
    let twap = (prev + latest) / (weight1 + weight2);
    if weight1 == 0 {
        data2
    } else if weight2 == 0 {
        data1
    } else if twap == 0 && bias < 0 {
        0
    } else {
        twap + bias
    }
}

/// Weighted average of two data points, rounded towards the newer datum.
pub fn calculate_weighted_average(data1: u128, data2: u128, weight1: u64, weight2: u64) -> (r: u128)
    requires
        weight1 + weight2 <= u64::MAX,
        data1 * weight1 <= u128::MAX,
        data2 * weight2 <= u128::MAX,
        data1 * weight1 + data2 * weight2 <= u128::MAX,
    ensures
        r == weighted_average(data1 as int, data2 as int, weight1 as int, weight2 as int),
{
    let denominator = (weight1 + weight2) as u128;
    let prev_twap_99 = data1 * (weight1 as u128);
    let latest_price_01 = data2 * (weight2 as u128);
    if weight1 == 0 {
        return data2;
    }
    if weight2 == 0 {
        return data1;
    }
    let bias: i128 = if weight2 > 1 {
        if latest_price_01 < prev_twap_99 {
            -1
        } else if latest_price_01 > prev_twap_99 {
            1
        } else {
            0
        }
    } else {
        0
    };
    let twap = (prev_twap_99 + latest_price_01) / denominator;
    if twap == 0 && bias < 0 {
        return twap;
    }
    proof {
        assert(twap <= u128::MAX / 2) by (nonlinear_arith)
            requires
                twap == (prev_twap_99 + latest_price_01) as int / denominator as int,
                denominator >= 2,
                prev_twap_99 + latest_price_01 <= u128::MAX,
        ;
    }
    if bias < 0 {
        twap - 1
    } else {
        twap + (bias as u128)
    }
}

/// The new TWAP after observing `current_price` at `current_ts`: the elapsed time
/// since `last_ts` weighs the new price, the rest of `period` weighs the old TWAP.
pub open spec fn new_twap(current_price: int, current_ts: int, last_twap: int, last_ts: int, period: int) -> int {
    let since_last = current_ts - last_ts;
    let from_start = if period - since_last > 1 { period - since_last } else { 1 };
    weighted_average(current_price, last_twap, since_last, from_start)
}

/// Whether `calculate_new_twap` accepts its inputs: time moves forward by at most
/// one period, and the weighted sums fit in `u128`.
pub open spec fn new_twap_in_range(current_price: int, current_ts: int, last_twap: int, last_ts: int, period: int) -> bool {
    let since_last = current_ts - last_ts;
    let from_start = if period - since_last > 1 { period - since_last } else { 1 };
    &&& last_ts <= current_ts
    &&& since_last <= period
    &&& since_last + from_start <= u64::MAX
    &&& current_price * since_last + last_twap * from_start <= u128::MAX
}

/// Rolls the TWAP forward to `current_ts` with `current_price`.
pub fn calculate_new_twap(current_price: u128, current_ts: u64, last_twap: u128, last_ts: u64, period: u64) -> (r: u128)
    requires
        new_twap_in_range(current_price as int, current_ts as int, last_twap as int, last_ts as int, period as int),
    ensures
        r == new_twap(current_price as int, current_ts as int, last_twap as int, last_ts as int, period as int),
{
    let since_last = current_ts - last_ts;
    let from_start = if period - since_last > 1 { period - since_last } else { 1 };
    proof {
        assert(current_price * since_last >= 0 && last_twap * from_start >= 0) by (nonlinear_arith);
    }
    calculate_weighted_average(current_price, last_twap, since_last, from_start)
}

/// The relative move of `price` from `twap`, in `PERCENTAGE_PRECISION` units, rounded.
pub open spec fn price_delta_ratio(price: int, twap: int) -> int {
    div_round_spec(price, twap, PERCENTAGE_PRECISION as int)
}

/// Whether `oracle_validity` accepts its inputs.
pub open spec fn validity_in_range(twap: int, price: int, too_volatile_ratio: int) -> bool {
    &&& twap > 0
    &&& price * PERCENTAGE_PRECISION <= u128::MAX
    &&& price_delta_ratio(price, twap) <= u64::MAX
    &&& too_volatile_ratio <= PERCENTAGE_PRECISION
}

/// The classification of a price reading.
pub open spec fn validity(twap: int, data: OraclePriceData, rails: ValidityGuardRails) -> OracleValidity {
    let delta = price_delta_ratio(data.price as int, twap);
    let lower = PERCENTAGE_PRECISION - rails.too_volatile_ratio;
    let upper = rails.too_volatile_ratio + PERCENTAGE_PRECISION;
    if data.price == 0 {
        OracleValidity::NonPositive
    } else if delta <= lower || upper <= delta {
        OracleValidity::TooVolatile
    } else if data.delay >= rails.seconds_before_stale_for_pool {
        OracleValidity::StaleForPool
    } else {
        OracleValidity::Valid
    }
}

/// Classifies a price reading: non-positive, too far from the last TWAP, too old,
/// or valid, checked in that order.
pub fn oracle_validity(last_oracle_twap: u128, oracle_price_data: &OraclePriceData, rails: &ValidityGuardRails) -> (r: OracleValidity)
    requires
        validity_in_range(last_oracle_twap as int, oracle_price_data.price as int, rails.too_volatile_ratio as int),
    ensures
        r == validity(last_oracle_twap as int, *oracle_price_data, *rails),
{
    let oracle_price = oracle_price_data.price;
    let is_oracle_price_nonpositive = oracle_price == 0;
    let lower_bound = PERCENTAGE_PRECISION_U64 - rails.too_volatile_ratio;
    let upper_bound = rails.too_volatile_ratio + PERCENTAGE_PRECISION_U64;
    let price_delta = match fixed_div_round(oracle_price, last_oracle_twap, PERCENTAGE_PRECISION) {
        Some(d) => d as u64,
        None => {
            assert(false);
            0
        },
    };
    let is_oracle_price_too_volatile = price_delta <= lower_bound || upper_bound <= price_delta;
    let is_stale_for_pool = oracle_price_data.delay >= rails.seconds_before_stale_for_pool;
    if is_oracle_price_nonpositive {
        OracleValidity::NonPositive
    } else if is_oracle_price_too_volatile {
        OracleValidity::TooVolatile
    } else if is_stale_for_pool {
        OracleValidity::StaleForPool
    } else {
        OracleValidity::Valid
    }
}

/// The history after observing `data` at `now`.
pub open spec fn updated_history(h: HistoricalOracleData, data: OraclePriceData, d: u64, now: u64) -> HistoricalOracleData {
    let capped = sanitized_price(data.price as int, h.last_price_twap as int, d);
    HistoricalOracleData {
        last_price_twap: new_twap(capped, now as int, h.last_price_twap as int, h.last_update_ts as int, FIVE_MINUTE as int) as u128,
        last_price: data.price,
        last_update_ts: now,
        last_delay_ts: data.delay,
    }
}

/// Whether `update_twap` accepts its inputs.
pub open spec fn update_in_range(h: HistoricalOracleData, data: OraclePriceData, d: u64, now: u64) -> bool {
    let capped = sanitized_price(data.price as int, h.last_price_twap as int, d);
    data.price > 0 && new_twap_in_range(capped, now as int, h.last_price_twap as int, h.last_update_ts as int, FIVE_MINUTE as int)
}

/// Sanitises the new price against the TWAP and folds it into a five-minute TWAP.
pub fn update_twap(
    historical_oracle_data: &HistoricalOracleData,
    oracle_price_data: &OraclePriceData,
    sanitize_clamp_denominator: u64,
    now: u64,
) -> (r: HistoricalOracleData)
    requires
        update_in_range(*historical_oracle_data, *oracle_price_data, sanitize_clamp_denominator, now),
    ensures
        r == updated_history(*historical_oracle_data, *oracle_price_data, sanitize_clamp_denominator, now),
{
    let capped_oracle_update_price = sanitize_new_price(
        oracle_price_data.price,
        historical_oracle_data.last_price_twap,
        sanitize_clamp_denominator,
    );
    let oracle_price_twap = calculate_new_twap(
        capped_oracle_update_price,
        now,
        historical_oracle_data.last_price_twap,
        historical_oracle_data.last_update_ts,
        FIVE_MINUTE,
    );
    HistoricalOracleData {
        last_price_twap: oracle_price_twap,
        last_price: oracle_price_data.price,
        last_update_ts: now,
        last_delay_ts: oracle_price_data.delay,
    }
}

/// Converts a raw price published with `PRICE_PRECISION` extra decimals, and its
/// publication time, into price data at `now`. Fails on a negative price or a
/// publication time in the future.
pub fn price_data_from_feed(raw_price: i128, published_ts: u64, now: u64) -> (r: Option<OraclePriceData>)
    ensures
        (raw_price >= 0 && published_ts <= now) <==> r is Some,
        r matches Some(d) ==> d.price == raw_price as int / PRICE_PRECISION as int && d.delay == now - published_ts,
{
    if raw_price < 0 || published_ts > now {
        return None;
    }
    Some(OraclePriceData { price: (raw_price as u128) / PRICE_PRECISION, delay: now - published_ts })
}

/// A sanitised price lies within the band around a non-zero TWAP, and sanitising
/// a sanitised price changes nothing.
pub proof fn lemma_sanitize_band_and_idempotent(new_price: int, twap: int, d: u64)
    requires
        new_price > 0,
        twap > 0,
    ensures
        ({
            let band = twap / effective_denominator(d);
            let r = sanitized_price(new_price, twap, d);
            &&& r <= twap + band
            &&& r >= 0
            &&& (band < twap ==> r >= twap - band)
            &&& (r > 0 ==> sanitized_price(r, twap, d) == r)
        }),
{
    let band = twap / effective_denominator(d);
    assert(band >= 0) by (nonlinear_arith)
        requires twap > 0, effective_denominator(d) > 0, band == twap / effective_denominator(d);
}

/// With both weights positive, the weighted average stays within one unit of the
/// range spanned by the two data points and is never negative.
pub proof fn lemma_weighted_average_bounds(data1: int, data2: int, weight1: int, weight2: int)
    requires
        0 <= data1,
        0 <= data2,
        0 < weight1,
        0 < weight2,
    ensures
        ({
            let r = weighted_average(data1, data2, weight1, weight2);
            let lo = if data1 < data2 { data1 } else { data2 };
            let hi = if data1 < data2 { data2 } else { data1 };
            &&& 0 <= r
            &&& lo - 1 <= r <= hi + 1
        }),
{
    let lo = if data1 < data2 { data1 } else { data2 };
    let hi = if data1 < data2 { data2 } else { data1 };
    let w = weight1 + weight2;
    let sum = data1 * weight1 + data2 * weight2;
    assert(lo * w <= sum <= hi * w) by (nonlinear_arith)
        requires
            lo <= data1 <= hi,
            lo <= data2 <= hi,
            0 < weight1,
            0 < weight2,
            w == weight1 + weight2,
            sum == data1 * weight1 + data2 * weight2,
    ;
    assert(lo <= sum / w <= hi) by (nonlinear_arith)
        requires lo * w <= sum <= hi * w, w > 0, 0 <= lo;
}

/// The outcome of accepting a new price reading: the reading is first classified
/// against the history's TWAP and must be valid, and is then folded into the
/// history without clamping (clamp denominator 1). `MathOverflow` stands for inputs
/// outside the range where the classification or the TWAP update is defined.
pub open spec fn validated_update_outcome(h: HistoricalOracleData, data: OraclePriceData, rails: ValidityGuardRails, now: u64) -> Result<HistoricalOracleData, LongShortPairError> {
    if !validity_in_range(h.last_price_twap as int, data.price as int, rails.too_volatile_ratio as int) {
        Err(LongShortPairError::MathOverflow)
    } else if validity(h.last_price_twap as int, data, rails) != OracleValidity::Valid {
        Err(LongShortPairError::InvalidOracle)
    } else if !update_in_range(h, data, 1, now) {
        Err(LongShortPairError::MathOverflow)
    } else {
        Ok(updated_history(h, data, 1, now))
    }
}

/// Accepts a new price reading for an asset whose history is `historical_oracle_data`:
/// fails with `InvalidOracle` unless the reading is valid, otherwise returns the
/// updated history.
pub fn get_oracle_price_with_validity(
    historical_oracle_data: &HistoricalOracleData,
    oracle_price_data: &OraclePriceData,
    rails: &ValidityGuardRails,
    now: u64,
) -> (r: Result<HistoricalOracleData, LongShortPairError>)
    ensures
        r == validated_update_outcome(*historical_oracle_data, *oracle_price_data, *rails, now),
{
    let twap = historical_oracle_data.last_price_twap;
    let price = oracle_price_data.price;
    if twap == 0 || rails.too_volatile_ratio > PERCENTAGE_PRECISION_U64 {
        return Err(LongShortPairError::MathOverflow);
    }
    match fixed_div_round(price, twap, PERCENTAGE_PRECISION) {
        None => return Err(LongShortPairError::MathOverflow),
        Some(d) => {
            if d > u64::MAX as u128 {
                return Err(LongShortPairError::MathOverflow);
            }
        },
    }
    if oracle_validity(twap, oracle_price_data, rails) != OracleValidity::Valid {
        return Err(LongShortPairError::InvalidOracle);
    }
    // the new TWAP's range
    let capped = sanitize_new_price(price, twap, 1);
    let last_ts = historical_oracle_data.last_update_ts;
    if now < last_ts || now - last_ts > FIVE_MINUTE {
        return Err(LongShortPairError::MathOverflow);
    }
    let since_last = now - last_ts;
    let from_start = if FIVE_MINUTE - since_last > 1 { FIVE_MINUTE - since_last } else { 1 };
    proof {
        assert(capped * since_last >= 0 && twap * from_start >= 0) by (nonlinear_arith);
    }
    let a = match capped.checked_mul(since_last as u128) {
        Some(v) => v,
        None => return Err(LongShortPairError::MathOverflow),
    };
    let b = match twap.checked_mul(from_start as u128) {
        Some(v) => v,
        None => return Err(LongShortPairError::MathOverflow),
    };
    if a.checked_add(b).is_none() {
        return Err(LongShortPairError::MathOverflow);
    }
    Ok(update_twap(historical_oracle_data, oracle_price_data, 1, now))
}

/// A reading is accepted only if its price, relative to the last TWAP (not the last
/// raw price), is strictly inside `1 ± too_volatile_ratio`: with the ratio
/// `round(price * PERCENTAGE_PRECISION / last_price_twap)` at or beyond either edge the
/// reading is refused with `InvalidOracle`, whatever the last raw price was. An
/// accepted reading is positive and younger than the staleness limit, and becomes the
/// last price of the new history, stamped `now` with its delay.
pub proof fn lemma_reading_judged_against_twap(
    h: HistoricalOracleData,
    data: OraclePriceData,
    rails: ValidityGuardRails,
    now: u64,
)
    requires
        h.last_price_twap > 0,
        data.price * 1_000_000 <= u128::MAX,
        (2 * data.price * 1_000_000 + h.last_price_twap) / (2 * h.last_price_twap) <= u64::MAX,
        rails.too_volatile_ratio <= 1_000_000,
    ensures
        ({
            let ratio = (2 * data.price * 1_000_000 + h.last_price_twap) / (2 * h.last_price_twap);
            let too_volatile = ratio <= 1_000_000 - rails.too_volatile_ratio
                || ratio >= 1_000_000 + rails.too_volatile_ratio;
            &&& too_volatile ==> validated_update_outcome(h, data, rails, now)
                == Err::<HistoricalOracleData, LongShortPairError>(LongShortPairError::InvalidOracle)
            &&& validated_update_outcome(h, data, rails, now) matches Ok(next) ==> {
                &&& !too_volatile
                &&& data.price > 0
                &&& data.delay < rails.seconds_before_stale_for_pool
                &&& next.last_price == data.price
                &&& next.last_update_ts == now
                &&& next.last_delay_ts == data.delay
            }
        }),
{
}

} // verus!
