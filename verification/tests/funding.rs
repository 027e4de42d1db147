use long_short_pair::funding::{
    block_operation, calculate_funding_rate, calculate_new_average, calculate_price_delta_pct,
    do_deltas_require_funding, is_price_delta_too_divergent, on_the_hour_update, pool_prices_from_reserves,
    update_funding_rate, validate_funding_rate_update, FundingCheckpoint, FundingState,
};
use long_short_pair::pair::LongShortPairError;

const ONE_HOUR: u64 = 3_600;
const ONE_MINUTE: u64 = 60;

const RESERVES_FOR_PRICE_ABOVE: [u128; 2] = [90_0000000, 5500_0000000];
const RESERVES_FOR_PRICE_IDEAL: [u128; 2] = [100_0000000, 5000_0000000];
const RESERVES_FOR_PRICE_BELOW: [u128; 2] = [110_0000000, 4500_0000000];

/// Collateral per pair of 100, a 50% allocation, hourly funding.
const COLLATERAL_PER_PAIR: u128 = 100_0000000;
const COLLATERAL_PERCENT_LONG: u64 = 5000;

fn setup() -> FundingState {
    FundingState {
        cumulative_funding_index_long: 0,
        cumulative_funding_index_short: 0,
        last_funding_rate: 0,
        last_24h_avg_funding_rate: 0,
        last_funding_rate_ts: 0,
        funding_period: ONE_HOUR,
        funding_clamp: 10_000,
        max_ratio_percent_divergence: 0,
        last_update_ts: 0,
        is_killed_update_funding: false,
    }
}

fn pools(long: [u128; 2], short: [u128; 2]) -> Option<((u128, u128), (u128, u128))> {
    Some(((long[0], long[1]), (short[0], short[1])))
}

/// Runs a funding update one hour in and checks the recorded funding.
fn check_update(long: [u128; 2], short: [u128; 2], expected_rate: i64) {
    let mut state = setup();
    let now = ONE_HOUR;
    let rate = update_funding_rate(&mut state, false, now, pools(long, short), COLLATERAL_PERCENT_LONG, COLLATERAL_PER_PAIR)
        .unwrap();
    assert_eq!(rate, expected_rate);
    assert_eq!(state.cumulative_funding_index_long, -expected_rate);
    assert_eq!(state.cumulative_funding_index_short, expected_rate);
    assert_eq!(state.last_funding_rate, expected_rate);
    assert_eq!(state.last_24h_avg_funding_rate, 0);
    assert_eq!(state.last_funding_rate_ts, now);
}

#[test]
fn test_update_funding_rate_fails_with_bad_plane() {
    let mut state = setup();
    let r = update_funding_rate(&mut state, false, ONE_HOUR, None, COLLATERAL_PERCENT_LONG, COLLATERAL_PER_PAIR);
    assert_eq!(r, Err(LongShortPairError::FailedToGetPoolReserves));
    assert_eq!(LongShortPairError::FailedToGetPoolReserves.code(), 206);
}

#[test]
fn test_update_funding_rate_returns_zero_with_zero_liquidity() {
    let mut state = setup();
    let r = update_funding_rate(&mut state, false, ONE_HOUR, pools([0, 0], RESERVES_FOR_PRICE_IDEAL), COLLATERAL_PERCENT_LONG, COLLATERAL_PER_PAIR);
    assert_eq!(r, Err(LongShortPairError::FundingRateRequiresPoolLiquidity));
    assert_eq!(LongShortPairError::FundingRateRequiresPoolLiquidity.code(), 211);
}

#[test]
fn test_update_funding_rate_is_zero_when_long_overpriced_and_short_overpriced() {
    check_update(RESERVES_FOR_PRICE_ABOVE, RESERVES_FOR_PRICE_ABOVE, 0);
}

#[test]
fn test_update_funding_rate_is_zero_when_long_overpriced_and_short_ideal() {
    check_update(RESERVES_FOR_PRICE_ABOVE, RESERVES_FOR_PRICE_IDEAL, 0);
}

#[test]
fn test_update_funding_rate_is_applied_when_long_overpriced_and_short_underpriced() {
    check_update(RESERVES_FOR_PRICE_ABOVE, RESERVES_FOR_PRICE_BELOW, 16);
}

#[test]
fn test_update_funding_rate_is_zero_when_long_ideal_and_short_overpriced() {
    check_update(RESERVES_FOR_PRICE_IDEAL, RESERVES_FOR_PRICE_ABOVE, 0);
}

#[test]
fn test_update_funding_rate_is_zero_when_long_ideal_and_short_ideal() {
    check_update(RESERVES_FOR_PRICE_IDEAL, RESERVES_FOR_PRICE_IDEAL, 0);
}

#[test]
fn test_update_funding_rate_is_zero_when_long_ideal_and_short_underpriced() {
    check_update(RESERVES_FOR_PRICE_IDEAL, RESERVES_FOR_PRICE_BELOW, 0);
}

#[test]
fn test_update_funding_rate_is_zero_when_long_underpriced_and_short_ideal() {
    check_update(RESERVES_FOR_PRICE_BELOW, RESERVES_FOR_PRICE_IDEAL, 0);
}

#[test]
fn test_update_funding_rate_is_zero_when_long_underpriced_and_short_underpriced() {
    check_update(RESERVES_FOR_PRICE_BELOW, RESERVES_FOR_PRICE_BELOW, 0);
}

#[test]
fn test_funding_applied_when_long_underpriced_and_short_overpriced() {
    // the mirror image of the overpriced-long case: funding flows the other way
    let mut state = setup();
    let rate = update_funding_rate(&mut state, false, ONE_HOUR, pools(RESERVES_FOR_PRICE_BELOW, RESERVES_FOR_PRICE_ABOVE), COLLATERAL_PERCENT_LONG, COLLATERAL_PER_PAIR)
        .unwrap();
    assert_eq!(rate, -16);
    assert_eq!(state.cumulative_funding_index_long, 16);
    assert_eq!(state.cumulative_funding_index_short, -16);
    // the average rounds towards the older value, here up from -0.67 to 1
    assert_eq!(state.last_24h_avg_funding_rate, 1);
}

#[test]
fn test_update_funding_rate_while_paused() {
    let mut state = setup();
    let before = state;
    let r = update_funding_rate(&mut state, true, ONE_HOUR, pools(RESERVES_FOR_PRICE_IDEAL, RESERVES_FOR_PRICE_IDEAL), COLLATERAL_PERCENT_LONG, COLLATERAL_PER_PAIR);
    assert_eq!(r, Err(LongShortPairError::FundingWasNotUpdated));
    assert_eq!(LongShortPairError::FundingWasNotUpdated.code(), 205);
    assert_eq!(state, before);
}

#[test]
fn test_update_funding_rate_too_early() {
    let mut state = setup();
    update_funding_rate(&mut state, false, ONE_HOUR, pools(RESERVES_FOR_PRICE_IDEAL, RESERVES_FOR_PRICE_IDEAL), COLLATERAL_PERCENT_LONG, COLLATERAL_PER_PAIR)
        .unwrap();
    let r = update_funding_rate(&mut state, false, ONE_HOUR + ONE_MINUTE, pools(RESERVES_FOR_PRICE_IDEAL, RESERVES_FOR_PRICE_IDEAL), COLLATERAL_PERCENT_LONG, COLLATERAL_PER_PAIR);
    assert_eq!(r, Err(LongShortPairError::FundingWasNotUpdated));
}

#[test]
fn test_do_deltas_require_funding() {
    assert!(do_deltas_require_funding(1, -1));
    assert!(do_deltas_require_funding(-5, 3));
    assert!(!do_deltas_require_funding(1, 1));
    assert!(!do_deltas_require_funding(0, -1));
    assert!(!do_deltas_require_funding(-2, -3));
    assert!(!do_deltas_require_funding(0, 0));
}

#[test]
fn test_calculate_funding_rate_values() {
    // prices 61.11 and 40.91 against an ideal of 50 each
    assert_eq!(
        calculate_funding_rate(611111111, 409090909, 5000, 24, COLLATERAL_PER_PAIR, 10_000),
        Ok((16, true))
    );
    // a tight clamp limits the imbalance to 1000: 1000 * 1000 / 10000 / 24 = 4
    assert_eq!(
        calculate_funding_rate(611111111, 409090909, 5000, 24, COLLATERAL_PER_PAIR, 1_000),
        Ok((4, true))
    );
    assert_eq!(
        calculate_funding_rate(611111111, 409090909, 10_001, 24, COLLATERAL_PER_PAIR, 1_000),
        Err(LongShortPairError::InvalidCalculatorValue)
    );
    // a pair whose long side takes everything has no ideal long price
    assert_eq!(
        calculate_funding_rate(611111111, 409090909, 10_000, 24, COLLATERAL_PER_PAIR, 1_000),
        Err(LongShortPairError::MathOverflow)
    );
}

#[test]
fn test_pool_prices_from_reserves() {
    assert_eq!(
        pool_prices_from_reserves((90_0000000, 5500_0000000), (110_0000000, 4500_0000000)),
        Ok((611111111, 409090909))
    );
    assert_eq!(
        pool_prices_from_reserves((3, 2), (1, 1)),
        Ok((6666667, 10_000_000))
    );
}

#[test]
fn test_on_the_hour_update() {
    assert_eq!(on_the_hour_update(3600, 0, 3600), 0);
    assert_eq!(on_the_hour_update(1800, 0, 3600), 1800);
    // last update 10 minutes into the hour: next one on the hour
    assert_eq!(on_the_hour_update(3600, 600, 3600), 0);
    assert_eq!(on_the_hour_update(3000, 600, 3600), 600);
    // last update 40 minutes into the hour: the following hour
    assert_eq!(on_the_hour_update(3600, 2400, 3600), 3600);
    assert_eq!(on_the_hour_update(7200, 2400, 3600), 0);
    assert!(validate_funding_rate_update(false, 7200, 2400, 3600).is_ok());
    assert!(validate_funding_rate_update(false, 7199, 2400, 3600).is_err());
}

#[test]
fn test_price_delta_helpers() {
    assert_eq!(calculate_price_delta_pct(5, 100), 500_000);
    assert_eq!(calculate_price_delta_pct(-5, 100), -500_000);
    assert!(!is_price_delta_too_divergent(100_000, 0));
    assert!(is_price_delta_too_divergent(-100_001, 0));
    assert!(!is_price_delta_too_divergent(150_000, 200_000));
    let state = FundingState { last_update_ts: 100, ..setup() };
    assert!(!block_operation(&state, 0, 100 + ONE_HOUR));
    assert!(block_operation(&state, 0, 101 + ONE_HOUR));
    assert!(block_operation(&state, 200_000, 100));
    let paused = FundingState { is_killed_update_funding: true, ..state };
    assert!(block_operation(&paused, 0, 100));
}

#[test]
fn test_calculate_new_average() {
    assert_eq!(calculate_new_average(16, 3600, 0, 0, 86_400), Some(0));
    assert_eq!(calculate_new_average(-240, 43_200, 0, 0, 86_400), Some(-119));
    assert_eq!(calculate_new_average(5, 100, 7, 100, 86_400), Some(7));
}

#[test]
fn test_funding_checkpoint() {
    let mut c = FundingCheckpoint::new();
    c.mint(1_0000000, -16, 16).unwrap();
    assert_eq!(c.net_funding_delta(-16, 16), Ok(0));
    assert_eq!(c.net_funding_delta(-32, 32), Ok(32));
    c.redeem(4_0000000, -32, 32).unwrap_err();
    c.redeem(4_000000, -32, 32).unwrap();
    assert_eq!(c.long_balance, 6_000000);
    assert_eq!(c.short_balance, 6_000000);
    assert_eq!((c.long_index, c.short_index), (-32, 32));
    assert_eq!(c.mint(u128::MAX, 0, 0), Err(LongShortPairError::MathOverflow));
}

#[test]
fn test_funding_rate_near_collateral_bound() {
    // the products cpp * 5000 fit although cpp * 10_000 does not
    let cpp = u128::MAX / 10_000 + 1;
    let ideal = cpp * 5_000 / 10_000;
    assert_eq!(calculate_funding_rate(ideal, ideal, 5_000, 24, cpp, 1_000), Ok((0, false)));
    // with a 0% allocation cpp * 10_000 is computed and overflows
    assert_eq!(
        calculate_funding_rate(ideal, ideal, 0, 24, cpp, 1_000),
        Err(LongShortPairError::MathOverflow)
    );
}

#[test]
fn test_on_the_hour_update_with_huge_aligned_period() {
    // a last update on a period boundary never doubles the period, so a period
    // whose double overflows is accepted; read as an i64 it is negative, so the
    // update is due at once
    let period = u64::MAX / 2 + 10;
    assert_eq!(on_the_hour_update(0, 0, period), 0);
    assert_eq!(on_the_hour_update(period + 5, period, period), 0);
}
