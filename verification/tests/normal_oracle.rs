use long_short_pair::constants::{FIVE_MINUTE, PERCENTAGE_PRECISION_U64, PRICE_PRECISION};
use long_short_pair::normal_oracle::{
    validate_guard_rails, validate_oracle, GuardRails, NormalOracle, NormalOracleError, OracleSource,
};

/// Price published by the upstream feed with 14 decimals: 100.0.
const INITIAL_ASSET_PRICE: i128 = 100_00000000000000;

#[test]
fn test_get_price() {
    let oracle = NormalOracle::new(OracleSource::Reflector);
    let price_data = oracle.get_price(Some((INITIAL_ASSET_PRICE, 0)), 1).unwrap();
    assert_eq!(price_data.price as i128, INITIAL_ASSET_PRICE / PRICE_PRECISION as i128);
    assert_eq!(price_data.delay, 1);
}

#[test]
fn test_test_set_seconds_before_stale() {
    let mut oracle = NormalOracle::new(OracleSource::Reflector);
    let stale_limit = (FIVE_MINUTE as u64) * 2;

    // Test the default
    let guard_rails = oracle.get_guard_rails();
    assert_eq!(guard_rails.seconds_before_stale, FIVE_MINUTE as u64);

    oracle.set_seconds_before_stale(stale_limit);
    let updated_guard_rails = oracle.get_guard_rails();
    assert_eq!(updated_guard_rails.seconds_before_stale, stale_limit);
}

#[test]
fn test_test_set_too_volatile_ratio() {
    let mut oracle = NormalOracle::new(OracleSource::Reflector);
    let too_volatile_ratio = PERCENTAGE_PRECISION_U64 / 10;

    // Test the default
    let guard_rails = oracle.get_guard_rails();
    assert_eq!(guard_rails.too_volatile_ratio, PERCENTAGE_PRECISION_U64 / 5);

    oracle.set_too_volatile_ratio(too_volatile_ratio);
    let updated_guard_rails = oracle.get_guard_rails();
    assert_eq!(updated_guard_rails.too_volatile_ratio, too_volatile_ratio);
}

#[test]
fn test_get_price_failures() {
    let oracle = NormalOracle::new(OracleSource::Reflector);
    assert_eq!(oracle.get_price(None, 5), Err(NormalOracleError::FailedToGetOraclePrice));
    assert_eq!(oracle.get_price(Some((-1, 0)), 5), Err(NormalOracleError::OracleNonPositive));
    assert_eq!(oracle.get_price(Some((1, 6)), 5), Err(NormalOracleError::FailedToGetOraclePrice));
    assert_eq!(NormalOracleError::FailedToGetOraclePrice.code(), 204);
}

#[test]
fn test_guard_rails_validation() {
    let ok = GuardRails { seconds_before_stale: 300, too_volatile_ratio: 200_000, sanitize_clamp_denominator: 10 };
    assert_eq!(validate_guard_rails(&ok), Ok(()));
    let bad = [
        GuardRails { seconds_before_stale: 0, ..ok },
        GuardRails { seconds_before_stale: 86_401, ..ok },
        GuardRails { too_volatile_ratio: PERCENTAGE_PRECISION_U64 + 1, ..ok },
        GuardRails { sanitize_clamp_denominator: 10_001, ..ok },
    ];
    for g in bad {
        assert_eq!(validate_guard_rails(&g), Err(NormalOracleError::InvalidInput));
    }
    let mut oracle = NormalOracle::new(OracleSource::Reflector);
    assert_eq!(validate_guard_rails(&oracle.get_guard_rails()), Ok(()));
    oracle.set_sanitize_clamp_denominator(20);
    assert_eq!(oracle.get_guard_rails().sanitize_clamp_denominator, 20);
}

#[test]
fn test_validate_oracle_source() {
    assert_eq!(validate_oracle(OracleSource::Reflector, true), Err(NormalOracleError::InvalidOracleSource));
    assert_eq!(NormalOracleError::InvalidOracleSource.code(), 206);
}
