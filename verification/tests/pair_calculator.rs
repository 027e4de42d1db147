use long_short_pair::pair_calculator::{CalculatorError, LongShortPairCalculator};

#[test]
fn test_below_lower_bound_returns_zero() {
    let result = LongShortPairCalculator::percent_long_collateral(0, 0, 200).unwrap();
    // Since below lower bound, should clamp to 0
    assert_eq!(result, 0, "price below lower bound should map to 0");
}

#[test]
fn test_below_lower_bountest_at_lower_bound_returns_zerod_returns_zero() {
    let result = LongShortPairCalculator::percent_long_collateral(50, 0, 200).unwrap();
    assert_eq!(result, 2_500_000, "price == lower bound should map to 2_500_000");
}

#[test]
fn test_midpoint_returns_half() {
    let result = LongShortPairCalculator::percent_long_collateral(100, 0, 200).unwrap();
    assert_eq!(result, 5_000_000, "price == upper bound should map to 5_000_000")
}

#[test]
fn test_upper_bound_returns_one() {
    let result = LongShortPairCalculator::percent_long_collateral(200, 0, 200).unwrap();
    assert_eq!(result, 10_000_000, "price == upper bound should map to 10_000_000");
}

#[test]
fn test_above_upper_bound_clamped() {
    let result = LongShortPairCalculator::percent_long_collateral(210, 0, 200).unwrap();
    assert_eq!(result, 10_000_000, "price above upper bound should clamp to 10_000_000");
}

#[test]
fn test_near_lower_bound_quarter_value() {
    let result = LongShortPairCalculator::percent_long_collateral(75, 0, 200).unwrap();
    assert!(result < 5_000_000, "expected <5_000_000, got {}", result);
}

#[test]
fn test_near_upper_bound_three_quarters() {
    let result = LongShortPairCalculator::percent_long_collateral(125, 0, 200).unwrap();
    assert!(result > 5_000_000, "expected >5_000_000, got {}", result);
}

#[test]
fn test_pair_calculator_invalid_bounds() {
    assert_eq!(
        LongShortPairCalculator::percent_long_collateral(10, 0, 0),
        Err(CalculatorError::InvalidBounds)
    );
    assert_eq!(
        LongShortPairCalculator::percent_long_collateral(10, 20, 20),
        Err(CalculatorError::InvalidBounds)
    );
    assert_eq!(
        LongShortPairCalculator::percent_long_collateral(10, 30, 20),
        Err(CalculatorError::InvalidBounds)
    );
    assert_eq!(CalculatorError::InvalidBounds.code(), 202);
}

#[test]
fn test_pair_calculator_exact_values() {
    assert_eq!(LongShortPairCalculator::percent_long_collateral(75, 0, 200), Ok(3_750_000));
    assert_eq!(LongShortPairCalculator::percent_long_collateral(125, 0, 200), Ok(6_250_000));
    assert_eq!(LongShortPairCalculator::percent_long_collateral(110_0000000, 0, 200_0000000), Ok(5_500_000));
}
