use long_short_pair::calculator::{Calculator, CalculatorError, LinearLongShortPairParameters};

/// Convenience to read output as f64 percent (0.0–1.0)
fn as_percent(x: u64) -> f64 {
    (x as f64) / 10_000_000.0
}

/// Registers bounds for a pair with nothing stored yet.
fn register(lower: u128, upper: u128) -> Option<LinearLongShortPairParameters> {
    Some(Calculator::set_parameters(None, lower, upper).unwrap())
}

#[test]
fn test_panics_if_params_not_set() {
    let err = Calculator::percent_long_collateral(None, 100).unwrap_err();
    assert_eq!(err, CalculatorError::ParamsNotSetForCallingLSP);
    assert_eq!(err.code(), 204);
    let zero = LinearLongShortPairParameters { upper_bound: 0, lower_bound: 0 };
    assert_eq!(
        Calculator::percent_long_collateral(Some(zero), 100),
        Err(CalculatorError::ParamsNotSetForCallingLSP)
    );
}

#[test]
fn test_set_parameters_upper_less_than_lower() {
    let err = Calculator::set_parameters(None, 10_000000, 5_000000).unwrap_err();
    assert_eq!(err, CalculatorError::InvalidBounds);
    assert_eq!(err.code(), 202);
}

#[test]
fn test_set_long_short_pair_parameters_already_set() {
    let stored = register(10_000000, 100_000000);
    let err = Calculator::set_parameters(stored, 20_000000, 120_000000).unwrap_err();
    assert_eq!(err, CalculatorError::ParamsAlreadySet);
    assert_eq!(err.code(), 203);
}

#[test]
fn test_test_below_lower_bound_returns_zero() {
    let stored = register(50, 150);
    let result = Calculator::percent_long_collateral(stored, 25).unwrap();
    // Since below lower bound, should clamp to 0
    assert_eq!(result, 0, "price below lower bound should map to 0");
}

#[test]
fn test_test_below_lower_bountest_at_lower_bound_returns_zerod_returns_zero() {
    let stored = register(50, 150);
    let result = Calculator::percent_long_collateral(stored, 50).unwrap();
    assert_eq!(result, 0, "price == lower bound should map to 0");
}

#[test]
fn test_test_midpoint_returns_half() {
    let stored = register(50, 150);
    let result = Calculator::percent_long_collateral(stored, 100).unwrap();
    let pct = as_percent(result);
    assert!((pct - 0.5).abs() < 0.0001, "midpoint should map to 0.5, got {}", pct);
}

#[test]
fn test_test_upper_bound_returns_one() {
    let stored = register(50, 150);
    let result = Calculator::percent_long_collateral(stored, 150).unwrap();
    assert_eq!(result, 10_000_000, "price == upper bound should map to 1.0");
}

#[test]
fn test_test_above_upper_bound_clamped() {
    let stored = register(50, 150);
    let result = Calculator::percent_long_collateral(stored, 200).unwrap();
    assert_eq!(result, 10_000_000, "price above upper bound should clamp to 1.0");
}

#[test]
fn test_test_near_lower_bound_quarter_value() {
    let stored = register(50, 150);
    let result = Calculator::percent_long_collateral(stored, 75).unwrap();
    let pct = as_percent(result);
    assert!((pct - 0.25).abs() < 0.001, "expected ~0.25, got {}", pct);
}

#[test]
fn test_test_near_upper_bound_three_quarters() {
    let stored = register(50, 150);
    let result = Calculator::percent_long_collateral(stored, 125).unwrap();
    let pct = as_percent(result);
    assert!((pct - 0.75).abs() < 0.001, "expected ~0.75, got {}", pct);
}

#[test]
fn test_calculator_exact_fractions() {
    let stored = register(50, 150);
    assert_eq!(Calculator::percent_long_collateral(stored, 100), Ok(5_000_000));
    assert_eq!(Calculator::percent_long_collateral(stored, 75), Ok(2_500_000));
    assert_eq!(Calculator::percent_long_collateral(stored, 51), Ok(100_000));
    let stored = register(0, 3);
    assert_eq!(Calculator::percent_long_collateral(stored, 1), Ok(3_333_333));
}

#[test]
fn test_calculator_saturating_product() {
    // a range so wide that the scaled numerator saturates at u128::MAX
    let stored = register(0, u128::MAX);
    let r = Calculator::percent_long_collateral(stored, u128::MAX).unwrap();
    assert_eq!(r, 1);
}

#[test]
fn test_set_parameters_over_zero_entry() {
    let zero = LinearLongShortPairParameters { upper_bound: 0, lower_bound: 0 };
    assert_eq!(
        Calculator::set_parameters(Some(zero), 1, 2),
        Ok(LinearLongShortPairParameters { upper_bound: 2, lower_bound: 1 })
    );
}
