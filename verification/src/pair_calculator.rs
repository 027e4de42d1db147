//! Stateless linear calculator used by long/short pairs: the pair passes its
//! bounds with every request.
use vstd::prelude::*;
use crate::constants::PRICE_PRECISION;
use crate::linear::{linear_fraction, linear_fraction_of};

verus! {

/// Failures of the stateless calculator.
#[derive(Clone, Copy, Debug, PartialEq, Eq, Structural)]
pub enum CalculatorError {
    AlreadyInitialized,
    InvalidBounds,
    ParamsAlreadySet,
    ParamsNotSetForCallingPair,
}

impl CalculatorError {
    /// The contract error code of this failure.
    pub fn code(&self) -> (c: u32)
        ensures
            c == match *self {
                CalculatorError::AlreadyInitialized => 201u32,
                CalculatorError::InvalidBounds => 202,
                CalculatorError::ParamsAlreadySet => 203,
                CalculatorError::ParamsNotSetForCallingPair => 204,
            },
    {
        match self {
            CalculatorError::AlreadyInitialized => 201,
            CalculatorError::InvalidBounds => 202,
            CalculatorError::ParamsAlreadySet => 203,
            CalculatorError::ParamsNotSetForCallingPair => 204,
        }
    }
}

/// Linear long/short pair calculator.
///
/// If the price is within `[lower_bound, upper_bound]` the long side receives
/// `(oracle_price - lower_bound) / (upper_bound - lower_bound)` of the collateral
/// per pair; above the range it receives everything, below it nothing.
pub struct LongShortPairCalculator;

impl LongShortPairCalculator {
    /// Returns the long side's share, in `PRICE_PRECISION` units, at `oracle_price`.
    /// Fails with `InvalidBounds` unless `lower_bound < upper_bound`.
    pub fn percent_long_collateral(
        oracle_price: u128,
        lower_bound: u128,
        upper_bound: u128,
    ) -> (r: Result<u128, CalculatorError>)
        ensures
            lower_bound >= upper_bound <==> r == Err::<u128, CalculatorError>(
                CalculatorError::InvalidBounds),
            lower_bound < upper_bound ==> r == Ok::<u128, CalculatorError>(
                linear_fraction(oracle_price as int, lower_bound as int, upper_bound as int) as u128),
            r matches Ok(v) ==> v <= PRICE_PRECISION,
    {
        if upper_bound == 0 && lower_bound == 0 {
            return Err(CalculatorError::InvalidBounds);
        }
        if lower_bound >= upper_bound {
            return Err(CalculatorError::InvalidBounds);
        }
        Ok(linear_fraction_of(oracle_price, lower_bound, upper_bound))
    }
}

} // verus!
