//! Per-pair linear calculator: each pair registers its price bounds once and then
//! asks for its settlement allocation.
use vstd::prelude::*;
use crate::constants::PRICE_PRECISION;
use crate::linear::{linear_fraction, linear_fraction_of};

verus! {

/// Price bounds a pair registers with the calculator.
#[derive(Clone, Copy, Debug, PartialEq, Eq, Structural)]
pub struct LinearLongShortPairParameters {
    pub upper_bound: u128,
    pub lower_bound: u128,
}

impl LinearLongShortPairParameters {
    /// Stored parameters count as unset while both bounds are zero.
    pub open spec fn is_set(self) -> bool {
        self.upper_bound != 0 || self.lower_bound != 0
    }
}

/// Failures of the calculator.
#[derive(Clone, Copy, Debug, PartialEq, Eq, Structural)]
pub enum CalculatorError {
    AlreadyInitialized,
    InvalidBounds,
    ParamsAlreadySet,
    ParamsNotSetForCallingLSP,
}

impl CalculatorError {
    /// The contract error code of this failure.
    pub fn code(&self) -> (c: u32)
        ensures
            c == match *self {
                CalculatorError::AlreadyInitialized => 201u32,
                CalculatorError::InvalidBounds => 202,
                CalculatorError::ParamsAlreadySet => 203,
                CalculatorError::ParamsNotSetForCallingLSP => 204,
            },
    {
        match self {
            CalculatorError::AlreadyInitialized => 201,
            CalculatorError::InvalidBounds => 202,
            CalculatorError::ParamsAlreadySet => 203,
            CalculatorError::ParamsNotSetForCallingLSP => 204,
        }
    }
}

/// Whether the stored entry of a pair holds parameters.
pub open spec fn params_set(stored: Option<LinearLongShortPairParameters>) -> bool {
    stored matches Some(p) && p.is_set()
}

/// The outcome of registering bounds `[lower_bound, upper_bound]` for a pair whose
/// stored entry is `stored`.
pub open spec fn set_parameters_outcome(
    stored: Option<LinearLongShortPairParameters>,
    lower_bound: u128,
    upper_bound: u128,
) -> Result<LinearLongShortPairParameters, CalculatorError> {
    if upper_bound <= lower_bound {
        Err(CalculatorError::InvalidBounds)
    } else if params_set(stored) {
        Err(CalculatorError::ParamsAlreadySet)
    } else {
        Ok(LinearLongShortPairParameters { upper_bound, lower_bound })
    }
}

/// The outcome of asking for the long side's allocation at `oracle_price`.
pub open spec fn percent_outcome(stored: Option<LinearLongShortPairParameters>, oracle_price: u128) -> Result<u64, CalculatorError> {
    if !params_set(stored) {
        Err(CalculatorError::ParamsNotSetForCallingLSP)
    } else {
        Ok(linear_fraction(oracle_price as int, stored.unwrap().lower_bound as int, stored.unwrap().upper_bound as int) as u64)
    }
}

/// The calculator contract.
pub struct Calculator;

impl Calculator {
    /// Registers the bounds of a pair whose stored entry is `stored`.
    ///
    /// Fails with `InvalidBounds` unless `lower_bound < upper_bound`, and with
    /// `ParamsAlreadySet` when the pair already registered non-zero bounds;
    /// otherwise returns the parameters to store.
    pub fn set_parameters(
        stored: Option<LinearLongShortPairParameters>,
        lower_bound: u128,
        upper_bound: u128,
    ) -> (r: Result<LinearLongShortPairParameters, CalculatorError>)
        ensures
            r == set_parameters_outcome(stored, lower_bound, upper_bound),
    {
        if upper_bound <= lower_bound {
            return Err(CalculatorError::InvalidBounds);
        }
        if let Some(params) = stored {
            if params.upper_bound != 0 || params.lower_bound != 0 {
                return Err(CalculatorError::ParamsAlreadySet);
            }
        }
        Ok(LinearLongShortPairParameters { upper_bound, lower_bound })
    }

    /// Returns, in `PRICE_PRECISION` units (1e7 = 100%), how much of each pair's
    /// collateral the long token is entitled to at `oracle_price`, for the pair
    /// whose stored entry is `stored`.
    ///
    /// Fails with `ParamsNotSetForCallingLSP` when the pair has no bounds.
    pub fn percent_long_collateral(
        stored: Option<LinearLongShortPairParameters>,
        oracle_price: u128,
    ) -> (r: Result<u64, CalculatorError>)
        ensures
            r == percent_outcome(stored, oracle_price),
            r matches Ok(v) ==> v <= PRICE_PRECISION,
    {
        match stored {
            None => Err(CalculatorError::ParamsNotSetForCallingLSP),
            Some(params) => {
                if params.upper_bound == 0 && params.lower_bound == 0 {
                    return Err(CalculatorError::ParamsNotSetForCallingLSP);
                }
                let fraction = linear_fraction_of(oracle_price, params.lower_bound, params.upper_bound);
                Ok(fraction as u64)
            },
        }
    }
}

/// Bounds can be registered once: after a successful registration the pair's
/// allocation can be asked for, lies within 100%, and any further registration
/// with valid bounds fails with `ParamsAlreadySet`.
pub proof fn lemma_parameters_set_once(
    stored: Option<LinearLongShortPairParameters>,
    lower_bound: u128,
    upper_bound: u128,
    next_lower: u128,
    next_upper: u128,
    oracle_price: u128,
)
    requires
        set_parameters_outcome(stored, lower_bound, upper_bound) is Ok,
        next_lower < next_upper,
    ensures
        ({
            let p = set_parameters_outcome(stored, lower_bound, upper_bound).unwrap();
            &&& set_parameters_outcome(Some(p), next_lower, next_upper) == Err::<
                LinearLongShortPairParameters,
                CalculatorError,
            >(CalculatorError::ParamsAlreadySet)
            &&& percent_outcome(Some(p), oracle_price) matches Ok(v) && v <= PRICE_PRECISION
        }),
{
    crate::linear::lemma_linear_fraction_bounded(oracle_price as int, lower_bound as int, upper_bound as int);
}

} // verus!
