//! Protocol-wide fixed-point scales and time constants.
use vstd::prelude::*;

verus! {

/// Scale of prices and of the settlement allocation: 10_000_000 represents 1.0.
pub const PRICE_PRECISION: u128 = 10_000_000;

/// Scale of relative quantities (volatility ratios, divergence limits).
pub const PERCENTAGE_PRECISION: u128 = 1_000_000;

/// `PERCENTAGE_PRECISION` as a `u64`.
pub const PERCENTAGE_PRECISION_U64: u64 = 1_000_000;

/// Scale of percentages in funding computations: 10_000 represents 100%.
pub const PERCENT_MULTIPLIER: u128 = 10_000;

/// Extra precision applied to funding rates.
pub const FUNDING_RATE_BUFFER: u128 = 1_000;

/// Fee fractions of a pool are expressed in 1 / `FEE_MULTIPLIER` units (30 = 0.3%).
pub const FEE_MULTIPLIER: u128 = 10_000;

/// Seconds in five minutes: the oracle TWAP window.
pub const FIVE_MINUTE: u64 = 300;

/// Seconds in one hour.
pub const ONE_HOUR: u64 = 3_600;

/// Seconds in one day: the funding-rate average window.
pub const TWENTY_FOUR_HOUR: u64 = 86_400;

/// Default band denominator for sanitising oracle updates (a third of the TWAP).
pub const DEFAULT_MAX_TWAP_UPDATE_PRICE_BAND_DENOMINATOR: u64 = 3;

} // verus!
