//! The normal oracle: a proxy in front of an upstream price feed that converts the
//! feed's prices to `PRICE_PRECISION` and holds the guard rails consumers apply.
use vstd::prelude::*;
use crate::constants::{FIVE_MINUTE, PERCENTAGE_PRECISION_U64, PRICE_PRECISION, TWENTY_FOUR_HOUR};
use crate::oracle::{OraclePriceData, price_data_from_feed};

verus! {

/// Kind of upstream price feed.
#[derive(Clone, Copy, Debug, PartialEq, Eq, Structural)]
pub enum OracleSource {
    Reflector,
}

/// Failures of the normal oracle. `OracleNonPositive` is a negative upstream price.
#[derive(Clone, Copy, Debug, PartialEq, Eq, Structural)]
pub enum NormalOracleError {
    AlreadyInitialized,
    AssetSupported,
    AssetNotSupported,
    FailedToGetOraclePrice,
    InvalidInput,
    InvalidOracleSource,
    OracleNonPositive,
}

impl NormalOracleError {
    /// The contract error code of this failure.
    pub fn code(&self) -> (c: u32)
        ensures
            c == match *self {
                NormalOracleError::AlreadyInitialized => 201u32,
                NormalOracleError::AssetSupported => 202,
                NormalOracleError::AssetNotSupported => 203,
                NormalOracleError::FailedToGetOraclePrice => 204,
                NormalOracleError::InvalidInput => 205,
                NormalOracleError::InvalidOracleSource => 206,
                NormalOracleError::OracleNonPositive => 207,
            },
    {
        match self {
            NormalOracleError::AlreadyInitialized => 201,
            NormalOracleError::AssetSupported => 202,
            NormalOracleError::AssetNotSupported => 203,
            NormalOracleError::FailedToGetOraclePrice => 204,
            NormalOracleError::InvalidInput => 205,
            NormalOracleError::InvalidOracleSource => 206,
            NormalOracleError::OracleNonPositive => 207,
        }
    }
}

/// Guard-rail parameters applied to oracle prices.
#[derive(Clone, Copy, Debug, PartialEq, Eq, Structural)]
pub struct GuardRails {
    /// Age in seconds after which a price is stale.
    pub seconds_before_stale: u64,
    /// Largest relative move between updates, in `PERCENTAGE_PRECISION` units.
    pub too_volatile_ratio: u64,
    /// New prices are clamped to `last_price ± last_price / sanitize_clamp_denominator`.
    pub sanitize_clamp_denominator: u128,
}

/// Whether guard rails are acceptable: staleness between one second and a day, a
/// volatility ratio of at most 100%, and a clamp denominator of at most 10_000.
pub open spec fn guard_rails_valid(g: GuardRails) -> bool {
    &&& 0 < g.seconds_before_stale <= TWENTY_FOUR_HOUR
    &&& g.too_volatile_ratio <= PERCENTAGE_PRECISION_U64
    &&& g.sanitize_clamp_denominator <= 10_000
}

/// Fails with `InvalidInput` unless the guard rails are acceptable.
pub fn validate_guard_rails(guard_rails: &GuardRails) -> (r: Result<(), NormalOracleError>)
    ensures
        r is Ok <==> guard_rails_valid(*guard_rails),
        r matches Err(e) ==> e == NormalOracleError::InvalidInput,
{
    if guard_rails.seconds_before_stale == 0 || guard_rails.seconds_before_stale > TWENTY_FOUR_HOUR {
        return Err(NormalOracleError::InvalidInput);
    }
    if guard_rails.too_volatile_ratio > PERCENTAGE_PRECISION_U64 {
        return Err(NormalOracleError::InvalidInput);
    }
    if guard_rails.sanitize_clamp_denominator > 10_000 {
        return Err(NormalOracleError::InvalidInput);
    }
    Ok(())
}

/// Checks an oracle configuration: the source must be one the proxy supports
/// (the Reflector source is refused), and the upstream feed must answer for the
/// asset (`feed_answers`).
pub fn validate_oracle(source: OracleSource, feed_answers: bool) -> (r: Result<(), NormalOracleError>)
    ensures
        source == OracleSource::Reflector ==> r == Err::<(), NormalOracleError>(NormalOracleError::InvalidOracleSource),
        source != OracleSource::Reflector && !feed_answers ==> r == Err::<(), NormalOracleError>(
            NormalOracleError::FailedToGetOraclePrice),
        source != OracleSource::Reflector && feed_answers ==> r is Ok,
{
    if source == OracleSource::Reflector {
        return Err(NormalOracleError::InvalidOracleSource);
    }
    if !feed_answers {
        return Err(NormalOracleError::FailedToGetOraclePrice);
    }
    Ok(())
}

/// Stored configuration of a normal oracle.
#[derive(Clone, Copy, Debug, PartialEq, Eq, Structural)]
pub struct NormalOracle {
    pub oracle_source: OracleSource,
    pub seconds_before_stale: u64,
    pub too_volatile_ratio: u64,
    pub sanitize_clamp_denominator: u128,
}

impl NormalOracle {
    /// A freshly initialised oracle: five minutes before stale, ±20% volatility,
    /// ±10% clamp per update.
    pub fn new(oracle_source: OracleSource) -> (o: NormalOracle)
        ensures
            o == (NormalOracle {
                oracle_source,
                seconds_before_stale: FIVE_MINUTE,
                too_volatile_ratio: (PERCENTAGE_PRECISION_U64 / 5) as u64,
                sanitize_clamp_denominator: 10,
            }),
    {
        NormalOracle {
            oracle_source,
            seconds_before_stale: FIVE_MINUTE,
            too_volatile_ratio: PERCENTAGE_PRECISION_U64 / 5,
            sanitize_clamp_denominator: 10,
        }
    }

    /// Converts the upstream answer, a price with `PRICE_PRECISION` extra decimals and
    /// its publication time (`None` when the call failed), into price data at `now`.
    pub fn get_price(&self, upstream: Option<(i128, u64)>, now: u64) -> (r: Result<OraclePriceData, NormalOracleError>)
        requires
            now > 0,
        ensures
            upstream is None ==> r == Err::<OraclePriceData, NormalOracleError>(NormalOracleError::FailedToGetOraclePrice),
            upstream matches Some((p, ts)) ==> {
                &&& p < 0 ==> r == Err::<OraclePriceData, NormalOracleError>(NormalOracleError::OracleNonPositive)
                &&& (p >= 0 && ts > now) ==> r == Err::<OraclePriceData, NormalOracleError>(
                    NormalOracleError::FailedToGetOraclePrice)
                &&& (p >= 0 && ts <= now) ==> r == Ok::<OraclePriceData, NormalOracleError>(
                    OraclePriceData { price: (p as int / PRICE_PRECISION as int) as u128, delay: (now - ts) as u64 })
            },
    {
        match self.oracle_source {
            OracleSource::Reflector => {
                let (price, published_ts) = match upstream {
                    Some(a) => a,
                    None => return Err(NormalOracleError::FailedToGetOraclePrice),
                };
                if price < 0 {
                    return Err(NormalOracleError::OracleNonPositive);
                }
                match price_data_from_feed(price, published_ts, now) {
                    Some(d) => Ok(d),
                    None => Err(NormalOracleError::FailedToGetOraclePrice),
                }
            },
        }
    }

    /// Sets the staleness limit.
    pub fn set_seconds_before_stale(&mut self, stale_limit: u64)
        ensures
            *final(self) == (NormalOracle { seconds_before_stale: stale_limit, ..*old(self) }),
    {
        self.seconds_before_stale = stale_limit;
    }

    /// Sets the volatility ratio.
    pub fn set_too_volatile_ratio(&mut self, too_volatile_ratio: u64)
        ensures
            *final(self) == (NormalOracle { too_volatile_ratio, ..*old(self) }),
    {
        self.too_volatile_ratio = too_volatile_ratio;
    }

    /// Sets the clamp denominator.
    pub fn set_sanitize_clamp_denominator(&mut self, sanitize_clamp_denominator: u128)
        ensures
            *final(self) == (NormalOracle { sanitize_clamp_denominator, ..*old(self) }),
    {
        self.sanitize_clamp_denominator = sanitize_clamp_denominator;
    }

    /// The current guard rails.
    pub fn get_guard_rails(&self) -> (g: GuardRails)
        ensures
            g == (GuardRails {
                seconds_before_stale: self.seconds_before_stale,
                too_volatile_ratio: self.too_volatile_ratio,
                sanitize_clamp_denominator: self.sanitize_clamp_denominator,
            }),
    {
        GuardRails {
            seconds_before_stale: self.seconds_before_stale,
            too_volatile_ratio: self.too_volatile_ratio,
            sanitize_clamp_denominator: self.sanitize_clamp_denominator,
        }
    }
}

/// The default guard rails of a new oracle are acceptable.
pub proof fn lemma_default_guard_rails_valid()
    ensures
        guard_rails_valid(GuardRails {
            seconds_before_stale: FIVE_MINUTE,
            too_volatile_ratio: (PERCENTAGE_PRECISION_U64 / 5) as u64,
            sanitize_clamp_denominator: 10,
        }),
{
}

} // verus!
