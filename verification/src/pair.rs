//! The long/short pair: collateral accounting for minting and redeeming equal
//! amounts of long and short tokens, settlement allocation kept in sync with
//! the oracle TWAP, and one-sided redemption after expiry.
//!
//! Token transfers, token mints and burns, and the oracle and calculator calls
//! are performed around these functions by the contract host; each function
//! here decides the outcome from plain values and updates the pair's state.
use vstd::prelude::*;
use crate::constants::PRICE_PRECISION;
use crate::fixed_point::{u128_fixed_mul_floor, mul_div_floor_spec};

verus! {

/// Lifecycle of a pair.
#[derive(Clone, Copy, Debug, PartialEq, Eq, Structural)]
pub enum PairStatus {
    Inactive,
    Active,
    Expired,
}

/// One leg of a pair.
#[derive(Clone, Copy, Debug, PartialEq, Eq, Structural)]
pub enum Side {
    Long,
    Short,
}

/// Failures of the pair contract. `MathOverflow` stands for an arithmetic result
/// that does not fit its integer type.
#[derive(Clone, Copy, Debug, PartialEq, Eq, Structural)]
pub enum LongShortPairError {
    AlreadyInitialized,
    InvalidOracle,
    InvalidInput,
    FailedToGetPoolReserves,
    FailedToGetCalculatorPercent,
    FailedToUpdateTokenScalingFactor,
    FailedToGetOraclePrice,
    PoolsNotSet,
    FundingRateRequiresPoolLiquidity,
    InvalidCalculatorValue,
    MintingDisabled,
    InvalidStatus,
    InsufficientInventory,
    ActionPaused,
    PairExpired,
    CollateralTypeDisabled,
    MathOverflow,
    FundingWasNotUpdated,
}

impl LongShortPairError {
    /// The contract error code of this failure.
    pub fn code(&self) -> (c: u32)
        ensures
            c == match *self {
                LongShortPairError::AlreadyInitialized => 201u32,
                LongShortPairError::InvalidOracle => 203,
                LongShortPairError::InvalidInput => 204,
                LongShortPairError::FailedToGetPoolReserves => 206,
                LongShortPairError::FailedToGetCalculatorPercent => 207,
                LongShortPairError::FailedToUpdateTokenScalingFactor => 208,
                LongShortPairError::FailedToGetOraclePrice => 209,
                LongShortPairError::PoolsNotSet => 210,
                LongShortPairError::FundingRateRequiresPoolLiquidity => 211,
                LongShortPairError::InvalidCalculatorValue => 212,
                LongShortPairError::MintingDisabled => 213,
                LongShortPairError::InvalidStatus => 214,
                LongShortPairError::InsufficientInventory => 215,
                LongShortPairError::ActionPaused => 216,
                LongShortPairError::PairExpired => 217,
                LongShortPairError::CollateralTypeDisabled => 218,
                LongShortPairError::MathOverflow => 219,
                LongShortPairError::FundingWasNotUpdated => 205,
            },
    {
        match self {
            LongShortPairError::AlreadyInitialized => 201,
            LongShortPairError::InvalidOracle => 203,
            LongShortPairError::InvalidInput => 204,
            LongShortPairError::FailedToGetPoolReserves => 206,
            LongShortPairError::FailedToGetCalculatorPercent => 207,
            LongShortPairError::FailedToUpdateTokenScalingFactor => 208,
            LongShortPairError::FailedToGetOraclePrice => 209,
            LongShortPairError::PoolsNotSet => 210,
            LongShortPairError::FundingRateRequiresPoolLiquidity => 211,
            LongShortPairError::InvalidCalculatorValue => 212,
            LongShortPairError::MintingDisabled => 213,
            LongShortPairError::InvalidStatus => 214,
            LongShortPairError::InsufficientInventory => 215,
            LongShortPairError::ActionPaused => 216,
            LongShortPairError::PairExpired => 217,
            LongShortPairError::CollateralTypeDisabled => 218,
            LongShortPairError::MathOverflow => 219,
            LongShortPairError::FundingWasNotUpdated => 205,
        }
    }
}

/// The privileged roles an address holds on a pair.
#[derive(Clone, Copy, Debug, PartialEq, Eq, Structural)]
pub struct CallerRoles {
    pub is_admin: bool,
    pub is_pause_admin: bool,
    pub is_emergency_pause_admin: bool,
    pub is_operations_admin: bool,
}

/// Administrative actions on a pair.
#[derive(Clone, Copy, Debug, PartialEq, Eq, Structural)]
pub enum AdminAction {
    KillMint,
    KillRedeem,
    UnkillMint,
    UnkillRedeem,
    SetCalculator,
    SetOracle,
}

/// Who may act: pausing and resuming is open to the admin and both pause admins;
/// replacing the calculator or the oracle to the admin and the operations admin.
pub open spec fn action_allowed(roles: CallerRoles, action: AdminAction) -> bool {
    match action {
        AdminAction::SetCalculator | AdminAction::SetOracle => roles.is_admin || roles.is_operations_admin,
        _ => roles.is_admin || roles.is_pause_admin || roles.is_emergency_pause_admin,
    }
}

/// Whether a caller holding `roles` may perform `action`.
pub fn is_action_allowed(roles: &CallerRoles, action: AdminAction) -> (r: bool)
    ensures
        r == action_allowed(*roles, action),
{
    match action {
        AdminAction::SetCalculator | AdminAction::SetOracle => roles.is_admin || roles.is_operations_admin,
        _ => roles.is_admin || roles.is_pause_admin || roles.is_emergency_pause_admin,
    }
}

/// Parameters a pair is created with.
#[derive(Clone, Copy, Debug, PartialEq, Eq, Structural)]
pub struct PairParams {
    /// Collateral needed per long+short pair, in `PRICE_PRECISION` units.
    pub collateral_per_pair: u128,
    pub lower_bound: u128,
    pub upper_bound: u128,
}

/// Collateral configuration and settlement information of a pair.
#[derive(Clone, Copy, Debug, PartialEq, Eq, Structural)]
pub struct CollateralInfo {
    pub total_collateral: u128,
    pub collateral_per_pair: u128,
    pub collateral_percent_long: u128,
}

/// Price bounds of a pair.
#[derive(Clone, Copy, Debug, PartialEq, Eq, Structural)]
pub struct PairPriceBounds {
    pub lower: u128,
    pub upper: u128,
}

/// The stored state of a long/short pair.
#[derive(Clone, Copy, Debug, PartialEq, Eq, Structural)]
pub struct LongShortPair {
    pub status: PairStatus,
    pub lower_bound: u128,
    pub upper_bound: u128,
    /// Collateral needed per long+short pair, in `PRICE_PRECISION` units.
    pub collateral_per_pair: u128,
    /// Settlement share of the long side, in `PRICE_PRECISION` units.
    pub collateral_percent_long: u128,
    /// Collateral the pair accounts for.
    pub total_collateral: u128,
    pub is_killed_mint: bool,
    pub is_killed_redeem: bool,
    /// When the allocation was last updated.
    pub last_update_ts: u64,
    /// When the pair expired, 0 while it has not.
    pub expiration_ts: u64,
}

/// Collateral owed for `tokens` pairs: `floor(tokens * collateral_per_pair / PRICE_PRECISION)`.
pub open spec fn collateral_for(tokens: int, collateral_per_pair: int) -> int {
    tokens * collateral_per_pair / PRICE_PRECISION as int
}

/// The share of `collateral` owed at settlement share `pct`.
pub open spec fn share_of(collateral: int, pct: int) -> int {
    collateral * pct / PRICE_PRECISION as int
}

/// Whether a TWAP has reached or crossed either bound.
pub open spec fn breaches_bounds(twap: int, lower: int, upper: int) -> bool {
    twap <= lower || twap >= upper
}

impl LongShortPair {
    /// The state after a successful synchronisation with oracle TWAP `twap` and
    /// calculator output `percent` at time `now`.
    pub open spec fn synced_with(self, twap: u128, percent: u128, now: u64) -> LongShortPair {
        let expires = breaches_bounds(twap as int, self.lower_bound as int, self.upper_bound as int);
        LongShortPair {
            last_update_ts: now,
            collateral_percent_long: percent,
            status: if expires { PairStatus::Expired } else { self.status },
            expiration_ts: if expires { now } else { self.expiration_ts },
            ..self
        }
    }

    /// The outcome of synchronising the settlement allocation: an expired pair is
    /// left as it is; otherwise the oracle TWAP and the calculator output are needed
    /// and the output may not exceed 100%.
    pub open spec fn sync_outcome(
        self,
        twap: Option<u128>,
        percent: Option<u128>,
        now: u64,
    ) -> Result<LongShortPair, LongShortPairError> {
        if self.status == PairStatus::Expired {
            Ok(self)
        } else if twap is None {
            Err(LongShortPairError::FailedToGetOraclePrice)
        } else if percent is None {
            Err(LongShortPairError::FailedToGetCalculatorPercent)
        } else if percent.unwrap() > PRICE_PRECISION {
            Err(LongShortPairError::InvalidCalculatorValue)
        } else {
            Ok(self.synced_with(twap.unwrap(), percent.unwrap(), now))
        }
    }

    /// The outcome of minting `tokens` pairs: the collateral pulled in and the new state.
    pub open spec fn mint_outcome(self, tokens: u128) -> Result<(u128, LongShortPair), LongShortPairError> {
        let c = collateral_for(tokens as int, self.collateral_per_pair as int);
        if tokens == 0 {
            Err(LongShortPairError::InvalidInput)
        } else if self.is_killed_mint {
            Err(LongShortPairError::ActionPaused)
        } else if self.status != PairStatus::Active {
            Err(LongShortPairError::MintingDisabled)
        } else if tokens * self.collateral_per_pair > u128::MAX || c > i128::MAX
            || self.total_collateral + c > u128::MAX {
            Err(LongShortPairError::MathOverflow)
        } else {
            Ok((c as u128, LongShortPair { total_collateral: (self.total_collateral + c) as u128, ..self }))
        }
    }

    /// The outcome of redeeming `tokens` pairs from the synchronised state `self`.
    pub open spec fn redeem_synced_outcome(self, tokens: u128) -> Result<(u128, LongShortPair), LongShortPairError> {
        let c = collateral_for(tokens as int, self.collateral_per_pair as int);
        if tokens * self.collateral_per_pair > u128::MAX {
            Err(LongShortPairError::MathOverflow)
        } else if c > self.total_collateral {
            Err(LongShortPairError::InsufficientInventory)
        } else if c > i128::MAX {
            Err(LongShortPairError::MathOverflow)
        } else {
            Ok((c as u128, LongShortPair { total_collateral: (self.total_collateral - c) as u128, ..self }))
        }
    }

    /// The outcome of redeeming `tokens` pairs, synchronising first.
    pub open spec fn redeem_outcome(
        self,
        tokens: u128,
        twap: Option<u128>,
        percent: Option<u128>,
        now: u64,
    ) -> Result<(u128, LongShortPair), LongShortPairError> {
        if tokens == 0 {
            Err(LongShortPairError::InvalidInput)
        } else if self.is_killed_redeem {
            Err(LongShortPairError::ActionPaused)
        } else {
            match self.sync_outcome(twap, percent, now) {
                Err(e) => Err(e),
                Ok(s) => s.redeem_synced_outcome(tokens),
            }
        }
    }

    /// The settlement share of `side` in state `self`.
    pub open spec fn side_pct(self, side: Side) -> int {
        match side {
            Side::Long => self.collateral_percent_long as int,
            Side::Short => PRICE_PRECISION - self.collateral_percent_long,
        }
    }

    /// The outcome of redeeming `tokens` of one `side` from the synchronised state `self`.
    pub open spec fn redeem_one_synced_outcome(self, side: Side, tokens: u128) -> Result<(u128, LongShortPair), LongShortPairError> {
        let base = collateral_for(tokens as int, self.collateral_per_pair as int);
        let pct = self.side_pct(side);
        let c = share_of(base, pct);
        if self.status != PairStatus::Expired {
            Err(LongShortPairError::InvalidStatus)
        } else if self.collateral_percent_long > PRICE_PRECISION {
            Err(LongShortPairError::MathOverflow)
        } else if pct == 0 {
            Err(LongShortPairError::InsufficientInventory)
        } else if tokens * self.collateral_per_pair > u128::MAX || base * pct > u128::MAX {
            Err(LongShortPairError::MathOverflow)
        } else if c == 0 {
            Err(LongShortPairError::InvalidInput)
        } else if c > self.total_collateral {
            Err(LongShortPairError::InsufficientInventory)
        } else if c > i128::MAX {
            Err(LongShortPairError::MathOverflow)
        } else {
            Ok((c as u128, LongShortPair { total_collateral: (self.total_collateral - c) as u128, ..self }))
        }
    }

    /// The outcome of redeeming `tokens` of one `side`, synchronising first.
    pub open spec fn redeem_one_outcome(
        self,
        side: Side,
        tokens: u128,
        twap: Option<u128>,
        percent: Option<u128>,
        now: u64,
    ) -> Result<(u128, LongShortPair), LongShortPairError> {
        if tokens == 0 {
            Err(LongShortPairError::InvalidInput)
        } else if self.is_killed_redeem {
            Err(LongShortPairError::ActionPaused)
        } else {
            match self.sync_outcome(twap, percent, now) {
                Err(e) => Err(e),
                Ok(s) => s.redeem_one_synced_outcome(side, tokens),
            }
        }
    }

    /// A freshly constructed pair: active, with the given collateral and bounds,
    /// a 50% allocation, no collateral and nothing paused.
    pub fn new(params: PairParams) -> (pair: LongShortPair)
        ensures
            pair == (LongShortPair {
                status: PairStatus::Active,
                lower_bound: params.lower_bound,
                upper_bound: params.upper_bound,
                collateral_per_pair: params.collateral_per_pair,
                collateral_percent_long: 5_000_000,
                total_collateral: 0,
                is_killed_mint: false,
                is_killed_redeem: false,
                last_update_ts: 0,
                expiration_ts: 0,
            }),
    {
        LongShortPair {
            status: PairStatus::Active,
            lower_bound: params.lower_bound,
            upper_bound: params.upper_bound,
            collateral_per_pair: params.collateral_per_pair,
            collateral_percent_long: 5_000_000,
            total_collateral: 0,
            is_killed_mint: false,
            is_killed_redeem: false,
            last_update_ts: 0,
            expiration_ts: 0,
        }
    }

    /// Collateral owed for `tokens` pairs, or `MathOverflow`.
    fn collateral_for_tokens(&self, tokens: u128) -> (r: Result<u128, LongShortPairError>)
        ensures
            tokens * self.collateral_per_pair > u128::MAX ==> r == Err::<u128, LongShortPairError>(
                LongShortPairError::MathOverflow),
            tokens * self.collateral_per_pair <= u128::MAX ==> r == Ok::<u128, LongShortPairError>(
                collateral_for(tokens as int, self.collateral_per_pair as int) as u128),
    {
        proof {
            assert(tokens * self.collateral_per_pair >= 0) by (nonlinear_arith);
        }
        match u128_fixed_mul_floor(tokens, self.collateral_per_pair, PRICE_PRECISION) {
            Some(c) => Ok(c),
            None => Err(LongShortPairError::MathOverflow),
        }
    }

    /// Updates the settlement allocation from the oracle TWAP (`twap`, `None` when the
    /// oracle call failed) and the calculator's output for it (`percent`, `None` when
    /// that call failed), at time `now`. An expired pair is left unchanged; a pair whose
    /// TWAP reached or crossed either bound expires.
    pub fn sync_collateral(
        &mut self,
        twap: Option<u128>,
        percent: Option<u128>,
        now: u64,
    ) -> (r: Result<(), LongShortPairError>)
        ensures
            match old(self).sync_outcome(twap, percent, now) {
                Ok(s) => r is Ok && *final(self) == s,
                Err(e) => r == Err::<(), LongShortPairError>(e) && *final(self) == *old(self),
            },
    {
        if self.status == PairStatus::Expired {
            return Ok(());
        }
        let twap = match twap {
            Some(t) => t,
            None => return Err(LongShortPairError::FailedToGetOraclePrice),
        };
        let new_collateral_percent_long = match percent {
            Some(p) => p,
            None => return Err(LongShortPairError::FailedToGetCalculatorPercent),
        };
        if new_collateral_percent_long > PRICE_PRECISION {
            return Err(LongShortPairError::InvalidCalculatorValue);
        }
        self.last_update_ts = now;
        self.collateral_percent_long = new_collateral_percent_long;
        if twap <= self.lower_bound || twap >= self.upper_bound {
            self.status = PairStatus::Expired;
            self.expiration_ts = now;
        }
        Ok(())
    }

    /// Mints `tokens_to_mint` long and short tokens against collateral: returns the
    /// collateral to pull in, `floor(tokens_to_mint * collateral_per_pair / PRICE_PRECISION)`,
    /// and adds it to the total.
    pub fn mint(&mut self, tokens_to_mint: u128) -> (r: Result<u128, LongShortPairError>)
        ensures
            match old(self).mint_outcome(tokens_to_mint) {
                Ok((c, s)) => r == Ok::<u128, LongShortPairError>(c) && *final(self) == s,
                Err(e) => r == Err::<u128, LongShortPairError>(e) && *final(self) == *old(self),
            },
    {
        if tokens_to_mint == 0 {
            return Err(LongShortPairError::InvalidInput);
        }
        if self.is_killed_mint {
            return Err(LongShortPairError::ActionPaused);
        }
        if self.status != PairStatus::Active {
            return Err(LongShortPairError::MintingDisabled);
        }
        let collateral_used = self.collateral_for_tokens(tokens_to_mint)?;
        if collateral_used > i128::MAX as u128 {
            return Err(LongShortPairError::MathOverflow);
        }
        let new_total = match self.total_collateral.checked_add(collateral_used) {
            Some(t) => t,
            None => return Err(LongShortPairError::MathOverflow),
        };
        self.total_collateral = new_total;
        Ok(collateral_used)
    }

    /// Redeems `tokens_to_redeem` long and short tokens for collateral after
    /// synchronising the allocation (see `sync_collateral`): returns
    /// `floor(tokens_to_redeem * collateral_per_pair / PRICE_PRECISION)` and takes it
    /// off the total. On failure the state is unchanged.
    pub fn redeem(
        &mut self,
        tokens_to_redeem: u128,
        twap: Option<u128>,
        percent: Option<u128>,
        now: u64,
    ) -> (r: Result<u128, LongShortPairError>)
        ensures
            match old(self).redeem_outcome(tokens_to_redeem, twap, percent, now) {
                Ok((c, s)) => r == Ok::<u128, LongShortPairError>(c) && *final(self) == s,
                Err(e) => r == Err::<u128, LongShortPairError>(e) && *final(self) == *old(self),
            },
    {
        if tokens_to_redeem == 0 {
            return Err(LongShortPairError::InvalidInput);
        }
        if self.is_killed_redeem {
            return Err(LongShortPairError::ActionPaused);
        }
        let mut next = *self;
        next.sync_collateral(twap, percent, now)?;
        let collateral_returned = next.collateral_for_tokens(tokens_to_redeem)?;
        if collateral_returned > next.total_collateral {
            return Err(LongShortPairError::InsufficientInventory);
        }
        if collateral_returned > i128::MAX as u128 {
            return Err(LongShortPairError::MathOverflow);
        }
        next.total_collateral = next.total_collateral - collateral_returned;
        *self = next;
        Ok(collateral_returned)
    }

    /// Redeems `tokens_to_redeem` tokens of one `side` after expiry, paying that side's
    /// settlement share of the collateral per pair. Synchronises first (see
    /// `sync_collateral`). On failure the state is unchanged.
    pub fn redeem_one(
        &mut self,
        side: Side,
        tokens_to_redeem: u128,
        twap: Option<u128>,
        percent: Option<u128>,
        now: u64,
    ) -> (r: Result<u128, LongShortPairError>)
        ensures
            match old(self).redeem_one_outcome(side, tokens_to_redeem, twap, percent, now) {
                Ok((c, s)) => r == Ok::<u128, LongShortPairError>(c) && *final(self) == s,
                Err(e) => r == Err::<u128, LongShortPairError>(e) && *final(self) == *old(self),
            },
    {
        if tokens_to_redeem == 0 {
            return Err(LongShortPairError::InvalidInput);
        }
        if self.is_killed_redeem {
            return Err(LongShortPairError::ActionPaused);
        }
        let mut next = *self;
        next.sync_collateral(twap, percent, now)?;
        if next.status != PairStatus::Expired {
            return Err(LongShortPairError::InvalidStatus);
        }
        let collateral_percent_long = next.collateral_percent_long;
        if collateral_percent_long > PRICE_PRECISION {
            return Err(LongShortPairError::MathOverflow);
        }
        let collateral_percent_short = PRICE_PRECISION - collateral_percent_long;
        let side_pct = match side {
            Side::Long => collateral_percent_long,
            Side::Short => collateral_percent_short,
        };
        if side_pct == 0 {
            return Err(LongShortPairError::InsufficientInventory);
        }
        let base = next.collateral_for_tokens(tokens_to_redeem)?;
        proof {
            assert(base * side_pct >= 0) by (nonlinear_arith);
        }
        let collateral_to_return = match u128_fixed_mul_floor(base, side_pct, PRICE_PRECISION) {
            Some(c) => c,
            None => return Err(LongShortPairError::MathOverflow),
        };
        if collateral_to_return == 0 {
            return Err(LongShortPairError::InvalidInput);
        }
        if collateral_to_return > next.total_collateral {
            return Err(LongShortPairError::InsufficientInventory);
        }
        if collateral_to_return > i128::MAX as u128 {
            return Err(LongShortPairError::MathOverflow);
        }
        next.total_collateral = next.total_collateral - collateral_to_return;
        *self = next;
        Ok(collateral_to_return)
    }
    /// Whether a redemption of `tokens_to_redeem` needs the oracle TWAP and the
    /// calculator output: only when it passes the amount and pause checks and the
    /// pair has not expired. Otherwise its outcome does not depend on them.
    pub fn needs_settlement_inputs(&self, tokens_to_redeem: u128) -> (r: bool)
        ensures
            r == (tokens_to_redeem != 0 && !self.is_killed_redeem && self.status != PairStatus::Expired),
    {
        tokens_to_redeem != 0 && !self.is_killed_redeem && self.status != PairStatus::Expired
    }

    /// The scaled price implied by the allocation:
    /// `lower_bound + (upper_bound - lower_bound) * collateral_percent_long / PRICE_PRECISION`.
    pub open spec fn scaled_price(self) -> int {
        (self.upper_bound - self.lower_bound) * self.collateral_percent_long / PRICE_PRECISION as int
            + self.lower_bound
    }

    /// Maps the allocation linearly into the price bounds. Fails with `MathOverflow`
    /// when the bounds are inverted or an intermediate value does not fit in `u128`.
    pub fn get_scaled_price(&self) -> (r: Result<u128, LongShortPairError>)
        ensures
            (self.lower_bound <= self.upper_bound
                && (self.upper_bound - self.lower_bound) * self.collateral_percent_long <= u128::MAX
                && self.scaled_price() <= u128::MAX) <==> r is Ok,
            r matches Ok(v) ==> v == self.scaled_price(),
            r matches Err(e) ==> e == LongShortPairError::MathOverflow,
    {
        if self.upper_bound < self.lower_bound {
            return Err(LongShortPairError::MathOverflow);
        }
        let price_bound_delta = self.upper_bound - self.lower_bound;
        let scaled = match price_bound_delta.checked_mul(self.collateral_percent_long) {
            Some(v) => v,
            None => return Err(LongShortPairError::MathOverflow),
        };
        let scaled = scaled / PRICE_PRECISION;
        match scaled.checked_add(self.lower_bound) {
            Some(v) => Ok(v),
            None => Err(LongShortPairError::MathOverflow),
        }
    }

    /// The settlement share of the long side, in `PRICE_PRECISION` units.
    pub fn get_price(&self) -> (r: u128)
        ensures
            r == self.collateral_percent_long,
    {
        self.collateral_percent_long
    }

    /// The lifecycle status.
    pub fn get_status(&self) -> (r: PairStatus)
        ensures
            r == self.status,
    {
        self.status
    }

    /// The configured price bounds.
    pub fn get_price_bounds(&self) -> (r: PairPriceBounds)
        ensures
            r == (PairPriceBounds { lower: self.lower_bound, upper: self.upper_bound }),
    {
        PairPriceBounds { lower: self.lower_bound, upper: self.upper_bound }
    }

    /// Collateral configuration and settlement information.
    pub fn get_collateral_info(&self) -> (r: CollateralInfo)
        ensures
            r == (CollateralInfo {
                total_collateral: self.total_collateral,
                collateral_per_pair: self.collateral_per_pair,
                collateral_percent_long: self.collateral_percent_long,
            }),
    {
        CollateralInfo {
            total_collateral: self.total_collateral,
            collateral_per_pair: self.collateral_per_pair,
            collateral_percent_long: self.collateral_percent_long,
        }
    }

    /// Pauses minting.
    pub fn kill_mint(&mut self)
        ensures
            *final(self) == (LongShortPair { is_killed_mint: true, ..*old(self) }),
    {
        self.is_killed_mint = true;
    }

    /// Pauses redemptions.
    pub fn kill_redeem(&mut self)
        ensures
            *final(self) == (LongShortPair { is_killed_redeem: true, ..*old(self) }),
    {
        self.is_killed_redeem = true;
    }

    /// Resumes minting.
    pub fn unkill_mint(&mut self)
        ensures
            *final(self) == (LongShortPair { is_killed_mint: false, ..*old(self) }),
    {
        self.is_killed_mint = false;
    }

    /// Resumes redemptions.
    pub fn unkill_redeem(&mut self)
        ensures
            *final(self) == (LongShortPair { is_killed_redeem: false, ..*old(self) }),
    {
        self.is_killed_redeem = false;
    }

    /// Whether minting is paused.
    pub fn get_is_killed_mint(&self) -> (r: bool)
        ensures
            r == self.is_killed_mint,
    {
        self.is_killed_mint
    }

    /// Whether redemptions are paused.
    pub fn get_is_killed_redeem(&self) -> (r: bool)
        ensures
            r == self.is_killed_redeem,
    {
        self.is_killed_redeem
    }

    /// The allocation of a well-formed pair is a share between 0% and 100%.
    pub open spec fn wf(self) -> bool {
        self.collateral_percent_long <= PRICE_PRECISION
    }

}


/// Synchronising never touches collateral accounting or bounds, keeps the allocation
/// within 100%, and leaves an expired pair exactly as it is.
pub proof fn lemma_sync_preserves_accounting(
    pair: LongShortPair,
    twap: Option<u128>,
    percent: Option<u128>,
    now: u64,
)
    requires
        pair.wf(),
    ensures
        pair.status == PairStatus::Expired ==> pair.sync_outcome(twap, percent, now) == Ok::<
            LongShortPair,
            LongShortPairError,
        >(pair),
        pair.sync_outcome(twap, percent, now) matches Ok(s) ==> {
            &&& s.wf()
            &&& s.total_collateral == pair.total_collateral
            &&& s.collateral_per_pair == pair.collateral_per_pair
            &&& s.lower_bound == pair.lower_bound
            &&& s.upper_bound == pair.upper_bound
            &&& s.is_killed_mint == pair.is_killed_mint
            &&& s.is_killed_redeem == pair.is_killed_redeem
            &&& (pair.status == PairStatus::Expired ==> s.status == PairStatus::Expired)
        },
{
}

/// Redeeming the tokens just minted returns exactly the collateral that was pulled
/// in and restores the collateral total, whatever the oracle did in between,
/// unless redemptions are paused or the oracle or calculator calls fail.
pub proof fn lemma_mint_then_redeem_round_trip(
    pair: LongShortPair,
    tokens: u128,
    twap: Option<u128>,
    percent: Option<u128>,
    now: u64,
)
    requires
        pair.mint_outcome(tokens) is Ok,
        !pair.is_killed_redeem,
        pair.mint_outcome(tokens).unwrap().1.sync_outcome(twap, percent, now) is Ok,
    ensures
        pair.mint_outcome(tokens).unwrap().1.redeem_outcome(tokens, twap, percent, now) matches Ok((c, s))
            && c == pair.mint_outcome(tokens).unwrap().0
            && s.total_collateral == pair.total_collateral,
{
}

/// Once expired, the long and the short payouts for the same number of tokens
/// together never exceed the collateral those pairs were minted with.
pub proof fn lemma_one_sided_payouts_bounded(base: int, pct_long: int)
    requires
        0 <= base,
        0 <= pct_long <= PRICE_PRECISION,
    ensures
        share_of(base, pct_long) + share_of(base, PRICE_PRECISION - pct_long) <= base,
{
    let a = base * pct_long;
    let b = base * (PRICE_PRECISION - pct_long);
    assert(a + b == base * PRICE_PRECISION) by (nonlinear_arith)
        requires a == base * pct_long, b == base * (PRICE_PRECISION - pct_long);
    assert(a >= 0 && b >= 0) by (nonlinear_arith)
        requires a == base * pct_long, b == base * (PRICE_PRECISION - pct_long), 0 <= base,
            0 <= pct_long <= PRICE_PRECISION;
    assert(a / PRICE_PRECISION as int + b / PRICE_PRECISION as int <= (a + b) / PRICE_PRECISION as int)
        by (nonlinear_arith)
        requires a >= 0, b >= 0;
    assert((base * PRICE_PRECISION) / PRICE_PRECISION as int == base) by (nonlinear_arith);
}

/// The scaled price of a well-formed pair lies within its bounds.
pub proof fn lemma_scaled_price_within_bounds(pair: LongShortPair)
    requires
        pair.wf(),
        pair.lower_bound <= pair.upper_bound,
    ensures
        pair.lower_bound <= pair.scaled_price() <= pair.upper_bound,
{
    let d = pair.upper_bound - pair.lower_bound;
    let p = pair.collateral_percent_long as int;
    assert(0 <= d * p / PRICE_PRECISION as int <= d) by (nonlinear_arith)
        requires 0 <= d, 0 <= p <= PRICE_PRECISION;
}

/// While minting is paused every mint request fails.
pub proof fn lemma_killed_mint_blocks(pair: LongShortPair, tokens: u128)
    requires
        pair.is_killed_mint,
        tokens > 0,
    ensures
        pair.mint_outcome(tokens) == Err::<(u128, LongShortPair), LongShortPairError>(
            LongShortPairError::ActionPaused),
{
}

/// While redemptions are paused every redemption request fails, whatever the oracle says.
pub proof fn lemma_killed_redeem_blocks(
    pair: LongShortPair,
    side: Side,
    tokens: u128,
    twap: Option<u128>,
    percent: Option<u128>,
    now: u64,
)
    requires
        pair.is_killed_redeem,
        tokens > 0,
    ensures
        pair.redeem_outcome(tokens, twap, percent, now) == Err::<(u128, LongShortPair), LongShortPairError>(
            LongShortPairError::ActionPaused),
        pair.redeem_one_outcome(side, tokens, twap, percent, now) == Err::<(u128, LongShortPair), LongShortPairError>(
            LongShortPairError::ActionPaused),
{
}

/// A redemption never pays out more than the collateral the pair accounts for, and
/// takes exactly the payout off the total.
pub proof fn lemma_redemptions_covered(
    pair: LongShortPair,
    side: Side,
    tokens: u128,
    twap: Option<u128>,
    percent: Option<u128>,
    now: u64,
)
    ensures
        pair.redeem_outcome(tokens, twap, percent, now) matches Ok((c, s))
            ==> c <= pair.total_collateral && s.total_collateral == pair.total_collateral - c,
        pair.redeem_one_outcome(side, tokens, twap, percent, now) matches Ok((c, s))
            ==> c <= pair.total_collateral && s.total_collateral == pair.total_collateral - c,
{
}

/// When a redemption needs no settlement inputs, its outcome is the same whatever
/// the oracle and the calculator would have answered.
pub proof fn lemma_settlement_inputs_unneeded(
    pair: LongShortPair,
    side: Side,
    tokens: u128,
    twap1: Option<u128>,
    percent1: Option<u128>,
    twap2: Option<u128>,
    percent2: Option<u128>,
    now: u64,
)
    requires
        !(tokens != 0 && !pair.is_killed_redeem && pair.status != PairStatus::Expired),
    ensures
        pair.redeem_outcome(tokens, twap1, percent1, now) == pair.redeem_outcome(tokens, twap2, percent2, now),
        pair.redeem_one_outcome(side, tokens, twap1, percent1, now) == pair.redeem_one_outcome(
            side,
            tokens,
            twap2,
            percent2,
            now,
        ),
{
}

/// Redeeming both legs pays the full collateral per pair whatever the pair's status:
/// an expired pair that is not paused returns `tokens * collateral_per_pair /
/// PRICE_PRECISION` for any oracle and calculator answers, and takes exactly that off
/// the total, as long as the total covers it.
pub proof fn lemma_expired_pair_redeems_full_collateral(
    pair: LongShortPair,
    tokens: u128,
    twap: Option<u128>,
    percent: Option<u128>,
    now: u64,
)
    requires
        pair.status == PairStatus::Expired,
        !pair.is_killed_redeem,
        tokens > 0,
        tokens * pair.collateral_per_pair <= u128::MAX,
        tokens * pair.collateral_per_pair / 10_000_000 <= pair.total_collateral,
        tokens * pair.collateral_per_pair / 10_000_000 <= i128::MAX,
    ensures
        pair.redeem_outcome(tokens, twap, percent, now) == Ok::<(u128, LongShortPair), LongShortPairError>((
            (tokens * pair.collateral_per_pair / 10_000_000) as u128,
            LongShortPair {
                total_collateral: (pair.total_collateral - tokens * pair.collateral_per_pair / 10_000_000) as u128,
                ..pair
            },
        )),
{
}

/// Minting and then redeeming the same number of pairs after the pair expired in
/// between returns exactly the collateral that was pulled in and restores the total.
pub proof fn lemma_mint_then_redeem_across_expiry(
    pair: LongShortPair,
    tokens: u128,
    expiring_twap: u128,
    percent: u128,
    sync_time: u64,
    twap: Option<u128>,
    percent_later: Option<u128>,
    now: u64,
)
    requires
        pair.mint_outcome(tokens) is Ok,
        !pair.is_killed_redeem,
        pair.mint_outcome(tokens).unwrap().1.sync_outcome(Some(expiring_twap), Some(percent), sync_time) matches Ok(
            s) && s.status == PairStatus::Expired,
    ensures
        ({
            let (c, minted) = pair.mint_outcome(tokens).unwrap();
            let expired = minted.sync_outcome(Some(expiring_twap), Some(percent), sync_time).unwrap();
            expired.redeem_outcome(tokens, twap, percent_later, now) matches Ok((back, after))
                && back == c && back == tokens * pair.collateral_per_pair / 10_000_000
                && after.total_collateral == pair.total_collateral
        }),
{
    let (c, minted) = pair.mint_outcome(tokens).unwrap();
    let expired = minted.sync_outcome(Some(expiring_twap), Some(percent), sync_time).unwrap();
    lemma_expired_pair_redeems_full_collateral(expired, tokens, twap, percent_later, now);
}

} // verus!
