use long_short_pair::constants::PRICE_PRECISION;
use long_short_pair::pair::{
    is_action_allowed, AdminAction, CallerRoles, LongShortPair, LongShortPairError, PairParams, PairStatus, Side,
};
use long_short_pair::pair_calculator::LongShortPairCalculator;

const ONE_HOUR: u64 = 3_600;

/// A pair worth 100 units of collateral per long+short pair, bounded by prices 0 and 200.
fn setup() -> LongShortPair {
    LongShortPair::new(PairParams {
        collateral_per_pair: 100_0000000,
        lower_bound: 0,
        upper_bound: 200_0000000,
    })
}

/// What the oracle and the calculator answer for a TWAP.
fn feed(pair: &LongShortPair, twap: u128) -> (Option<u128>, Option<u128>) {
    let pct = LongShortPairCalculator::percent_long_collateral(twap, pair.lower_bound, pair.upper_bound).ok();
    (Some(twap), pct)
}

#[test]
fn test_mint() {
    let mut pair = setup();
    let tokens_to_mint = 1_0000000;
    let collateral_info = pair.get_collateral_info();
    let collateral_required = (tokens_to_mint * collateral_info.collateral_per_pair) / PRICE_PRECISION;

    let collateral_used = pair.mint(tokens_to_mint).unwrap();
    assert_eq!(collateral_used, collateral_required);
    assert_eq!(pair.get_collateral_info().total_collateral, collateral_required);
}

#[test]
fn test_mint_invalid_amount() {
    let mut pair = setup();
    let err = pair.mint(0).unwrap_err();
    assert_eq!(err, LongShortPairError::InvalidInput);
    assert_eq!(err.code(), 204);
}

#[test]
fn test_mint_invalid_status() {
    let mut pair = setup();
    pair.status = PairStatus::Expired;
    let err = pair.mint(1_0000000).unwrap_err();
    assert_eq!(err, LongShortPairError::MintingDisabled);
    assert_eq!(err.code(), 213);
}

#[test]
fn test_redeem() {
    let mut pair = setup();
    let tokens_to_mint = 1_0000000;
    let tokens_to_redeem = 1_0000000;
    let collateral_info = pair.get_collateral_info();
    let collateral_required = (tokens_to_mint * collateral_info.collateral_per_pair) / PRICE_PRECISION;

    pair.mint(tokens_to_mint).unwrap();
    let (twap, pct) = feed(&pair, 100_0000000);
    let collateral_used = pair.redeem(tokens_to_redeem, twap, pct, ONE_HOUR).unwrap();
    assert_eq!(collateral_used, collateral_required);
    assert_eq!(pair.total_collateral, 0);
}

#[test]
fn test_redeem_invalid_amount() {
    let mut pair = setup();
    let (twap, pct) = feed(&pair, 100_0000000);
    assert_eq!(pair.redeem(0, twap, pct, 1), Err(LongShortPairError::InvalidInput));
}

#[test]
fn test_redeem_after_price_change() {
    let mut pair = setup();
    let tokens_to_mint = 1_0000000;
    let tokens_to_redeem = 1_0000000;
    let collateral_info = pair.get_collateral_info();
    let collateral_required = (tokens_to_mint * collateral_info.collateral_per_pair) / PRICE_PRECISION;

    pair.mint(tokens_to_mint).unwrap();

    // Update oracle price
    let (twap, pct) = feed(&pair, 110_0000000);
    let collateral_used = pair.redeem(tokens_to_redeem, twap, pct, ONE_HOUR).unwrap();
    assert_eq!(collateral_used, collateral_required);

    // [x] Ensure price is updated
    assert_eq!(pair.collateral_percent_long, 5_500_000); // 55%
    assert_eq!(pair.last_update_ts, ONE_HOUR);
    assert_eq!(pair.status, PairStatus::Active);
}

#[test]
fn test_redeem_one_invalid_amount() {
    let mut pair = setup();
    let (twap, pct) = feed(&pair, 100_0000000);
    assert_eq!(pair.redeem_one(Side::Long, 0, twap, pct, 1), Err(LongShortPairError::InvalidInput));
}

#[test]
fn test_redeem_one_invalid_status() {
    let mut pair = setup();
    let before = pair;
    let (twap, pct) = feed(&pair, 100_0000000);
    let err = pair.redeem_one(Side::Long, 1_0000000, twap, pct, 1).unwrap_err();
    assert_eq!(err, LongShortPairError::InvalidStatus);
    assert_eq!(err.code(), 214);
    // nothing is kept from a failed call
    assert_eq!(pair, before);
}

#[test]
fn test_redeem_one_long_when_price_at_upper_bound() {
    let mut pair = setup();
    let tokens_to_mint = 1_0000000;
    let tokens_to_redeem = 1_0000000;
    let collateral_info = pair.get_collateral_info();

    pair.mint(tokens_to_mint).unwrap();

    // Update oracle price
    let (twap, pct) = feed(&pair, 201_0000000);
    let collateral_returned = pair.redeem_one(Side::Long, tokens_to_redeem, twap, pct, ONE_HOUR).unwrap();

    // [x] Collateral returned should equal 100% of the collateral per pair
    assert_eq!(collateral_returned, collateral_info.collateral_per_pair);

    // [x] Status is automatically updated to Settlement
    assert_eq!(pair.get_status(), PairStatus::Expired);
    assert_eq!(pair.expiration_ts, ONE_HOUR);
    assert_eq!(pair.total_collateral, 0);

    // the worthless short side cannot be redeemed
    let (twap, pct) = feed(&pair, 150_0000000);
    assert_eq!(
        pair.redeem_one(Side::Short, tokens_to_redeem, twap, pct, 2 * ONE_HOUR),
        Err(LongShortPairError::InsufficientInventory)
    );
}

#[test]
fn test_kill_and_unkill() {
    let mut pair = setup();
    pair.kill_mint();
    assert!(pair.get_is_killed_mint());
    assert_eq!(pair.mint(1), Err(LongShortPairError::ActionPaused));
    pair.unkill_mint();
    assert!(!pair.get_is_killed_mint());
    assert!(pair.mint(1_0000000).is_ok());

    pair.kill_redeem();
    let (twap, pct) = feed(&pair, 100_0000000);
    assert_eq!(pair.redeem(1_0000000, twap, pct, 1), Err(LongShortPairError::ActionPaused));
    assert_eq!(LongShortPairError::ActionPaused.code(), 216);
    pair.unkill_redeem();
    assert!(!pair.get_is_killed_redeem());
    assert_eq!(pair.redeem(1_0000000, twap, pct, 1), Ok(100_0000000));
}

#[test]
fn test_sync_errors() {
    let mut pair = setup();
    assert_eq!(pair.sync_collateral(None, None, 5), Err(LongShortPairError::FailedToGetOraclePrice));
    assert_eq!(pair.sync_collateral(Some(1), None, 5), Err(LongShortPairError::FailedToGetCalculatorPercent));
    assert_eq!(
        pair.sync_collateral(Some(1), Some(10_000_001), 5),
        Err(LongShortPairError::InvalidCalculatorValue)
    );
    assert_eq!(pair.last_update_ts, 0);
    assert_eq!(pair.sync_collateral(Some(0), Some(0), 7), Ok(()));
    // touching the lower bound expires the pair
    assert_eq!(pair.status, PairStatus::Expired);
    assert_eq!(pair.expiration_ts, 7);
    // an expired pair no longer moves
    assert_eq!(pair.sync_collateral(None, None, 9), Ok(()));
    assert_eq!(pair.last_update_ts, 7);
}

#[test]
fn test_redeem_insufficient_inventory() {
    let mut pair = setup();
    pair.mint(1_0000000).unwrap();
    let (twap, pct) = feed(&pair, 100_0000000);
    assert_eq!(pair.redeem(2_0000000, twap, pct, 1), Err(LongShortPairError::InsufficientInventory));
}

#[test]
fn test_redeem_one_short_after_expiry_at_lower_bound() {
    let mut pair = setup();
    pair.mint(3_0000000).unwrap();
    let (twap, pct) = feed(&pair, 0);
    assert_eq!(pair.redeem_one(Side::Short, 1_0000000, twap, pct, 10), Ok(100_0000000));
    assert_eq!(pair.redeem_one(Side::Long, 1_0000000, None, None, 11), Err(LongShortPairError::InsufficientInventory));
    assert_eq!(pair.total_collateral, 200_0000000);
}

#[test]
fn test_redeem_one_tiny_payout_rejected() {
    let mut pair = setup();
    pair.mint(1_0000000).unwrap();
    pair.status = PairStatus::Expired;
    pair.collateral_percent_long = 1;
    // 1 token unit is worth 100 units of collateral; 1e-7 of that floors to 0
    assert_eq!(pair.redeem_one(Side::Long, 1, None, None, 1), Err(LongShortPairError::InvalidInput));
}

#[test]
fn test_get_scaled_price() {
    let mut pair = setup();
    assert_eq!(pair.get_scaled_price(), Ok(100_0000000));
    pair.collateral_percent_long = 10_000_000;
    assert_eq!(pair.get_scaled_price(), Ok(200_0000000));
    pair.lower_bound = 300_0000000;
    assert_eq!(pair.get_scaled_price(), Err(LongShortPairError::MathOverflow));
    assert_eq!(pair.get_price(), 10_000_000);
    let bounds = pair.get_price_bounds();
    assert_eq!((bounds.lower, bounds.upper), (300_0000000, 200_0000000));
}

#[test]
fn test_mint_overflow() {
    let mut pair = setup();
    assert_eq!(pair.mint(u128::MAX), Err(LongShortPairError::MathOverflow));
    assert_eq!(LongShortPairError::MathOverflow.code(), 219);
}

#[test]
fn test_mint_redeem_round_trip() {
    let mut pair = setup();
    pair.mint(5_0000000).unwrap();
    let total = pair.total_collateral;
    let c = pair.mint(123_4567).unwrap();
    assert_eq!(c, 123_4567 * 100);
    let (twap, pct) = feed(&pair, 42_0000000);
    assert_eq!(pair.redeem(123_4567, twap, pct, 99), Ok(c));
    assert_eq!(pair.total_collateral, total);
}

#[test]
fn test_admin_action_roles() {
    let none = CallerRoles { is_admin: false, is_pause_admin: false, is_emergency_pause_admin: false, is_operations_admin: false };
    let admin = CallerRoles { is_admin: true, ..none };
    let pause = CallerRoles { is_pause_admin: true, ..none };
    let emergency = CallerRoles { is_emergency_pause_admin: true, ..none };
    let operations = CallerRoles { is_operations_admin: true, ..none };
    for action in [AdminAction::KillMint, AdminAction::KillRedeem, AdminAction::UnkillMint, AdminAction::UnkillRedeem] {
        assert!(!is_action_allowed(&none, action));
        assert!(is_action_allowed(&admin, action));
        assert!(is_action_allowed(&pause, action));
        assert!(is_action_allowed(&emergency, action));
        assert!(!is_action_allowed(&operations, action));
    }
    for action in [AdminAction::SetCalculator, AdminAction::SetOracle] {
        assert!(!is_action_allowed(&none, action));
        assert!(is_action_allowed(&admin, action));
        assert!(!is_action_allowed(&pause, action));
        assert!(!is_action_allowed(&emergency, action));
        assert!(is_action_allowed(&operations, action));
    }
}

#[test]
fn test_needs_settlement_inputs() {
    let mut pair = setup();
    assert!(pair.needs_settlement_inputs(1));
    assert!(!pair.needs_settlement_inputs(0));
    pair.kill_redeem();
    assert!(!pair.needs_settlement_inputs(1));
    // a paused redemption fails the same way without any oracle answer
    assert_eq!(pair.redeem(1, None, None, 10), Err(LongShortPairError::ActionPaused));
    pair.unkill_redeem();
    pair.status = PairStatus::Expired;
    assert!(!pair.needs_settlement_inputs(1));
}
