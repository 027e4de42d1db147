use soroban_sdk::Env;
use long_short_pair::pool::{
    calculate_price_difference, get_amount_out, get_amount_out_strict_receive, get_deposit_amounts,
    is_swap_risk_increasing, peg_price, pool_price, LiquidityPoolError, PoolValidationError,
};

const RESERVE: u128 = 100_0000000;

#[test]
fn test_custom_fee() {
    let e = Env::default();
    // we're checking fraction against output for 1 token
    for fee_config in [
        (0, 9900990_u128),    // 0%
        (10, 9891187_u128),   // 0.1%
        (30, 9871580_u128),   // 0.3%
        (100, 9802950_u128),  // 1%
        (1000, 8919722_u128), // 10%
        (3000, 6951340_u128), // 30%
        (5000, 4975124_u128), // 50%
    ] {
        let (out, fee) = get_amount_out(&e, 1_0000000, RESERVE, RESERVE, fee_config.0).unwrap();
        assert_eq!(out, fee_config.1);
        assert_eq!(fee, 1_0000000 * fee_config.0 as u128 / 10_000);
        let (paid, _) = get_amount_out_strict_receive(&e, fee_config.1, RESERVE, RESERVE, fee_config.0).unwrap();
        assert_eq!(paid, 1_0000000);
    }
}

#[test]
fn test_strict_receive() {
    let e = Env::default();
    let swap_in_amount = 1_0000000_u128;
    let expected_swap_result = 9871580_u128;
    assert_eq!(get_amount_out(&e, swap_in_amount, RESERVE, RESERVE, 30).unwrap().0, expected_swap_result);
    let (dx_before_fee, fee) = get_amount_out_strict_receive(&e, expected_swap_result, RESERVE, RESERVE, 30).unwrap();
    assert_eq!(dx_before_fee, swap_in_amount);
    assert_eq!(fee, 30_000);
}

#[test]
fn test_strict_receive_over_max() {
    let e = Env::default();
    assert_eq!(
        get_amount_out_strict_receive(&e, 100_0000000, RESERVE, RESERVE, 30),
        Err(PoolValidationError::InsufficientBalance)
    );
    // maximum we're able to buy is `reserve - 1`
    assert_eq!(
        get_amount_out_strict_receive(&e, 99_9999999, RESERVE, RESERVE, 30).unwrap().0,
        100300902607_8234705
    );
}

#[test]
fn test_zero_amounts() {
    let e = Env::default();
    assert_eq!(get_amount_out(&e, 0, RESERVE, RESERVE, 30), Ok((0, 0)));
    assert_eq!(get_amount_out_strict_receive(&e, 0, RESERVE, RESERVE, 30), Ok((0, 0)));
    assert_eq!(get_amount_out(&e, 1, RESERVE, RESERVE, 10_001), Err(PoolValidationError::MathOverflow));
}

#[test]
fn test_get_deposit_amounts() {
    let e = Env::default();
    // an empty pool takes what is desired
    assert_eq!(get_deposit_amounts(&e, 100, 0, 200, 0, 0, 0), Ok((100, 200)));
    // the reserve ratio 1:2 decides the second amount
    assert_eq!(get_deposit_amounts(&e, 100, 0, 300, 0, 1_000, 2_000), Ok((100, 200)));
    assert_eq!(get_deposit_amounts(&e, 100, 0, 150, 0, 1_000, 2_000), Ok((75, 150)));
    assert_eq!(
        get_deposit_amounts(&e, 100, 0, 300, 250, 1_000, 2_000),
        Err(PoolValidationError::InvalidDepositAmount)
    );
    assert_eq!(
        get_deposit_amounts(&e, 100, 80, 150, 0, 1_000, 2_000),
        Err(PoolValidationError::InvalidDepositAmount)
    );
}

#[test]
fn test_pool_and_peg_price() {
    assert_eq!(pool_price(0, 5, true), Ok(0));
    assert_eq!(pool_price(2, 3, true), Ok(15_000_000));
    assert_eq!(pool_price(2, 3, false), Ok(6_666_667));
    assert_eq!(peg_price(0, 5, true), Ok(0));
    assert_eq!(peg_price(100_0000000, 1_0000000, true), Ok(100_000));
    assert_eq!(peg_price(100_0000000, 1_0000000, false), Ok(1_000_000_000));
    assert_eq!(pool_price(1, u128::MAX, true), Err(PoolValidationError::MathOverflow));
}

#[test]
fn test_swap_risk() {
    assert_eq!(calculate_price_difference(105, 100), 5);
    assert_eq!(calculate_price_difference(95, 100), -5);
    // no prices: never risk increasing
    assert_eq!(is_swap_risk_increasing(0, 100, 7, true), Ok(false));
    assert_eq!(is_swap_risk_increasing(100, 100, 0, true), Ok(false));
    assert_eq!(is_swap_risk_increasing(105, 100, 2, true), Err(PoolValidationError::OutTokenOutOfBounds));
    // pool above peg: buying the normal token lowers the price
    assert_eq!(is_swap_risk_increasing(105, 100, 0, true), Ok(false));
    assert_eq!(is_swap_risk_increasing(105, 100, 1, true), Ok(true));
    assert_eq!(is_swap_risk_increasing(105, 100, 1, false), Ok(false));
    // pool below peg: buying the normal token pushes it further down
    assert_eq!(is_swap_risk_increasing(95, 100, 0, true), Ok(true));
    assert_eq!(is_swap_risk_increasing(95, 100, 0, false), Ok(false));
}

#[test]
fn test_swap_keeps_constant_product() {
    let e = Env::default();
    for (amount, fee) in [(1_0000000u128, 30u32), (123_456, 0), (50_0000000, 5000)] {
        let (out, fee_taken) = get_amount_out(&e, amount, RESERVE, 3 * RESERVE, fee).unwrap();
        let dx = amount - fee_taken;
        assert!((RESERVE + dx) * (3 * RESERVE - out) >= RESERVE * 3 * RESERVE);
    }
}

#[test]
fn test_error_codes() {
    assert_eq!(LiquidityPoolError::AlreadyInitialized.code(), 201);
    assert_eq!(LiquidityPoolError::PoolSwapKilled.code(), 206);
    assert_eq!(LiquidityPoolError::NoBonusTableFound.code(), 216);
}

#[test]
fn test_swap_risk_with_zero_price_and_huge_other() {
    assert_eq!(is_swap_risk_increasing(0, u128::MAX, 0, true), Ok(false));
    assert_eq!(is_swap_risk_increasing(u128::MAX, 0, 1, false), Ok(false));
}

#[test]
fn test_strict_receive_round_trip() {
    let e = Env::default();
    for fee in [0_u32, 30, 100, 9_999] {
        for out in [1_u128, 7, 1_0000000, 50_0000000, 99_0000000] {
            let (dx, fee_paid) = get_amount_out_strict_receive(&e, out, RESERVE, RESERVE, fee).unwrap();
            let (bought, _) = get_amount_out(&e, dx, RESERVE, RESERVE, fee).unwrap();
            assert!(bought >= out);
            let net = (RESERVE * out + (RESERVE - out) - 1) / (RESERVE - out);
            assert_eq!(fee_paid, dx - net);
        }
    }
}

#[test]
fn test_wide_products_succeed() {
    let e = Env::default();
    // the product in_after_fee * reserve_buy exceeds u128, the quotient does not
    let reserve = u128::MAX / 4;
    let (out, fee) = get_amount_out(&e, 1u128 << 100, reserve, reserve, 0).unwrap();
    assert_eq!(out, 1267650581338763751493094866944);
    assert_eq!(fee, 0);
    // the ratio product desired_a * reserve_b exceeds u128, the amounts do not
    let big = 1u128 << 100;
    assert_eq!(get_deposit_amounts(&e, big, 0, 1u128 << 127, 0, big, big), Ok((big, big)));
}

#[test]
fn test_deposit_inequal_return_change() {
    let e = Env::default();
    // the first deposit into an empty pool is taken as desired
    let (a, b) = get_deposit_amounts(&e, 100, 0, 100, 0, 0, 0).unwrap();
    assert_eq!((a, b), (100, 100));
    // with equal reserves, the larger desired side is cut back to the ratio
    let (a2, b2) = get_deposit_amounts(&e, 200, 0, 100, 0, a, b).unwrap();
    assert_eq!((a2, b2), (100, 100));
    assert_eq!((a + a2, b + b2), (200, 200));
}
