use long_short_pair::factory::{salt_eq, LongShortPairFactory, LongShortPairFactoryError};

fn salt(b: u8) -> [u8; 32] {
    let mut s = [0u8; 32];
    s[31] = b;
    s
}

#[test]
fn test_deploy_contract() {
    let mut factory = LongShortPairFactory::new();
    assert_eq!(factory.get_total_pair_count(), 0);
    assert_eq!(factory.get_pair(&salt(1)), Err(LongShortPairFactoryError::PairNotFound));
    assert_eq!(factory.deploy_pair_contract(salt(1)), Ok(0));
    assert_eq!(factory.deploy_pair_contract(salt(2)), Ok(1));
    assert_eq!(factory.get_total_pair_count(), 2);
    assert_eq!(factory.get_pair(&salt(1)), Ok(0));
    assert_eq!(factory.get_pair(&salt(2)), Ok(1));
    // a redeployment for the same asset replaces the mapping
    assert_eq!(factory.deploy_pair_contract(salt(1)), Ok(2));
    assert_eq!(factory.get_pair(&salt(1)), Ok(2));
    assert_eq!(factory.get_total_pair_count(), 3);
}

#[test]
fn test_emergency_mode_blocks_deploy() {
    let mut factory = LongShortPairFactory::new();
    factory.set_emergency_mode(true);
    let err = factory.deploy_pair_contract(salt(1)).unwrap_err();
    assert_eq!(err, LongShortPairFactoryError::ActionPaused);
    assert_eq!(err.code(), 201);
    assert_eq!(factory.get_total_pair_count(), 0);
    factory.set_emergency_mode(false);
    assert_eq!(factory.deploy_pair_contract(salt(1)), Ok(0));
}

#[test]
fn test_salt_eq() {
    assert!(salt_eq(&salt(3), &salt(3)));
    assert!(!salt_eq(&salt(3), &salt(4)));
}
