use rethnet_evm::uint::U256;

#[test]
fn small_integers_keep_their_value() {
    assert_eq!(U256::from_u64(42).to_u64(), Some(42));
    assert_eq!(U256::zero().to_u64(), Some(0));
    assert_eq!(U256::from_u64(u64::MAX).to_u64(), Some(u64::MAX));
}

#[test]
fn wide_integers_are_no_u64() {
    assert_eq!(U256::from_limbs([0, 1, 0, 0]).to_u64(), None);
    assert_eq!(U256::from_limbs([5, 0, 0, 1]).to_u64(), None);
}

#[test]
fn the_higher_limb_decides_the_order() {
    let low = U256::from_limbs([u64::MAX, 0, 0, 0]);
    let high = U256::from_limbs([0, 1, 0, 0]);
    assert!(low.lt(&high));
    assert!(!high.lt(&low));
    assert!(!high.lt(&high));
    assert!(U256::from_limbs([9, 9, 9, 1]).lt(&U256::from_limbs([0, 0, 0, 2])));
    assert!(U256::from_limbs([1, 7, 3, 2]).lt(&U256::from_limbs([2, 7, 3, 2])));
}

#[test]
fn equal_limbs_are_equal_integers() {
    assert_eq!(U256::from_u64(7), U256::from_limbs([7, 0, 0, 0]));
    assert_ne!(U256::from_u64(7), U256::from_limbs([7, 0, 0, 1]));
}
