use rethnet_evm::base_fee::{calculate_next_base_fee, checked_next_base_fee};
use rethnet_evm::block::Header;
use rethnet_evm::primitives::{Address, B256, B64};
use rethnet_evm::uint::U256;

fn parent(gas_limit: u64, gas_used: u64, base_fee: Option<u64>) -> Header {
    Header {
        parent_hash: B256([0; 32]),
        beneficiary: Address([0; 20]),
        state_root: B256([0; 32]),
        receipts_root: B256([0; 32]),
        difficulty: U256::zero(),
        number: U256::from_u64(7),
        gas_limit: U256::from_u64(gas_limit),
        gas_used: U256::from_u64(gas_used),
        timestamp: U256::from_u64(1),
        extra_data: Vec::new(),
        mix_hash: B256([0; 32]),
        nonce: B64([0; 8]),
        base_fee_per_gas: base_fee.map(U256::from_u64),
    }
}

#[test]
fn base_fee_is_unchanged_at_the_target() {
    let header = parent(20_000_000, 10_000_000, Some(1_000_000_000));
    assert_eq!(calculate_next_base_fee(&header), U256::from_u64(1_000_000_000));
}

#[test]
fn base_fee_rises_above_the_target() {
    let header = parent(20_000_000, 15_000_000, Some(1_000_000_000));
    assert_eq!(calculate_next_base_fee(&header), U256::from_u64(1_062_500_000));
}

#[test]
fn base_fee_falls_below_the_target() {
    let header = parent(20_000_000, 5_000_000, Some(1_000_000_000));
    assert_eq!(calculate_next_base_fee(&header), U256::from_u64(937_500_000));
}

#[test]
fn base_fee_is_not_defined_without_a_parent_fee() {
    let header = parent(20_000_000, 5_000_000, None);
    assert_eq!(checked_next_base_fee(&header), None);
}

#[test]
fn base_fee_rises_by_one_at_least() {
    let header = parent(20_000_000, 10_000_001, Some(1_000_000_000));
    assert_eq!(calculate_next_base_fee(&header), U256::from_u64(1_000_000_012));
    let header = parent(20_000_000, 10_000_001, Some(7));
    assert_eq!(calculate_next_base_fee(&header), U256::from_u64(8));
    let header = parent(20_000_000, 20_000_000, Some(8));
    assert_eq!(calculate_next_base_fee(&header), U256::from_u64(9));
    let header = parent(20_000_000, 20_000_000, Some(0));
    assert_eq!(calculate_next_base_fee(&header), U256::from_u64(1));
}

#[test]
fn base_fee_falls_by_an_eighth_at_most() {
    let header = parent(20_000_000, 0, Some(1_000_000_000));
    assert_eq!(calculate_next_base_fee(&header), U256::from_u64(875_000_000));
    let header = parent(20_000_000, 0, Some(7));
    assert_eq!(calculate_next_base_fee(&header), U256::from_u64(7));
    let header = parent(20_000_000, 0, Some(0));
    assert_eq!(calculate_next_base_fee(&header), U256::zero());
    let header = parent(20_000_000, 9_999_999, Some(1_000_000_000));
    assert_eq!(calculate_next_base_fee(&header), U256::from_u64(999_999_988));
}

#[test]
fn base_fee_divisions_round_down_one_after_the_other() {
    let header = parent(30, 22, Some(100));
    assert_eq!(calculate_next_base_fee(&header), U256::from_u64(105));
    let header = parent(31, 3, Some(1_000));
    assert_eq!(calculate_next_base_fee(&header), U256::from_u64(900));
}

#[test]
fn base_fee_of_a_block_without_gas() {
    let header = parent(1, 0, Some(55));
    assert_eq!(checked_next_base_fee(&header), Some(U256::from_u64(55)));
    let header = parent(1, 1, Some(55));
    assert_eq!(checked_next_base_fee(&header), None);
    let header = parent(0, 5, Some(55));
    assert_eq!(checked_next_base_fee(&header), None);
}

#[test]
fn base_fee_that_does_not_fit_is_not_defined() {
    let mut header = parent(20_000_000, 15_000_000, None);
    header.base_fee_per_gas = Some(U256::from_limbs([u64::MAX; 4]));
    assert_eq!(checked_next_base_fee(&header), None);
    header.gas_used = U256::from_u64(5_000_000);
    assert_eq!(checked_next_base_fee(&header), None);
    header.gas_used = U256::from_u64(10_000_000);
    assert_eq!(
        checked_next_base_fee(&header),
        Some(U256::from_limbs([u64::MAX; 4]))
    );
    header.gas_used = U256::from_u64(10_000_001);
    header.base_fee_per_gas = Some(U256::from_limbs([u64::MAX, u64::MAX, u64::MAX, 0]));
    assert_eq!(
        checked_next_base_fee(&header),
        Some(U256::from_limbs([
            1_893_432_841_306_584_247,
            6_814_138_716_456_754_561,
            230_584_300_921,
            1,
        ]))
    );
}

#[test]
fn wide_base_fees_are_computed_in_full_width() {
    let mut header = parent(20_000_000, 20_000_000, None);
    header.base_fee_per_gas = Some(U256::from_limbs([0, 8, 0, 0]));
    assert_eq!(
        checked_next_base_fee(&header),
        Some(U256::from_limbs([0, 9, 0, 0]))
    );
    header.gas_used = U256::zero();
    assert_eq!(
        checked_next_base_fee(&header),
        Some(U256::from_limbs([0, 7, 0, 0]))
    );
}
