use rethnet_evm::block::{Block, Header};
use rethnet_evm::db::DatabaseError;
use rethnet_evm::primitives::{Address, B256, B64};
use rethnet_evm::uint::U256;

#[test]
fn byte_strings_are_equal_when_their_bytes_are() {
    assert_eq!(B256([3; 32]), B256([3; 32]));
    let mut other = [3u8; 32];
    other[31] = 4;
    assert_ne!(B256([3; 32]), B256(other));
    assert_eq!(Address([9; 20]), Address([9; 20]));
    let mut other = [9u8; 20];
    other[0] = 0;
    assert_ne!(Address([9; 20]), Address(other));
    assert_eq!(B64([1; 8]), B64([1; 8]));
    assert_ne!(B64([1; 8]), B64([1, 1, 1, 1, 2, 1, 1, 1]));
}

#[test]
fn named_byte_strings() {
    assert_eq!(B256::zero(), B256([0; 32]));
    assert_eq!(Address::zero(), Address([0; 20]));
    assert_eq!(B64::zero(), B64([0; 8]));
    assert_eq!(B64::legacy(), B64(42u64.to_be_bytes()));
}

#[test]
fn a_copy_of_a_block_equals_the_block() {
    let block = Block::new(
        Header {
            parent_hash: B256([1; 32]),
            beneficiary: Address([2; 20]),
            state_root: B256([3; 32]),
            receipts_root: B256([4; 32]),
            difficulty: U256::from_u64(5),
            number: U256::from_u64(6),
            gas_limit: U256::from_u64(7),
            gas_used: U256::from_u64(8),
            timestamp: U256::from_u64(9),
            extra_data: vec![10, 11],
            mix_hash: B256([12; 32]),
            nonce: B64([13; 8]),
            base_fee_per_gas: Some(U256::from_u64(14)),
        },
        vec![B256([15; 32]), B256([16; 32])],
        vec![B256([17; 32])],
        B256([18; 32]),
    );
    let copy = block.clone();
    assert_eq!(copy, block);
    assert_eq!(*copy.hash(), B256([18; 32]));
    assert_eq!(copy.header.clone(), block.header);
}

#[test]
fn state_failures_tell_each_other_apart() {
    assert_eq!(DatabaseError::CannotRevert, DatabaseError::CannotRevert);
    assert_ne!(
        DatabaseError::InvalidCodeHash(B256([1; 32])),
        DatabaseError::InvalidStateRoot(B256([1; 32]))
    );
    assert_ne!(
        DatabaseError::InvalidStateRoot(B256([1; 32])),
        DatabaseError::InvalidStateRoot(B256([2; 32]))
    );
}
