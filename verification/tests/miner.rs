use rethnet_evm::block::{Block, BlockOptions, Header};
use rethnet_evm::blockchain::{Blockchain, BlockchainError, InMemoryBlockchain};
use rethnet_evm::hardfork::SpecId;
use rethnet_evm::mempool::MemPool;
use rethnet_evm::miner::{
    BlockBuilderCreationError, BlockMiner, BlockTransactionError, MineBlockError,
    MineBlockResult, MinerAction, MinerStage, MiningCycle,
};
use rethnet_evm::primitives::{Address, B256, B64};
use rethnet_evm::transaction::{AccountInfo, PendingTransaction};
use rethnet_evm::uint::U256;

type Cycle = MiningCycle<u32, u16, u8, BlockchainError, String>;

fn hash(byte: u8) -> B256 {
    B256([byte; 32])
}

fn beneficiary() -> Address {
    Address([0xbe; 20])
}

fn transaction(id: u8, nonce: u64) -> PendingTransaction {
    PendingTransaction::new(hash(id), Address([id; 20]), nonce)
}

fn account(nonce: u64) -> Result<Option<AccountInfo>, String> {
    Ok(Some(AccountInfo {
        balance: U256::zero(),
        nonce,
        code_hash: hash(0xc0),
    }))
}

fn genesis(base_fee: Option<u64>) -> Block {
    Block::new(
        Header {
            parent_hash: hash(0),
            beneficiary: beneficiary(),
            state_root: hash(0xaa),
            receipts_root: hash(0xbb),
            difficulty: U256::zero(),
            number: U256::zero(),
            gas_limit: U256::from_u64(20_000_000),
            gas_used: U256::from_u64(15_000_000),
            timestamp: U256::from_u64(1_000),
            extra_data: Vec::new(),
            mix_hash: hash(0),
            nonce: B64([0; 8]),
            base_fee_per_gas: base_fee.map(U256::from_u64),
        },
        Vec::new(),
        Vec::new(),
        hash(100),
    )
}

/// Seals a block as an assembler would: with the options that the miner gave,
/// on top of `parent`.
fn seal(parent: &Block, options: &BlockOptions, transactions: Vec<B256>, own_hash: B256) -> Block {
    Block::new(
        Header {
            parent_hash: parent.hash,
            beneficiary: options.beneficiary.unwrap(),
            state_root: hash(0xaa),
            receipts_root: hash(0xbb),
            difficulty: U256::zero(),
            number: options.number.unwrap(),
            gas_limit: options.gas_limit.unwrap(),
            gas_used: U256::zero(),
            timestamp: options.timestamp.unwrap(),
            extra_data: Vec::new(),
            mix_hash: options.mix_hash.unwrap_or(hash(0)),
            nonce: options.nonce.unwrap(),
            base_fee_per_gas: options.base_fee,
        },
        transactions,
        Vec::new(),
        own_hash,
    )
}

fn miner(spec_id: SpecId) -> BlockMiner {
    BlockMiner::new(spec_id, U256::from_u64(30_000_000), beneficiary())
}

fn started(ledger: &InMemoryBlockchain, pool: &MemPool) -> (Cycle, BlockOptions) {
    let cycle: Cycle = miner(SpecId::LONDON).mine_block(
        ledger,
        U256::from_u64(2_000),
        U256::from_u64(5),
        None,
        None,
    );
    let options = match cycle.next_action() {
        MinerAction::BuildAssembler(options) => options,
        other => panic!("no assembler asked for, but {:?}", other),
    };
    (cycle.assembler_started(pool, Ok(())), options)
}

fn pool_of(transactions: &[PendingTransaction]) -> MemPool {
    let mut pool = MemPool::new();
    for pending in transactions {
        pool.add_with_account(account(pending.nonce), *pending).unwrap();
    }
    pool
}

#[test]
fn options_before_london() {
    let ledger = InMemoryBlockchain::with_genesis_block(genesis(None)).unwrap();
    let cycle: Cycle = miner(SpecId::BERLIN).mine_block(
        &ledger,
        U256::from_u64(2_000),
        U256::from_u64(5),
        Some(U256::from_u64(77)),
        Some(hash(9)),
    );
    assert_eq!(cycle.stage(), MinerStage::BuildingAssembler);
    assert_eq!(
        cycle.next_action(),
        MinerAction::BuildAssembler(BlockOptions {
            beneficiary: Some(beneficiary()),
            number: Some(U256::from_u64(1)),
            gas_limit: Some(U256::from_u64(30_000_000)),
            timestamp: Some(U256::from_u64(2_000)),
            mix_hash: None,
            nonce: Some(B64([0, 0, 0, 0, 0, 0, 0, 42])),
            base_fee: None,
        })
    );
}

#[test]
fn options_after_the_merge() {
    let ledger = InMemoryBlockchain::with_genesis_block(genesis(Some(1_000_000_000))).unwrap();
    let cycle: Cycle = miner(SpecId::MERGE).mine_block(
        &ledger,
        U256::from_u64(2_000),
        U256::from_u64(5),
        None,
        Some(hash(9)),
    );
    assert_eq!(
        cycle.next_action(),
        MinerAction::BuildAssembler(BlockOptions {
            beneficiary: Some(beneficiary()),
            number: Some(U256::from_u64(1)),
            gas_limit: Some(U256::from_u64(30_000_000)),
            timestamp: Some(U256::from_u64(2_000)),
            mix_hash: Some(hash(9)),
            nonce: Some(B64([0; 8])),
            base_fee: Some(U256::from_u64(1_062_500_000)),
        })
    );
}

#[test]
fn a_given_base_fee_goes_before_the_computed_one() {
    let ledger = InMemoryBlockchain::with_genesis_block(genesis(None)).unwrap();
    let cycle: Cycle = miner(SpecId::LONDON).mine_block(
        &ledger,
        U256::from_u64(2_000),
        U256::from_u64(5),
        Some(U256::from_u64(77)),
        None,
    );
    match cycle.next_action() {
        MinerAction::BuildAssembler(options) => {
            assert_eq!(options.base_fee, Some(U256::from_u64(77)));
            assert_eq!(options.mix_hash, None);
            assert_eq!(options.nonce, Some(B64([0, 0, 0, 0, 0, 0, 0, 42])));
        }
        other => panic!("no assembler asked for, but {:?}", other),
    }
}

#[test]
fn a_cycle_without_base_fee_ends_before_it_begins() {
    let ledger = InMemoryBlockchain::with_genesis_block(genesis(None)).unwrap();
    let cycle: Cycle = miner(SpecId::LONDON).mine_block(
        &ledger,
        U256::from_u64(2_000),
        U256::from_u64(5),
        None,
        None,
    );
    assert_eq!(cycle.stage(), MinerStage::Idle);
    assert_eq!(cycle.next_action(), MinerAction::Complete);
    assert_eq!(
        cycle.into_result(),
        Some(Err(MineBlockError::BlockBuilderCreation(
            BlockBuilderCreationError::MissingBaseFee
        )))
    );
}

#[test]
fn a_cycle_without_randomness_ends_before_it_begins() {
    let ledger = InMemoryBlockchain::with_genesis_block(genesis(None)).unwrap();
    let cycle: Cycle = miner(SpecId::SHANGHAI).mine_block(
        &ledger,
        U256::from_u64(2_000),
        U256::from_u64(5),
        None,
        None,
    );
    assert_eq!(
        cycle.into_result(),
        Some(Err(MineBlockError::BlockBuilderCreation(
            BlockBuilderCreationError::MissingPrevrandao
        )))
    );
}

#[test]
fn a_failed_assembler_ends_the_cycle() {
    let ledger = InMemoryBlockchain::with_genesis_block(genesis(Some(7))).unwrap();
    let pool = pool_of(&[transaction(1, 0)]);
    let cycle: Cycle = miner(SpecId::LONDON).mine_block(
        &ledger,
        U256::from_u64(2_000),
        U256::from_u64(5),
        None,
        None,
    );
    let cycle = cycle.assembler_started(
        &pool,
        Err(BlockBuilderCreationError::State("no state".to_string())),
    );
    assert_eq!(cycle.next_action(), MinerAction::Complete);
    assert_eq!(
        cycle.into_result(),
        Some(Err(MineBlockError::BlockBuilderCreation(
            BlockBuilderCreationError::State("no state".to_string())
        )))
    );
    assert_eq!(pool.pending_transactions().len(), 1);
}

#[test]
fn mining_an_empty_pool_gives_an_empty_block() {
    let mut ledger = InMemoryBlockchain::with_genesis_block(genesis(Some(7))).unwrap();
    let mut pool = MemPool::new();
    let (cycle, options) = started(&ledger, &pool);
    assert_eq!(cycle.stage(), MinerStage::Finalizing);
    assert_eq!(
        cycle.next_action(),
        MinerAction::Finalize { beneficiary: beneficiary(), reward: U256::from_u64(5) }
    );

    let sealed = seal(ledger.last_block(), &options, Vec::new(), hash(101));
    let cycle = cycle.block_finalized(&mut ledger, Ok((sealed.clone(), Vec::new())));
    assert_eq!(cycle.stage(), MinerStage::Committing);
    assert_eq!(cycle.next_action(), MinerAction::UpdatePool);
    assert_eq!(*ledger.last_block(), sealed);
    assert_eq!(ledger.block_hash(U256::from_u64(1)), Ok(hash(101)));

    let cycle = cycle.accounts_read(&mut pool, Vec::new());
    assert_eq!(cycle.next_action(), MinerAction::Complete);
    let result = cycle.into_result().unwrap().unwrap();
    assert_eq!(
        result,
        MineBlockResult {
            block: sealed,
            transaction_results: Vec::new(),
            transaction_receipts: Vec::new(),
            transaction_traces: Vec::new(),
        }
    );
    assert!(result.block.transactions.is_empty());
    assert_eq!(result.block.header.number, U256::from_u64(1));
    assert_eq!(result.block.header.parent_hash, hash(100));
}

#[test]
fn mining_takes_the_pending_transactions_in_their_order() {
    let mut ledger = InMemoryBlockchain::with_genesis_block(genesis(Some(7))).unwrap();
    let mut pool = pool_of(&[transaction(1, 0), transaction(2, 0), transaction(3, 0)]);
    pool.add_with_account(account(0), transaction(4, 1)).unwrap();

    let (cycle, options) = started(&ledger, &pool);
    assert_eq!(cycle.stage(), MinerStage::SelectingTransactions);
    assert_eq!(cycle.next_action(), MinerAction::AddTransaction(transaction(1, 0)));
    let cycle = cycle.transaction_executed(&mut pool, Ok((11, 1)));
    assert_eq!(pool.pending_transactions(), &[transaction(2, 0), transaction(3, 0)]);
    assert_eq!(cycle.next_action(), MinerAction::AddTransaction(transaction(2, 0)));
    let cycle = cycle.transaction_executed(&mut pool, Ok((22, 2)));
    assert_eq!(cycle.next_action(), MinerAction::AddTransaction(transaction(3, 0)));
    let cycle = cycle.transaction_executed(&mut pool, Ok((33, 3)));
    assert!(pool.pending_transactions().is_empty());
    assert_eq!(
        cycle.next_action(),
        MinerAction::Finalize { beneficiary: beneficiary(), reward: U256::from_u64(5) }
    );

    let sealed = seal(
        ledger.last_block(),
        &options,
        vec![hash(1), hash(2), hash(3)],
        hash(101),
    );
    let cycle = cycle.block_finalized(&mut ledger, Ok((sealed.clone(), vec![1, 2, 3])));
    assert_eq!(cycle.next_action(), MinerAction::UpdatePool);
    let cycle = cycle.accounts_read(&mut pool, vec![account(1)]);
    assert_eq!(pool.pending_transactions(), &[transaction(4, 1)]);
    assert!(pool.future_transactions().is_empty());
    assert_eq!(
        cycle.into_result(),
        Some(Ok(MineBlockResult {
            block: sealed,
            transaction_results: vec![11, 22, 33],
            transaction_receipts: vec![1, 2, 3],
            transaction_traces: vec![1, 2, 3],
        }))
    );
    assert_eq!(ledger.last_block().hash, hash(101));
}

#[test]
fn a_transaction_that_exceeds_the_gas_limit_is_skipped() {
    let mut ledger = InMemoryBlockchain::with_genesis_block(genesis(Some(7))).unwrap();
    let mut pool = pool_of(&[transaction(1, 0), transaction(2, 0)]);
    let (cycle, options) = started(&ledger, &pool);

    assert_eq!(cycle.next_action(), MinerAction::AddTransaction(transaction(1, 0)));
    let cycle =
        cycle.transaction_executed(&mut pool, Err(BlockTransactionError::ExceedsBlockGasLimit));
    assert_eq!(pool.pending_transactions(), &[transaction(1, 0), transaction(2, 0)]);
    assert_eq!(cycle.stage(), MinerStage::SelectingTransactions);
    assert_eq!(cycle.next_action(), MinerAction::AddTransaction(transaction(2, 0)));

    let cycle = cycle.transaction_executed(&mut pool, Ok((22, 2)));
    assert_eq!(pool.pending_transactions(), &[transaction(1, 0)]);
    assert_eq!(cycle.stage(), MinerStage::Finalizing);

    let sealed = seal(ledger.last_block(), &options, vec![hash(2)], hash(101));
    let cycle = cycle.block_finalized(&mut ledger, Ok((sealed.clone(), vec![2])));
    let cycle = cycle.accounts_read(&mut pool, Vec::new());
    let result = cycle.into_result().unwrap().unwrap();
    assert_eq!(result.transaction_results, vec![22]);
    assert_eq!(result.transaction_traces, vec![2]);
    assert_eq!(result.transaction_receipts, vec![2]);
    assert_eq!(pool.pending_transactions(), &[transaction(1, 0)]);
}

#[test]
fn a_failed_transaction_aborts_the_cycle() {
    let mut ledger = InMemoryBlockchain::with_genesis_block(genesis(Some(7))).unwrap();
    let mut pool = pool_of(&[transaction(1, 0), transaction(2, 0), transaction(3, 0)]);
    let (cycle, options) = started(&ledger, &pool);

    let cycle = cycle.transaction_executed(&mut pool, Ok((11, 1)));
    let cycle = cycle.transaction_executed(
        &mut pool,
        Err(BlockTransactionError::InvalidTransaction("nonce too low".to_string())),
    );
    assert_eq!(cycle.stage(), MinerStage::Aborting);
    assert_eq!(cycle.next_action(), MinerAction::Abort);

    let sealed = seal(ledger.last_block(), &options, vec![hash(1)], hash(101));
    let cycle = cycle.block_finalized(&mut ledger, Ok((sealed, vec![1])));
    assert_eq!(cycle.stage(), MinerStage::Aborting);
    assert_eq!(ledger.last_block().hash, hash(100));

    let cycle = cycle.transaction_executed(&mut pool, Ok((33, 3)));
    assert_eq!(cycle.stage(), MinerStage::Aborting);

    let cycle = cycle.assembler_aborted(Ok(()));
    assert_eq!(cycle.stage(), MinerStage::Idle);
    assert_eq!(
        cycle.into_result(),
        Some(Err(MineBlockError::BlockTransaction(
            BlockTransactionError::InvalidTransaction("nonce too low".to_string())
        )))
    );
    assert_eq!(ledger.last_block().hash, hash(100));
    assert_eq!(
        ledger.block_hash(U256::from_u64(1)),
        Err(BlockchainError::UnknownBlockNumber)
    );
    assert_eq!(pool.pending_transactions(), &[transaction(2, 0), transaction(3, 0)]);
}

#[test]
fn a_failed_abort_is_reported_as_such() {
    let ledger = InMemoryBlockchain::with_genesis_block(genesis(Some(7))).unwrap();
    let mut pool = pool_of(&[transaction(1, 0)]);
    let (cycle, _) = started(&ledger, &pool);
    let cycle = cycle.transaction_executed(
        &mut pool,
        Err(BlockTransactionError::State("broken".to_string())),
    );
    let cycle = cycle.assembler_aborted(Err("cannot revert".to_string()));
    assert_eq!(
        cycle.into_result(),
        Some(Err(MineBlockError::BlockAbort("cannot revert".to_string())))
    );
    assert_eq!(pool.pending_transactions(), &[transaction(1, 0)]);
}

#[test]
fn a_failed_seal_ends_the_cycle() {
    let mut ledger = InMemoryBlockchain::with_genesis_block(genesis(Some(7))).unwrap();
    let pool = MemPool::new();
    let (cycle, _) = started(&ledger, &pool);
    let cycle = cycle.block_finalized(&mut ledger, Err("no root".to_string()));
    assert_eq!(
        cycle.into_result(),
        Some(Err(MineBlockError::BlockFinalize("no root".to_string())))
    );
    assert_eq!(ledger.last_block().hash, hash(100));
}

#[test]
fn a_stale_head_is_refused_by_the_ledger() {
    let mut ledger = InMemoryBlockchain::with_genesis_block(genesis(Some(7))).unwrap();
    let mut pool = MemPool::new();
    let (first, options) = started(&ledger, &pool);
    let (second, _) = started(&ledger, &pool);

    let sealed = seal(ledger.last_block(), &options, Vec::new(), hash(101));
    let rival = seal(ledger.last_block(), &options, Vec::new(), hash(102));
    let first = first.block_finalized(&mut ledger, Ok((sealed, Vec::new())));
    assert_eq!(first.stage(), MinerStage::Committing);

    let second = second.block_finalized(&mut ledger, Ok((rival, Vec::new())));
    assert_eq!(
        second.into_result(),
        Some(Err(MineBlockError::Blockchain(BlockchainError::InvalidBlockNumber {
            actual: U256::from_u64(1),
            expected: U256::from_u64(2),
        })))
    );
    assert_eq!(ledger.last_block().hash, hash(101));
    assert!(first.accounts_read(&mut pool, Vec::new()).into_result().unwrap().is_ok());
}

#[test]
fn a_block_on_the_wrong_parent_is_refused_by_the_ledger() {
    let mut ledger = InMemoryBlockchain::with_genesis_block(genesis(Some(7))).unwrap();
    let pool = MemPool::new();
    let (cycle, options) = started(&ledger, &pool);
    let mut sealed = seal(ledger.last_block(), &options, Vec::new(), hash(101));
    sealed.header.parent_hash = hash(55);
    let cycle = cycle.block_finalized(&mut ledger, Ok((sealed, Vec::new())));
    assert_eq!(
        cycle.into_result(),
        Some(Err(MineBlockError::Blockchain(BlockchainError::InvalidParentHash)))
    );
    assert_eq!(ledger.last_block().hash, hash(100));
}

#[test]
fn a_failed_pool_update_ends_the_cycle_after_the_block_is_in() {
    let mut ledger = InMemoryBlockchain::with_genesis_block(genesis(Some(7))).unwrap();
    let mut pool = MemPool::new();
    pool.add_with_account(account(0), transaction(4, 1)).unwrap();
    let (cycle, options) = started(&ledger, &pool);
    let sealed = seal(ledger.last_block(), &options, Vec::new(), hash(101));
    let cycle = cycle.block_finalized(&mut ledger, Ok((sealed, Vec::new())));
    let cycle = cycle.accounts_read(&mut pool, vec![Err("state is gone".to_string())]);
    assert_eq!(
        cycle.into_result(),
        Some(Err(MineBlockError::TransactionPoolUpdate("state is gone".to_string())))
    );
    assert_eq!(ledger.last_block().hash, hash(101));
    assert_eq!(pool.future_transactions(), &[transaction(4, 1)]);
}

#[test]
fn what_comes_into_the_pool_later_waits_for_the_next_cycle() {
    let ledger = InMemoryBlockchain::with_genesis_block(genesis(Some(7))).unwrap();
    let mut pool = pool_of(&[transaction(1, 0)]);
    let (cycle, _) = started(&ledger, &pool);
    pool.add_with_account(account(0), transaction(2, 0)).unwrap();
    let cycle = cycle.transaction_executed(&mut pool, Ok((11, 1)));
    assert_eq!(cycle.stage(), MinerStage::Finalizing);
    assert_eq!(pool.pending_transactions(), &[transaction(2, 0)]);
}

#[test]
fn reports_out_of_turn_change_nothing() {
    let mut ledger = InMemoryBlockchain::with_genesis_block(genesis(Some(7))).unwrap();
    let mut pool = pool_of(&[transaction(1, 0)]);
    let (cycle, _) = started(&ledger, &pool);
    let cycle = cycle.assembler_aborted(Ok(()));
    let cycle = cycle.accounts_read(&mut pool, vec![account(3)]);
    let cycle = cycle.assembler_started(&pool, Ok(()));
    let cycle = cycle.block_finalized(&mut ledger, Err("early".to_string()));
    assert_eq!(cycle.stage(), MinerStage::SelectingTransactions);
    assert_eq!(cycle.next_action(), MinerAction::AddTransaction(transaction(1, 0)));
    assert_eq!(pool.pending_transactions(), &[transaction(1, 0)]);
    assert_eq!(ledger.last_block().hash, hash(100));
    assert!(cycle.into_result().is_none());
}

#[test]
fn a_failed_ledger_lookup_aborts_the_cycle() {
    let ledger = InMemoryBlockchain::with_genesis_block(genesis(Some(7))).unwrap();
    let mut pool = pool_of(&[transaction(1, 0), transaction(2, 0)]);
    let (cycle, _) = started(&ledger, &pool);
    let cycle = cycle.transaction_executed(
        &mut pool,
        Err(BlockTransactionError::BlockHash(BlockchainError::UnknownBlockNumber)),
    );
    assert_eq!(cycle.next_action(), MinerAction::Abort);
    let cycle = cycle.assembler_aborted(Ok(()));
    assert_eq!(
        cycle.into_result(),
        Some(Err(MineBlockError::BlockTransaction(BlockTransactionError::BlockHash(
            BlockchainError::UnknownBlockNumber
        ))))
    );
    assert_eq!(pool.pending_transactions(), &[transaction(1, 0), transaction(2, 0)]);
}

#[test]
fn randomness_is_asked_for_after_the_merge_only() {
    assert!(miner(SpecId::MERGE).needs_randomness());
    assert!(miner(SpecId::CANCUN).needs_randomness());
    assert!(!miner(SpecId::LONDON).needs_randomness());
    assert!(!miner(SpecId::FRONTIER).needs_randomness());
}

#[test]
fn the_pool_is_brought_up_to_date_by_asking_the_state() {
    let mut ledger = InMemoryBlockchain::with_genesis_block(genesis(Some(7))).unwrap();
    let mut pool = pool_of(&[transaction(1, 0)]);
    pool.add_with_account(account(0), transaction(2, 2)).unwrap();
    pool.add_with_account(account(0), transaction(3, 4)).unwrap();
    let (cycle, options) = started(&ledger, &pool);
    let cycle = cycle.transaction_executed(&mut pool, Ok((11, 1)));
    let sealed = seal(ledger.last_block(), &options, vec![hash(1)], hash(101));
    let cycle = cycle.block_finalized(&mut ledger, Ok((sealed, vec![1])));

    let state = |address: Address| account(address.0[0] as u64);
    let cycle = cycle.update_pool(&mut pool, &state);
    assert_eq!(cycle.stage(), MinerStage::Idle);
    assert_eq!(pool.pending_transactions(), &[transaction(2, 2)]);
    assert_eq!(pool.future_transactions(), &[transaction(3, 4)]);
    assert!(cycle.into_result().unwrap().is_ok());
}

#[test]
fn a_state_that_fails_ends_the_cycle_after_the_block_is_in() {
    let mut ledger = InMemoryBlockchain::with_genesis_block(genesis(Some(7))).unwrap();
    let mut pool = MemPool::new();
    pool.add_with_account(account(0), transaction(2, 2)).unwrap();
    let (cycle, options) = started(&ledger, &pool);
    let sealed = seal(ledger.last_block(), &options, Vec::new(), hash(101));
    let cycle = cycle.block_finalized(&mut ledger, Ok((sealed, Vec::new())));
    let state = |_: Address| -> Result<Option<AccountInfo>, String> { Err("lost".to_string()) };
    let cycle = cycle.update_pool(&mut pool, &state);
    assert_eq!(
        cycle.into_result(),
        Some(Err(MineBlockError::TransactionPoolUpdate("lost".to_string())))
    );
    assert_eq!(pool.future_transactions(), &[transaction(2, 2)]);
    assert_eq!(ledger.last_block().hash, hash(101));
}

#[test]
fn the_state_is_not_asked_out_of_turn() {
    let ledger = InMemoryBlockchain::with_genesis_block(genesis(Some(7))).unwrap();
    let mut pool = pool_of(&[transaction(1, 0)]);
    pool.add_with_account(account(0), transaction(2, 2)).unwrap();
    let (cycle, _) = started(&ledger, &pool);
    let state = |_: Address| -> Result<Option<AccountInfo>, String> {
        panic!("the state was asked")
    };
    let cycle = cycle.update_pool(&mut pool, &state);
    assert_eq!(cycle.stage(), MinerStage::SelectingTransactions);
    assert_eq!(pool.future_transactions(), &[transaction(2, 2)]);
}

#[test]
fn the_cycle_keeps_the_header_that_it_began_on() {
    let mut ledger = InMemoryBlockchain::with_genesis_block(genesis(Some(7))).unwrap();
    let pool = MemPool::new();
    let cycle: Cycle = miner(SpecId::LONDON).mine_block(
        &ledger,
        U256::from_u64(2_000),
        U256::from_u64(5),
        None,
        None,
    );
    let options = match cycle.next_action() {
        MinerAction::BuildAssembler(options) => options,
        other => panic!("no assembler asked for, but {:?}", other),
    };
    let first = seal(ledger.last_block(), &options, Vec::new(), hash(101));
    ledger.insert_block(first).unwrap();
    assert_eq!(cycle.parent(), Some(&genesis(Some(7)).header));
    assert_eq!(options.number, Some(U256::from_u64(1)));

    let cycle = cycle.assembler_started(&pool, Ok(()));
    assert_eq!(cycle.parent(), None);
}

#[test]
fn a_later_cycle_builds_on_the_later_block() {
    let mut ledger = InMemoryBlockchain::with_genesis_block(genesis(Some(7))).unwrap();
    let mut pool = MemPool::new();
    for round in 1..4u8 {
        let (cycle, options) = started(&ledger, &pool);
        assert_eq!(options.number, Some(U256::from_u64(round as u64)));
        let sealed = seal(ledger.last_block(), &options, Vec::new(), hash(100 + round));
        let cycle = cycle.block_finalized(&mut ledger, Ok((sealed, Vec::new())));
        assert!(cycle.accounts_read(&mut pool, Vec::new()).into_result().unwrap().is_ok());
        assert_eq!(ledger.last_block().hash, hash(100 + round));
        assert_eq!(ledger.last_block().header.parent_hash, hash(99 + round));
    }
    assert_eq!(ledger.block_hash(U256::from_u64(3)), Ok(hash(103)));
}
