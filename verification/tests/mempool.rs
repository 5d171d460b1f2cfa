use rethnet_evm::mempool::{read_accounts, MemPool};
use rethnet_evm::primitives::{Address, B256};
use rethnet_evm::transaction::{AccountInfo, PendingTransaction};
use rethnet_evm::uint::U256;

fn hash(byte: u8) -> B256 {
    B256([byte; 32])
}

fn transaction(id: u8, caller: u8, nonce: u64) -> PendingTransaction {
    PendingTransaction::new(hash(id), Address([caller; 20]), nonce)
}

fn account(nonce: u64) -> Result<Option<AccountInfo>, String> {
    Ok(Some(AccountInfo {
        balance: U256::from_u64(1_000_000),
        nonce,
        code_hash: hash(0xc0),
    }))
}

fn unknown_account() -> Result<Option<AccountInfo>, String> {
    Ok(None)
}

fn failure(text: &str) -> Result<Option<AccountInfo>, String> {
    Err(text.to_string())
}

#[test]
fn a_due_transaction_is_pending() {
    let mut pool = MemPool::new();
    assert_eq!(pool.add_with_account(account(4), transaction(1, 1, 4)), Ok(()));
    assert_eq!(pool.pending_transactions(), &[transaction(1, 1, 4)]);
    assert!(pool.future_transactions().is_empty());
    assert!(pool.has_pending_transactions());
    assert!(!pool.has_future_transactions());
}

#[test]
fn a_transaction_with_a_lower_nonce_is_pending_too() {
    let mut pool = MemPool::new();
    assert_eq!(pool.add_with_account(account(9), transaction(1, 1, 4)), Ok(()));
    assert_eq!(pool.pending_transactions(), &[transaction(1, 1, 4)]);
    assert!(pool.future_transactions().is_empty());
}

#[test]
fn a_transaction_with_a_higher_nonce_is_future() {
    let mut pool = MemPool::new();
    assert_eq!(pool.add_with_account(account(4), transaction(1, 1, 5)), Ok(()));
    assert!(pool.pending_transactions().is_empty());
    assert_eq!(pool.future_transactions(), &[transaction(1, 1, 5)]);
    assert!(!pool.has_pending_transactions());
    assert!(pool.has_future_transactions());
}

#[test]
fn an_unknown_account_has_sent_nothing() {
    let mut pool = MemPool::new();
    assert_eq!(pool.add_with_account(unknown_account(), transaction(1, 1, 0)), Ok(()));
    assert_eq!(pool.add_with_account(unknown_account(), transaction(2, 1, 1)), Ok(()));
    assert_eq!(pool.pending_transactions(), &[transaction(1, 1, 0)]);
    assert_eq!(pool.future_transactions(), &[transaction(2, 1, 1)]);
}

#[test]
fn a_failed_lookup_admits_nothing() {
    let mut pool = MemPool::new();
    pool.add_with_account(account(0), transaction(1, 1, 0)).unwrap();
    assert_eq!(
        pool.add_with_account(failure("state is gone"), transaction(2, 2, 0)),
        Err("state is gone".to_string())
    );
    assert_eq!(pool.transactions(), vec![transaction(1, 1, 0)]);
}

#[test]
fn transactions_keep_the_order_of_their_arrival() {
    let mut pool = MemPool::new();
    pool.add_with_account(account(0), transaction(1, 1, 0)).unwrap();
    pool.add_with_account(account(0), transaction(2, 2, 3)).unwrap();
    pool.add_with_account(account(0), transaction(3, 3, 0)).unwrap();
    pool.add_with_account(account(0), transaction(4, 4, 1)).unwrap();
    assert_eq!(pool.pending_transactions(), &[transaction(1, 1, 0), transaction(3, 3, 0)]);
    assert_eq!(pool.future_transactions(), &[transaction(2, 2, 3), transaction(4, 4, 1)]);
    assert_eq!(
        pool.transactions(),
        vec![
            transaction(1, 1, 0),
            transaction(3, 3, 0),
            transaction(2, 2, 3),
            transaction(4, 4, 1),
        ]
    );
}

#[test]
fn removal_finds_a_transaction_once() {
    let mut pool = MemPool::new();
    pool.add_with_account(account(0), transaction(1, 1, 0)).unwrap();
    pool.add_with_account(account(0), transaction(2, 1, 1)).unwrap();
    pool.add_with_account(account(0), transaction(3, 2, 0)).unwrap();

    assert_eq!(pool.remove_transaction(&hash(9)), None);
    assert_eq!(pool.transactions().len(), 3);

    assert_eq!(pool.remove_transaction(&hash(1)), Some(transaction(1, 1, 0)));
    assert_eq!(pool.pending_transactions(), &[transaction(3, 2, 0)]);
    assert_eq!(pool.remove_transaction(&hash(1)), None);
    assert_eq!(pool.pending_transactions(), &[transaction(3, 2, 0)]);

    assert_eq!(pool.remove_transaction(&hash(2)), Some(transaction(2, 1, 1)));
    assert!(pool.future_transactions().is_empty());
    assert_eq!(pool.remove_transaction(&hash(2)), None);
    assert_eq!(pool.transactions(), vec![transaction(3, 2, 0)]);
}

#[test]
fn removal_takes_the_oldest_of_equal_hashes() {
    let mut pool = MemPool::new();
    pool.add_with_account(account(0), transaction(1, 1, 5)).unwrap();
    pool.add_with_account(account(0), transaction(2, 2, 0)).unwrap();
    pool.add_with_account(account(0), transaction(1, 3, 0)).unwrap();
    pool.add_with_account(account(0), transaction(1, 4, 0)).unwrap();
    assert_eq!(pool.remove_transaction(&hash(1)), Some(transaction(1, 3, 0)));
    assert_eq!(pool.remove_transaction(&hash(1)), Some(transaction(1, 4, 0)));
    assert_eq!(pool.remove_transaction(&hash(1)), Some(transaction(1, 1, 5)));
    assert_eq!(pool.remove_transaction(&hash(1)), None);
    assert_eq!(pool.transactions(), vec![transaction(2, 2, 0)]);
}

#[test]
fn transactions_are_found_by_their_hash() {
    let mut pool = MemPool::new();
    pool.add_with_account(account(0), transaction(1, 1, 0)).unwrap();
    pool.add_with_account(account(0), transaction(2, 1, 1)).unwrap();
    assert_eq!(pool.transaction_by_hash(&hash(1)), Some(&transaction(1, 1, 0)));
    assert_eq!(pool.transaction_by_hash(&hash(2)), Some(&transaction(2, 1, 1)));
    assert_eq!(pool.transaction_by_hash(&hash(3)), None);
}

#[test]
fn update_moves_what_has_become_due_in_its_order() {
    let mut pool = MemPool::new();
    pool.add_with_account(account(0), transaction(1, 1, 0)).unwrap();
    pool.add_with_account(account(0), transaction(2, 1, 1)).unwrap();
    pool.add_with_account(account(0), transaction(3, 2, 2)).unwrap();
    pool.add_with_account(account(0), transaction(4, 1, 2)).unwrap();
    pool.add_with_account(account(0), transaction(5, 3, 1)).unwrap();
    assert_eq!(pool.future_transactions().len(), 4);

    let answers = vec![account(1), account(0), account(1), account(1)];
    assert_eq!(pool.update_with_accounts(answers), Ok(()));
    assert_eq!(
        pool.pending_transactions(),
        &[transaction(1, 1, 0), transaction(2, 1, 1), transaction(5, 3, 1)]
    );
    assert_eq!(pool.future_transactions(), &[transaction(3, 2, 2), transaction(4, 1, 2)]);

    assert_eq!(pool.update_with_accounts(vec![account(2), account(2)]), Ok(()));
    assert_eq!(
        pool.pending_transactions(),
        &[
            transaction(1, 1, 0),
            transaction(2, 1, 1),
            transaction(5, 3, 1),
            transaction(3, 2, 2),
            transaction(4, 1, 2),
        ]
    );
    assert!(pool.future_transactions().is_empty());
}

#[test]
fn update_does_not_look_at_pending_transactions() {
    let mut pool = MemPool::new();
    pool.add_with_account(account(0), transaction(1, 1, 0)).unwrap();
    assert_eq!(pool.update_with_accounts(Vec::<Result<Option<AccountInfo>, String>>::new()), Ok(()));
    assert_eq!(pool.pending_transactions(), &[transaction(1, 1, 0)]);
}

#[test]
fn update_stops_at_the_first_failure() {
    let mut pool = MemPool::new();
    pool.add_with_account(account(0), transaction(1, 1, 1)).unwrap();
    pool.add_with_account(account(0), transaction(2, 2, 1)).unwrap();
    pool.add_with_account(account(0), transaction(3, 3, 1)).unwrap();
    pool.add_with_account(account(0), transaction(4, 4, 1)).unwrap();

    let answers = vec![account(1), account(0), failure("lost"), failure("later")];
    assert_eq!(pool.update_with_accounts(answers), Err("lost".to_string()));
    assert_eq!(pool.pending_transactions(), &[transaction(1, 1, 1)]);
    assert_eq!(
        pool.future_transactions(),
        &[transaction(2, 2, 1), transaction(3, 3, 1), transaction(4, 4, 1)]
    );
}

#[test]
fn update_leaves_what_it_has_no_answer_for() {
    let mut pool = MemPool::new();
    pool.add_with_account(account(0), transaction(1, 1, 1)).unwrap();
    pool.add_with_account(account(0), transaction(2, 2, 1)).unwrap();
    pool.add_with_account(account(0), transaction(3, 3, 1)).unwrap();
    assert_eq!(pool.update_with_accounts(vec![account(1)]), Ok(()));
    assert_eq!(pool.pending_transactions(), &[transaction(1, 1, 1)]);
    assert_eq!(pool.future_transactions(), &[transaction(2, 2, 1), transaction(3, 3, 1)]);

    assert_eq!(pool.update_with_accounts(vec![account(0), account(5), account(5), account(5)]), Ok(()));
    assert_eq!(pool.pending_transactions(), &[transaction(1, 1, 1), transaction(3, 3, 1)]);
    assert_eq!(pool.future_transactions(), &[transaction(2, 2, 1)]);
}

#[test]
fn a_copy_of_a_pool_is_a_pool_of_its_own() {
    let mut pool = MemPool::new();
    pool.add_with_account(account(0), transaction(1, 1, 0)).unwrap();
    pool.add_with_account(account(0), transaction(2, 1, 1)).unwrap();
    let mut copy = pool.deep_clone();
    assert_eq!(copy.transactions(), pool.transactions());
    copy.remove_transaction(&hash(1));
    assert_eq!(pool.transactions().len(), 2);
    assert_eq!(copy.transactions(), vec![transaction(2, 1, 1)]);
    assert!(MemPool::default().transactions().is_empty());
}

#[test]
fn getters_of_a_transaction() {
    let pending = transaction(7, 8, 9);
    assert_eq!(*pending.hash(), hash(7));
    assert_eq!(*pending.caller(), Address([8; 20]));
    assert_eq!(*pending.nonce(), 9);
}

/// An account state in which the account with address `[n; 20]` has nonce
/// `n`, and which fails for the address `[0xff; 20]`.
fn state(address: Address) -> Result<Option<AccountInfo>, String> {
    match address.0[0] {
        0xff => Err("state is gone".to_string()),
        0 => Ok(None),
        nonce => account(nonce as u64),
    }
}

#[test]
fn adding_asks_the_state_for_the_sender() {
    let mut pool = MemPool::new();
    assert_eq!(pool.add_transaction(&state, transaction(1, 3, 3)), Ok(()));
    assert_eq!(pool.add_transaction(&state, transaction(2, 3, 4)), Ok(()));
    assert_eq!(pool.add_transaction(&state, transaction(3, 0, 0)), Ok(()));
    assert_eq!(pool.add_transaction(&state, transaction(4, 0, 1)), Ok(()));
    assert_eq!(
        pool.add_transaction(&state, transaction(5, 0xff, 0)),
        Err("state is gone".to_string())
    );
    assert_eq!(pool.pending_transactions(), &[transaction(1, 3, 3), transaction(3, 0, 0)]);
    assert_eq!(pool.future_transactions(), &[transaction(2, 3, 4), transaction(4, 0, 1)]);
}

#[test]
fn updating_asks_the_state_for_each_sender() {
    let mut pool = MemPool::new();
    pool.add_with_account(account(0), transaction(1, 5, 5)).unwrap();
    pool.add_with_account(account(0), transaction(2, 5, 6)).unwrap();
    pool.add_with_account(account(0), transaction(3, 7, 7)).unwrap();
    pool.add_with_account(account(0), transaction(4, 0, 1)).unwrap();
    assert_eq!(pool.future_transactions().len(), 4);
    assert_eq!(pool.update(&state), Ok(()));
    assert_eq!(pool.pending_transactions(), &[transaction(1, 5, 5), transaction(3, 7, 7)]);
    assert_eq!(pool.future_transactions(), &[transaction(2, 5, 6), transaction(4, 0, 1)]);
}

#[test]
fn updating_stops_asking_at_the_first_failure() {
    let mut pool = MemPool::new();
    pool.add_with_account(account(0), transaction(1, 5, 5)).unwrap();
    pool.add_with_account(account(0), transaction(2, 0xff, 1)).unwrap();
    pool.add_with_account(account(0), transaction(3, 7, 7)).unwrap();
    let asked = std::cell::Cell::new(0);
    let counting = |address: Address| {
        asked.set(asked.get() + 1);
        state(address)
    };
    assert_eq!(pool.update(&counting), Err("state is gone".to_string()));
    assert_eq!(asked.get(), 2);
    assert_eq!(pool.pending_transactions(), &[transaction(1, 5, 5)]);
    assert_eq!(pool.future_transactions(), &[transaction(2, 0xff, 1), transaction(3, 7, 7)]);
}

#[test]
fn accounts_are_read_in_the_order_of_the_transactions() {
    let transactions = [transaction(1, 5, 5), transaction(2, 0, 1), transaction(3, 7, 7)];
    assert_eq!(
        read_accounts(&transactions, &state),
        vec![account(5), Ok(None), account(7)]
    );
    let transactions = [transaction(1, 5, 5), transaction(2, 0xff, 1), transaction(3, 7, 7)];
    assert_eq!(
        read_accounts(&transactions, &state),
        vec![account(5), Err("state is gone".to_string())]
    );
    assert!(read_accounts(&[], &state).is_empty());
}
