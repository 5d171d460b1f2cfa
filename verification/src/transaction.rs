//! Transactions that wait for a block, and what the pool reads of an account.

use vstd::prelude::*;
use crate::primitives::{Address, B256};
use crate::uint::U256;

verus! {

/// What the account state tells of one account.
#[derive(Clone, Copy, Debug, PartialEq, Eq)]
pub struct AccountInfo {
    /// The account's balance.
    pub balance: U256,
    /// The number of transactions that the account has sent.
    pub nonce: u64,
    /// The hash of the account's code.
    pub code_hash: B256,
}

/// The nonce of an account as the state knows it: an account that the state
/// does not know has sent nothing.
pub open spec fn account_nonce(account: Option<AccountInfo>) -> u64 {
    match account {
        Some(info) => info.nonce,
        None => 0,
    }
}

/// A signed transaction that waits for a block, known by its hash and bound to
/// the account that sent it.
#[derive(Clone, Copy, Debug, PartialEq, Eq)]
pub struct PendingTransaction {
    /// The hash of the transaction.
    pub hash: B256,
    /// The account that sent the transaction.
    pub caller: Address,
    /// The place of the transaction among those of its sender.
    pub nonce: u64,
}

impl PendingTransaction {
    /// The transaction with the given hash, sent by `caller` as its
    /// transaction number `nonce`.
    pub fn new(hash: B256, caller: Address, nonce: u64) -> (transaction: PendingTransaction)
        ensures
            transaction == (PendingTransaction { hash, caller, nonce }),
    {
        PendingTransaction { hash, caller, nonce }
    }

    /// The hash of the transaction.
    pub fn hash(&self) -> (hash: &B256)
        ensures
            *hash == self.hash,
    {
        &self.hash
    }

    /// The account that sent the transaction.
    pub fn caller(&self) -> (caller: &Address)
        ensures
            *caller == self.caller,
    {
        &self.caller
    }

    /// The place of the transaction among those of its sender.
    pub fn nonce(&self) -> (nonce: &u64)
        ensures
            *nonce == self.nonce,
    {
        &self.nonce
    }

    /// Whether an account that has sent `account_nonce` transactions can send
    /// this one now. A transaction with a higher nonce has to wait for those
    /// before it.
    pub open spec fn is_due(self, account_nonce: u64) -> bool {
        self.nonce <= account_nonce
    }
}

} // verus!
