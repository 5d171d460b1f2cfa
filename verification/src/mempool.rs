//! The transaction pool: the transactions that wait for a block.
//!
//! The pool keeps two lists, each in the order in which the transactions came.
//! The pending transactions can run now; the future ones wait for their
//! sender's earlier transactions. The order of the pending list is the order
//! in which a miner offers the transactions to a block.

use vstd::prelude::*;
use vstd::pervasive::unreached;
use crate::primitives::{Address, B256};
use crate::transaction::{account_nonce, AccountInfo, PendingTransaction};

pub mod laws;

verus! {

/// What a [`MemPool`] holds.
pub ghost struct MemPoolView {
    /// The transactions that can run now, oldest first.
    pub pending: Seq<PendingTransaction>,
    /// The transactions that wait for earlier ones, oldest first.
    pub future: Seq<PendingTransaction>,
}

/// The position of the first transaction with the given hash, if there is one.
pub open spec fn first_with_hash(transactions: Seq<PendingTransaction>, hash: B256) -> Option<int>
    decreases transactions.len(),
{
    if transactions.len() == 0 {
        None
    } else {
        match first_with_hash(transactions.drop_last(), hash) {
            Some(position) => Some(position),
            None => if transactions.last().hash == hash {
                Some(transactions.len() - 1)
            } else {
                None
            },
        }
    }
}

/// What the first transaction with a given hash is: it has the hash, and no
/// transaction before it has.
pub proof fn lemma_first_with_hash(transactions: Seq<PendingTransaction>, hash: B256)
    ensures
        match first_with_hash(transactions, hash) {
            Some(position) => {
                &&& 0 <= position < transactions.len()
                &&& transactions[position].hash == hash
                &&& forall|i: int| 0 <= i < position ==> (#[trigger] transactions[i]).hash != hash
            },
            None => forall|i: int|
                0 <= i < transactions.len() ==> (#[trigger] transactions[i]).hash != hash,
        },
    decreases transactions.len(),
{
    if transactions.len() > 0 {
        let front = transactions.drop_last();
        lemma_first_with_hash(front, hash);
        assert forall|i: int| 0 <= i < front.len() implies front[i] == transactions[i] by {}
        match first_with_hash(front, hash) {
            Some(position) => {
                assert forall|i: int| 0 <= i < position implies (#[trigger] transactions[i]).hash
                    != hash by {
                    assert(front[i] == transactions[i]);
                }
            },
            None => {
                assert forall|i: int| 0 <= i < transactions.len() - 1 implies (
                #[trigger] transactions[i]).hash != hash by {
                    assert(front[i] == transactions[i]);
                }
            },
        }
    }
}

impl MemPoolView {
    /// The pool after a transaction has come whose sender has sent
    /// `account_nonce` transactions: the transaction stands at the end of the
    /// pending ones if it is due, and at the end of the future ones if not.
    pub open spec fn with_added(self, account_nonce: u64, transaction: PendingTransaction) -> MemPoolView {
        if transaction.is_due(account_nonce) {
            MemPoolView { pending: self.pending.push(transaction), future: self.future }
        } else {
            MemPoolView { pending: self.pending, future: self.future.push(transaction) }
        }
    }

    /// The pool, and what the caller is told, after a transaction has come for
    /// whose sender the account state gave the answer `account`: with an
    /// answer the transaction is added as [`MemPoolView::with_added`] tells, by
    /// the nonce of the account, where an account that the state does not
    /// know has nonce 0; with a failure the pool stays as it is, and the
    /// failure is handed on.
    pub open spec fn with_answer<E>(
        self,
        account: Result<Option<AccountInfo>, E>,
        transaction: PendingTransaction,
    ) -> (MemPoolView, Result<(), E>) {
        match account {
            Ok(info) => (self.with_added(account_nonce(info), transaction), Ok(())),
            Err(error) => (self, Err(error)),
        }
    }

    /// The transaction that leaves when `hash` is removed: the first pending
    /// one with that hash, else the first future one.
    pub open spec fn found(self, hash: B256) -> Option<PendingTransaction> {
        match first_with_hash(self.pending, hash) {
            Some(position) => Some(self.pending[position]),
            None => match first_with_hash(self.future, hash) {
                Some(position) => Some(self.future[position]),
                None => None,
            },
        }
    }

    /// The pool after `hash` has been removed: without the transaction that
    /// [`MemPoolView::found`] names, and as it was where there is none.
    pub open spec fn without(self, hash: B256) -> MemPoolView {
        match first_with_hash(self.pending, hash) {
            Some(position) => MemPoolView {
                pending: self.pending.remove(position),
                future: self.future,
            },
            None => match first_with_hash(self.future, hash) {
                Some(position) => MemPoolView {
                    pending: self.pending,
                    future: self.future.remove(position),
                },
                None => self,
            },
        }
    }

    /// Whether some transaction of the pool has the given hash.
    pub open spec fn contains(self, hash: B256) -> bool {
        self.found(hash) is Some
    }
}

/// What becomes of a pool whose future transactions are looked at again, from
/// position `next` on, when those before it have been dealt with: `pending`
/// and `kept` hold what they have become. Each transaction is judged by the
/// answer that the account state gave for its sender, `lookups[next]`. A due
/// one goes to the end of the pending ones; one that is not due stays. At the
/// first failed answer the rest stays where it was, and the failure is the
/// second part of the result; so does the rest when the answers run out.
pub open spec fn reclassified<E>(
    pending: Seq<PendingTransaction>,
    kept: Seq<PendingTransaction>,
    future: Seq<PendingTransaction>,
    lookups: Seq<Result<Option<AccountInfo>, E>>,
    next: int,
) -> (MemPoolView, Option<E>)
    decreases future.len() - next,
{
    if next < 0 || next >= future.len() || next >= lookups.len() {
        (MemPoolView { pending, future: kept + future.skip(next) }, None)
    } else {
        match lookups[next] {
            Err(error) => (MemPoolView { pending, future: kept + future.skip(next) }, Some(error)),
            Ok(info) => if future[next].is_due(account_nonce(info)) {
                reclassified(pending.push(future[next]), kept, future, lookups, next + 1)
            } else {
                reclassified(pending, kept.push(future[next]), future, lookups, next + 1)
            },
        }
    }
}

impl MemPoolView {
    /// The pool after its future transactions have been looked at again, each
    /// with the answer of the account state for its sender, and the failure
    /// that ended the work, if one did.
    pub open spec fn updated<E>(self, lookups: Seq<Result<Option<AccountInfo>, E>>) -> (
        MemPoolView,
        Option<E>,
    ) {
        reclassified(self.pending, Seq::empty(), self.future, lookups, 0)
    }
}

/// What the caller of an update is told: the failure that ended it, if one did.
pub open spec fn failure_as_result<E>(failure: Option<E>) -> Result<(), E> {
    match failure {
        Some(error) => Err(error),
        None => Ok(()),
    }
}

/// Appends the transactions of `source` from position `from` on to `target`.
fn append_from(target: &mut Vec<PendingTransaction>, source: &Vec<PendingTransaction>, from: usize)
    requires
        from <= source.len(),
    ensures
        final(target)@ == old(target)@ + source@.skip(from as int),
{
    let mut i: usize = from;
    while i < source.len()
        invariant
            from <= i <= source.len(),
            target@ == old(target)@ + source@.subrange(from as int, i as int),
        decreases source.len() - i,
    {
        target.push(source[i]);
        i += 1;
        proof {
            assert(source@.subrange(from as int, i as int) =~= source@.subrange(
                from as int,
                i - 1,
            ).push(source@[i - 1]));
        }
    }
    proof {
        assert(source@.subrange(from as int, i as int) =~= source@.skip(from as int));
    }
}

/// Whether `accounts` is what the account state, asked through `lookup`,
/// answered for the senders of `transactions`, one after the other, up to its
/// first failure: each answer is one that `lookup` gives for the sender of the
/// transaction at its place, no answer but the last is a failure, and the
/// answers end before the transactions do only with a failure.
pub open spec fn answers_of<E, F: Fn(Address) -> Result<Option<AccountInfo>, E>>(
    lookup: F,
    transactions: Seq<PendingTransaction>,
    accounts: Seq<Result<Option<AccountInfo>, E>>,
) -> bool {
    &&& accounts.len() <= transactions.len()
    &&& forall|i: int|
        0 <= i < accounts.len() ==> call_ensures(
            lookup,
            (transactions[i].caller,),
            #[trigger] accounts[i],
        )
    &&& forall|i: int| 0 <= i < accounts.len() - 1 ==> (#[trigger] accounts[i]) is Ok
    &&& accounts.len() < transactions.len() ==> accounts.len() > 0 && accounts.last() is Err
}

/// Asks the account state, through `lookup`, for the sender of each of the
/// transactions in turn, and stops after the first answer that is a failure.
pub fn read_accounts<E, F: Fn(Address) -> Result<Option<AccountInfo>, E>>(
    transactions: &[PendingTransaction],
    lookup: &F,
) -> (accounts: Vec<Result<Option<AccountInfo>, E>>)
    requires
        forall|address: Address| call_requires(*lookup, (address,)),
    ensures
        answers_of(*lookup, transactions@, accounts@),
{
    let mut accounts: Vec<Result<Option<AccountInfo>, E>> = Vec::new();
    let mut i: usize = 0;
    let mut failed = false;
    while !failed && i < transactions.len()
        invariant
            forall|address: Address| call_requires(*lookup, (address,)),
            i <= transactions.len(),
            accounts@.len() == i,
            forall|j: int|
                0 <= j < i ==> call_ensures(
                    *lookup,
                    (transactions@[j].caller,),
                    #[trigger] accounts@[j],
                ),
            forall|j: int| 0 <= j < i - 1 ==> (#[trigger] accounts@[j]) is Ok,
            failed ==> i > 0 && accounts@.last() is Err,
            !failed && i > 0 ==> accounts@.last() is Ok,
        decreases transactions.len() - i + if failed { 0int } else { 1int },
    {
        let account = lookup(transactions[i].caller);
        failed = account.is_err();
        accounts.push(account);
        i += 1;
    }
    accounts
}

/// The transaction pool.
#[derive(Debug)]
pub struct MemPool {
    /// Transactions that can be executed now.
    pending_transactions: Vec<PendingTransaction>,
    /// Transactions that can be executed once their sender's nonce is high
    /// enough.
    future_transactions: Vec<PendingTransaction>,
}

impl View for MemPool {
    type V = MemPoolView;

    closed spec fn view(&self) -> MemPoolView {
        MemPoolView { pending: self.pending_transactions@, future: self.future_transactions@ }
    }
}

/// The position of the first transaction with the given hash, if there is one.
fn position_of(transactions: &Vec<PendingTransaction>, hash: &B256) -> (position: Option<usize>)
    ensures
        match position {
            Some(found) => first_with_hash(transactions@, *hash) == Some(found as int),
            None => first_with_hash(transactions@, *hash) is None,
        },
{
    let mut i: usize = 0;
    while i < transactions.len()
        invariant
            i <= transactions.len(),
            first_with_hash(transactions@.take(i as int), *hash) is None,
        decreases transactions.len() - i,
    {
        let ghost front = transactions@.take(i + 1);
        proof {
            assert(front.drop_last() =~= transactions@.take(i as int));
            assert(front.last() == transactions@[i as int]);
        }
        if transactions[i].hash == *hash {
            proof {
                lemma_first_stays(front, transactions@, *hash);
            }
            return Some(i);
        }
        i += 1;
    }
    proof {
        assert(transactions@.take(i as int) =~= transactions@);
    }
    None
}

/// The first transaction with a hash in the front of a sequence is the first
/// one in the whole sequence.
proof fn lemma_first_stays(
    front: Seq<PendingTransaction>,
    transactions: Seq<PendingTransaction>,
    hash: B256,
)
    requires
        front.len() <= transactions.len(),
        front =~= transactions.take(front.len() as int),
        first_with_hash(front, hash) is Some,
    ensures
        first_with_hash(transactions, hash) == first_with_hash(front, hash),
    decreases transactions.len(),
{
    if front.len() < transactions.len() {
        let shorter = transactions.drop_last();
        assert(front =~= shorter.take(front.len() as int));
        lemma_first_stays(front, shorter, hash);
    } else {
        assert(front =~= transactions);
    }
}

impl Default for MemPool {
    /// A pool without transactions.
    fn default() -> (pool: MemPool)
        ensures
            pool@.pending.len() == 0,
            pool@.future.len() == 0,
    {
        MemPool::new()
    }
}

impl Clone for MemPool {
    /// A pool of its own that holds what this one holds.
    fn clone(&self) -> (copy: MemPool)
        ensures
            copy@ == self@,
    {
        let mut pending_transactions: Vec<PendingTransaction> = Vec::new();
        append_from(&mut pending_transactions, &self.pending_transactions, 0);
        let mut future_transactions: Vec<PendingTransaction> = Vec::new();
        append_from(&mut future_transactions, &self.future_transactions, 0);
        proof {
            assert(pending_transactions@ =~= self.pending_transactions@);
            assert(future_transactions@ =~= self.future_transactions@);
        }
        MemPool { pending_transactions, future_transactions }
    }
}

impl MemPool {
    /// A pool without transactions.
    pub fn new() -> (pool: MemPool)
        ensures
            pool@.pending.len() == 0,
            pool@.future.len() == 0,
    {
        MemPool { pending_transactions: Vec::new(), future_transactions: Vec::new() }
    }

    /// A pool of its own that holds what this one holds.
    pub fn deep_clone(&self) -> (copy: MemPool)
        ensures
            copy@ == self@,
    {
        self.clone()
    }

    /// All transactions of the pool: the pending ones, then the future ones.
    pub fn transactions(&self) -> (transactions: Vec<PendingTransaction>)
        ensures
            transactions@ == self@.pending + self@.future,
    {
        let mut transactions: Vec<PendingTransaction> = Vec::new();
        append_from(&mut transactions, &self.pending_transactions, 0);
        append_from(&mut transactions, &self.future_transactions, 0);
        proof {
            assert(transactions@ =~= self@.pending + self@.future);
        }
        transactions
    }

    /// Whether the pool holds a transaction that waits for earlier ones.
    pub fn has_future_transactions(&self) -> (any: bool)
        ensures
            any == (self@.future.len() > 0),
    {
        self.future_transactions.len() > 0
    }

    /// Whether the pool holds a transaction that can run now.
    pub fn has_pending_transactions(&self) -> (any: bool)
        ensures
            any == (self@.pending.len() > 0),
    {
        self.pending_transactions.len() > 0
    }

    /// Takes `transaction` into the pool, after asking the account state,
    /// through `state`, for the sender of the transaction. What becomes of the
    /// pool for each answer, [`MemPool::add_with_account`] tells.
    pub fn add_transaction<E, F: Fn(Address) -> Result<Option<AccountInfo>, E>>(
        &mut self,
        state: &F,
        transaction: PendingTransaction,
    ) -> (result: Result<(), E>)
        requires
            call_requires(*state, (transaction.caller,)),
        ensures
            exists|account: Result<Option<AccountInfo>, E>| #[trigger]
                call_ensures(*state, (transaction.caller,), account) && (final(self)@, result)
                    == old(self)@.with_answer(account, transaction),
    {
        let account = state(transaction.caller);
        self.add_with_account(account, transaction)
    }

    /// Takes `transaction` into the pool. `account` is what the account state
    /// answered when it was asked for the sender of the transaction: where it
    /// failed, the pool stays as it is and the failure is handed on.
    pub fn add_with_account<E>(
        &mut self,
        account: Result<Option<AccountInfo>, E>,
        transaction: PendingTransaction,
    ) -> (result: Result<(), E>)
        ensures
            (final(self)@, result) == old(self)@.with_answer(account, transaction),
    {
        match account {
            Ok(info) => {
                self.add_transaction_impl(info, transaction);
                Ok(())
            },
            Err(error) => Err(error),
        }
    }

    /// Puts `transaction` at the end of the pending transactions if it is due
    /// for an account in the state `account`, and at the end of the future
    /// ones if not.
    fn add_transaction_impl(&mut self, account: Option<AccountInfo>, transaction: PendingTransaction)
        ensures
            final(self)@ == old(self)@.with_added(account_nonce(account), transaction),
    {
        let nonce = match account {
            Some(info) => info.nonce,
            None => 0,
        };
        if transaction.nonce > nonce {
            self.future_transactions.push(transaction);
        } else {
            self.pending_transactions.push(transaction);
        }
    }

    /// Removes the transaction with the given hash, if the pool holds one, and
    /// hands it out.
    pub fn remove_transaction(&mut self, hash: &B256) -> (removed: Option<PendingTransaction>)
        ensures
            removed == old(self)@.found(*hash),
            final(self)@ == old(self)@.without(*hash),
    {
        if let Some(position) = position_of(&self.pending_transactions, hash) {
            proof {
                lemma_first_with_hash(self.pending_transactions@, *hash);
            }
            return Some(self.pending_transactions.remove(position));
        }
        if let Some(position) = position_of(&self.future_transactions, hash) {
            proof {
                lemma_first_with_hash(self.future_transactions@, *hash);
            }
            return Some(self.future_transactions.remove(position));
        }
        None
    }

    /// Looks at the future transactions again, oldest first, after asking the
    /// account state, through `state`, for the sender of each, up to its first
    /// failure. What becomes of the pool for the answers,
    /// [`MemPool::update_with_accounts`] tells.
    pub fn update<E, F: Fn(Address) -> Result<Option<AccountInfo>, E>>(&mut self, state: &F) -> (result:
        Result<(), E>)
        requires
            forall|address: Address| call_requires(*state, (address,)),
        ensures
            exists|accounts: Seq<Result<Option<AccountInfo>, E>>| #[trigger]
                answers_of(*state, old(self)@.future, accounts) && final(self)@ == old(
                    self,
                )@.updated(accounts).0 && result == failure_as_result(
                    old(self)@.updated(accounts).1,
                ),
    {
        let accounts = read_accounts(self.future_transactions.as_slice(), state);
        self.update_with_accounts(accounts)
    }

    /// Looks at the future transactions again, oldest first, and moves those
    /// that have become due to the end of the pending ones, in their order.
    /// `accounts` holds, for each future transaction in turn, what the account
    /// state answered when it was asked for the sender. At the first failed
    /// answer the work ends: that transaction and those after it stay future,
    /// and the failure is handed on. Transactions for which `accounts` holds no
    /// answer stay future too.
    pub fn update_with_accounts<E>(&mut self, accounts: Vec<Result<Option<AccountInfo>, E>>) -> (result:
        Result<(), E>)
        ensures
            final(self)@ == old(self)@.updated(accounts@).0,
            result == failure_as_result(old(self)@.updated(accounts@).1),
    {
        let mut accounts = accounts;
        let mut waiting: Vec<PendingTransaction> = Vec::new();
        std::mem::swap(&mut self.future_transactions, &mut waiting);
        let ghost lookups = accounts@;
        let mut next: usize = 0;
        let mut failed = false;
        while !failed && next < waiting.len() && next < accounts.len()
            invariant
                waiting@ == old(self)@.future,
                accounts@ == lookups,
                next <= waiting.len(),
                next <= accounts.len(),
                failed ==> next < waiting.len() && next < accounts.len() && accounts@[next as int] is Err,
                reclassified(
                    self.pending_transactions@,
                    self.future_transactions@,
                    waiting@,
                    lookups,
                    next as int,
                ) == old(self)@.updated(lookups),
            decreases waiting.len() - next + if failed { 0int } else { 1int },
        {
            let transaction = waiting[next];
            match &accounts[next] {
                Ok(info) => {
                    let nonce = match info {
                        Some(info) => info.nonce,
                        None => 0,
                    };
                    if transaction.nonce > nonce {
                        self.future_transactions.push(transaction);
                    } else {
                        self.pending_transactions.push(transaction);
                    }
                    next += 1;
                },
                Err(_) => {
                    failed = true;
                },
            }
        }
        append_from(&mut self.future_transactions, &waiting, next);
        if failed {
            match accounts.swap_remove(next) {
                Err(error) => Err(error),
                Ok(_) => unreached(),
            }
        } else {
            Ok(())
        }
    }

    /// The transactions that wait for earlier ones, oldest first.
    pub fn future_transactions(&self) -> (transactions: &[PendingTransaction])
        ensures
            transactions@ == self@.future,
    {
        self.future_transactions.as_slice()
    }

    /// The transactions that can run now, oldest first.
    pub fn pending_transactions(&self) -> (transactions: &[PendingTransaction])
        ensures
            transactions@ == self@.pending,
    {
        self.pending_transactions.as_slice()
    }

    /// The transaction with the given hash, if the pool holds one: the one
    /// that [`MemPool::remove_transaction`] would remove.
    pub fn transaction_by_hash(&self, hash: &B256) -> (found: Option<&PendingTransaction>)
        ensures
            match found {
                Some(transaction) => self@.found(*hash) == Some(*transaction),
                None => self@.found(*hash) is None,
            },
    {
        if let Some(position) = position_of(&self.pending_transactions, hash) {
            proof {
                lemma_first_with_hash(self.pending_transactions@, *hash);
            }
            return Some(&self.pending_transactions[position]);
        }
        if let Some(position) = position_of(&self.future_transactions, hash) {
            proof {
                lemma_first_with_hash(self.future_transactions@, *hash);
            }
            return Some(&self.future_transactions[position]);
        }
        None
    }
}

} // verus!
