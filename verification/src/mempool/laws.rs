//! What holds of the pool whatever is done with it.

use vstd::prelude::*;
use vstd::multiset::Multiset;
use vstd::seq_lib::{lemma_multiset_commutative, to_multiset_build, to_multiset_contains};
use crate::mempool::{first_with_hash, lemma_first_with_hash, reclassified, MemPoolView};
use crate::primitives::B256;
use crate::transaction::{account_nonce, AccountInfo, PendingTransaction};

verus! {

/// Whether a list holds at most one transaction with the given hash.
pub open spec fn at_most_once(transactions: Seq<PendingTransaction>, hash: B256) -> bool {
    forall|i: int, j: int|
        0 <= i < j < transactions.len() ==> !((#[trigger] transactions[i]).hash == hash && (
        #[trigger] transactions[j]).hash == hash)
}

impl MemPoolView {
    /// All transactions of the pool: the pending ones, then the future ones.
    pub open spec fn all(self) -> Seq<PendingTransaction> {
        self.pending + self.future
    }
}

/// A transaction that comes into the pool goes to the end of one of its two
/// lists and leaves all else as it is: to the pending ones if its nonce is
/// the nonce of its sender's account, or lower, and to the future ones if its
/// nonce is higher.
pub proof fn lemma_added_transaction_lands(
    pool: MemPoolView,
    account_nonce: u64,
    transaction: PendingTransaction,
)
    ensures
        transaction.nonce <= account_nonce ==> pool.with_added(account_nonce, transaction)
            == (MemPoolView { pending: pool.pending.push(transaction), future: pool.future }),
        transaction.nonce > account_nonce ==> pool.with_added(account_nonce, transaction)
            == (MemPoolView { pending: pool.pending, future: pool.future.push(transaction) }),
{
}

/// Removing a hash that the pool does not hold finds nothing and leaves the
/// pool as it is.
pub proof fn lemma_remove_absent(pool: MemPoolView, hash: B256)
    requires
        !pool.contains(hash),
    ensures
        pool.found(hash) is None,
        pool.without(hash) == pool,
{
}

/// A transaction that was removed is gone: where the pool held at most one
/// transaction with a hash, it holds none after the hash was removed, so that
/// removing the hash once more finds nothing and changes nothing.
pub proof fn lemma_remove_is_idempotent(pool: MemPoolView, hash: B256)
    requires
        at_most_once(pool.all(), hash),
    ensures
        !pool.without(hash).contains(hash),
        pool.without(hash).found(hash) is None,
        pool.without(hash).without(hash) == pool.without(hash),
{
    let all = pool.all();
    let after = pool.without(hash);
    lemma_first_with_hash(pool.pending, hash);
    lemma_first_with_hash(pool.future, hash);
    lemma_first_with_hash(after.pending, hash);
    lemma_first_with_hash(after.future, hash);
    let count = pool.pending.len() as int;
    assert forall|i: int| 0 <= i < pool.pending.len() implies all[i] == pool.pending[i] by {}
    assert forall|i: int| 0 <= i < pool.future.len() implies all[count + i] == pool.future[i] by {}
    match first_with_hash(pool.pending, hash) {
        Some(position) => {
            assert(all[position].hash == hash);
            assert forall|i: int| 0 <= i < after.pending.len() implies (
            #[trigger] after.pending[i]).hash != hash by {
                if i < position {
                    assert(after.pending[i] == pool.pending[i]);
                } else {
                    assert(after.pending[i] == all[i + 1]);
                }
            }
            assert forall|i: int| 0 <= i < after.future.len() implies (
            #[trigger] after.future[i]).hash != hash by {
                assert(after.future[i] == all[count + i]);
            }
        },
        None => {
            match first_with_hash(pool.future, hash) {
                Some(position) => {
                    assert(all[count + position].hash == hash);
                    assert forall|i: int| 0 <= i < after.future.len() implies (
                    #[trigger] after.future[i]).hash != hash by {
                        if i < position {
                            assert(after.future[i] == pool.future[i]);
                        } else {
                            assert(after.future[i] == all[count + i + 1]);
                        }
                    }
                },
                None => {},
            }
        },
    }
}

/// Whether the future transaction at `position` has become due by the answer
/// that the account state gave for its sender.
pub open spec fn due_at<E>(
    future: Seq<PendingTransaction>,
    lookups: Seq<Result<Option<AccountInfo>, E>>,
    position: int,
) -> bool {
    lookups[position] matches Ok(info) && future[position].is_due(account_nonce(info))
}

/// Whether the account state answered for every future transaction.
pub open spec fn all_answered<E>(
    future: Seq<PendingTransaction>,
    lookups: Seq<Result<Option<AccountInfo>, E>>,
) -> bool {
    &&& future.len() <= lookups.len()
    &&& forall|i: int| 0 <= i < future.len() ==> (#[trigger] lookups[i]) is Ok
}

/// How many of the future transactions from `from` up to `to` have become
/// due, if `due` is true, and how many have not, if it is false.
pub open spec fn count_between<E>(
    future: Seq<PendingTransaction>,
    lookups: Seq<Result<Option<AccountInfo>, E>>,
    from: int,
    to: int,
    due: bool,
) -> int
    decreases to - from,
{
    if from >= to {
        0
    } else {
        count_between(future, lookups, from + 1, to, due) + if due_at(future, lookups, from)
            == due {
            1int
        } else {
            0int
        }
    }
}

/// Counting up to a transaction and counting it is counting up to the next.
proof fn lemma_count_step<E>(
    future: Seq<PendingTransaction>,
    lookups: Seq<Result<Option<AccountInfo>, E>>,
    from: int,
    to: int,
    due: bool,
)
    requires
        from <= to,
    ensures
        count_between(future, lookups, from, to, due) >= 0,
        count_between(future, lookups, from, to + 1, due) == count_between(
            future,
            lookups,
            from,
            to,
            due,
        ) + if due_at(future, lookups, to) == due {
            1int
        } else {
            0int
        },
    decreases to - from,
{
    if from < to {
        lemma_count_step(future, lookups, from + 1, to, due);
    } else {
        assert(count_between(future, lookups, from + 1, to + 1, due) == 0);
    }
}

/// Where every answer is there, looking at the future transactions from
/// `next` on puts each behind what is there already: a due one into the
/// pending list, after the due ones before it, and any other into the future
/// list, after the others before it.
proof fn lemma_reclassified<E>(
    pending: Seq<PendingTransaction>,
    kept: Seq<PendingTransaction>,
    future: Seq<PendingTransaction>,
    lookups: Seq<Result<Option<AccountInfo>, E>>,
    next: int,
)
    requires
        all_answered(future, lookups),
        0 <= next <= future.len(),
    ensures
        ({
            let (after, failure) = reclassified(pending, kept, future, lookups, next);
            let end = future.len() as int;
            &&& failure is None
            &&& after.pending.len() == pending.len() + count_between(
                future,
                lookups,
                next,
                end,
                true,
            )
            &&& after.future.len() == kept.len() + count_between(future, lookups, next, end, false)
            &&& forall|i: int| 0 <= i < pending.len() ==> after.pending[i] == pending[i]
            &&& forall|i: int| 0 <= i < kept.len() ==> after.future[i] == kept[i]
            &&& forall|i: int|
                next <= i < end && due_at(future, lookups, i) ==> after.pending[pending.len()
                    + count_between(future, lookups, next, i, true)] == #[trigger] future[i]
            &&& forall|i: int|
                next <= i < end && !due_at(future, lookups, i) ==> after.future[kept.len()
                    + count_between(future, lookups, next, i, false)] == #[trigger] future[i]
        }),
    decreases future.len() - next,
{
    let end = future.len() as int;
    if next < end {
        assert(lookups[next] is Ok);
        let due = due_at(future, lookups, next);
        let grown_pending = if due {
            pending.push(future[next])
        } else {
            pending
        };
        let grown_kept = if due {
            kept
        } else {
            kept.push(future[next])
        };
        lemma_reclassified(grown_pending, grown_kept, future, lookups, next + 1);
        let (after, failure) = reclassified(pending, kept, future, lookups, next);
        assert((after, failure) == reclassified(
            grown_pending,
            grown_kept,
            future,
            lookups,
            next + 1,
        ));
        assert forall|i: int| 0 <= i < pending.len() implies after.pending[i] == pending[i] by {
            assert(grown_pending[i] == pending[i]);
        }
        assert forall|i: int| 0 <= i < kept.len() implies after.future[i] == kept[i] by {
            assert(grown_kept[i] == kept[i]);
        }
        assert forall|i: int| next <= i < end && due_at(future, lookups, i) implies after.pending[pending.len()
            + count_between(future, lookups, next, i, true)] == #[trigger] future[i] by {
            if i == next {
                assert(grown_pending[pending.len() as int] == future[next]);
            }
        }
        assert forall|i: int| next <= i < end && !due_at(future, lookups, i) implies after.future[kept.len()
            + count_between(future, lookups, next, i, false)] == #[trigger] future[i] by {
            if i == next {
                assert(grown_kept[kept.len() as int] == future[next]);
            }
        }
    } else {
        assert(kept + future.skip(next) =~= kept);
    }
}

impl MemPoolView {
    /// The place in the pending list to which an update brings the future
    /// transaction at `position`, if it has become due: behind the pending
    /// transactions that were there, and behind the due ones before it.
    pub open spec fn place_when_due<E>(
        self,
        lookups: Seq<Result<Option<AccountInfo>, E>>,
        position: int,
    ) -> int {
        self.pending.len() + count_between(self.future, lookups, 0, position, true)
    }

    /// The place in the future list at which an update leaves the future
    /// transaction at `position`, if it has not become due: behind those
    /// before it that have not become due either.
    pub open spec fn place_when_not_due<E>(
        self,
        lookups: Seq<Result<Option<AccountInfo>, E>>,
        position: int,
    ) -> int {
        count_between(self.future, lookups, 0, position, false)
    }
}

/// An update with an answer for every future transaction fails not, and loses
/// and adds nothing. The pending transactions stay where they are. A future
/// transaction that has become due stands in the pending list behind them, at
/// [`MemPoolView::place_when_due`]; one that has not stays future, at
/// [`MemPoolView::place_when_not_due`].
pub proof fn lemma_update_moves_the_due<E>(
    pool: MemPoolView,
    lookups: Seq<Result<Option<AccountInfo>, E>>,
)
    requires
        all_answered(pool.future, lookups),
    ensures
        ({
            let (after, failure) = pool.updated(lookups);
            &&& failure is None
            &&& after.pending.len() + after.future.len() == pool.pending.len() + pool.future.len()
            &&& after.pending.len() >= pool.pending.len()
            &&& forall|i: int| 0 <= i < pool.pending.len() ==> after.pending[i] == pool.pending[i]
            &&& forall|i: int|
                0 <= i < pool.future.len() && due_at(pool.future, lookups, i) ==> {
                    &&& pool.pending.len() <= pool.place_when_due(lookups, i) < after.pending.len()
                    &&& after.pending[pool.place_when_due(lookups, i)] == #[trigger] pool.future[i]
                }
            &&& forall|i: int|
                0 <= i < pool.future.len() && !due_at(pool.future, lookups, i) ==> {
                    &&& 0 <= pool.place_when_not_due(lookups, i) < after.future.len()
                    &&& after.future[pool.place_when_not_due(lookups, i)] == #[trigger] pool.future[i]
                }
        }),
{
    let end = pool.future.len() as int;
    lemma_reclassified(pool.pending, Seq::empty(), pool.future, lookups, 0);
    lemma_counts_add_up(pool.future, lookups, 0, end);
    lemma_count_step(pool.future, lookups, 0, end, true);
    lemma_count_step(pool.future, lookups, 0, end, false);
    let (after, failure) = pool.updated(lookups);
    assert(failure is None);
    assert(after.pending.len() == pool.pending.len() + count_between(
        pool.future,
        lookups,
        0,
        end,
        true,
    ));
    assert(after.future.len() == count_between(pool.future, lookups, 0, end, false));
    assert forall|i: int| 0 <= i < pool.pending.len() implies after.pending[i]
        == pool.pending[i] by {}
    assert forall|i: int| 0 <= i < end && due_at(pool.future, lookups, i) implies {
        &&& pool.pending.len() <= pool.place_when_due(lookups, i) < after.pending.len()
        &&& after.pending[pool.place_when_due(lookups, i)] == #[trigger] pool.future[i]
    } by {
        lemma_count_step(pool.future, lookups, 0, i, true);
        lemma_count_grows(pool.future, lookups, 0, i + 1, end, true);
    }
    assert forall|i: int| 0 <= i < end && !due_at(pool.future, lookups, i) implies {
        &&& 0 <= pool.place_when_not_due(lookups, i) < after.future.len()
        &&& after.future[pool.place_when_not_due(lookups, i)] == #[trigger] pool.future[i]
    } by {
        lemma_count_step(pool.future, lookups, 0, i, false);
        lemma_count_grows(pool.future, lookups, 0, i + 1, end, false);
    }
}

/// An update keeps the order of the transactions that it moves, and of those
/// that it leaves: of two future transactions that have both become due, the
/// older one stands before the younger one in the pending list; of two that
/// have both not, the older one stands before the younger one in the future
/// list.
pub proof fn lemma_update_keeps_order<E>(
    pool: MemPoolView,
    lookups: Seq<Result<Option<AccountInfo>, E>>,
    older: int,
    younger: int,
)
    requires
        0 <= older < younger < pool.future.len(),
    ensures
        due_at(pool.future, lookups, older) ==> pool.place_when_due(lookups, older)
            < pool.place_when_due(lookups, younger),
        !due_at(pool.future, lookups, older) ==> pool.place_when_not_due(lookups, older)
            < pool.place_when_not_due(lookups, younger),
{
    lemma_count_step(pool.future, lookups, 0, older, true);
    lemma_count_step(pool.future, lookups, 0, older, false);
    lemma_count_grows(pool.future, lookups, 0, older + 1, younger, true);
    lemma_count_grows(pool.future, lookups, 0, older + 1, younger, false);
}

/// A count over a longer stretch is no smaller.
proof fn lemma_count_grows<E>(
    future: Seq<PendingTransaction>,
    lookups: Seq<Result<Option<AccountInfo>, E>>,
    from: int,
    to: int,
    further: int,
    due: bool,
)
    requires
        from <= to <= further,
    ensures
        count_between(future, lookups, from, to, due) <= count_between(
            future,
            lookups,
            from,
            further,
            due,
        ),
    decreases further - to,
{
    if to < further {
        lemma_count_grows(future, lookups, from, to, further - 1, due);
        lemma_count_step(future, lookups, from, further - 1, due);
    }
}

/// Each transaction of a stretch is counted as due or as not due.
proof fn lemma_counts_add_up<E>(
    future: Seq<PendingTransaction>,
    lookups: Seq<Result<Option<AccountInfo>, E>>,
    from: int,
    to: int,
)
    requires
        from <= to,
    ensures
        count_between(future, lookups, from, to, true) + count_between(
            future,
            lookups,
            from,
            to,
            false,
        ) == to - from,
    decreases to - from,
{
    if from < to {
        lemma_counts_add_up(future, lookups, from + 1, to);
    }
}

/// An empty sequence holds nothing, however often.
proof fn lemma_empty_holds_nothing<A>()
    ensures
        Seq::<A>::empty().to_multiset() == Multiset::<A>::empty(),
{
    broadcast use vstd::multiset::group_multiset_axioms;

    let none = Seq::<A>::empty();
    assert forall|a: A| none.to_multiset().count(a) == 0 by {
        to_multiset_contains(none, a);
    }
    assert(none.to_multiset() =~= Multiset::<A>::empty());
}

/// Looking at the future transactions again from `next` on neither loses nor
/// adds a transaction, whatever it is that `f` reads of each.
proof fn lemma_reclassified_conserves<E, B>(
    pending: Seq<PendingTransaction>,
    kept: Seq<PendingTransaction>,
    future: Seq<PendingTransaction>,
    lookups: Seq<Result<Option<AccountInfo>, E>>,
    next: int,
    f: spec_fn(PendingTransaction) -> B,
)
    requires
        0 <= next <= future.len(),
    ensures
        reclassified(pending, kept, future, lookups, next).0.all().map_values(f).to_multiset()
            == pending.map_values(f).to_multiset().add(kept.map_values(f).to_multiset()).add(
            future.skip(next).map_values(f).to_multiset(),
        ),
    decreases future.len() - next,
{
    broadcast use vstd::multiset::group_multiset_axioms;

    let rest = future.skip(next);
    let stops = next >= future.len() || next >= lookups.len() || lookups[next] is Err;
    if stops {
        let after = reclassified(pending, kept, future, lookups, next).0;
        assert(after.all().map_values(f) =~= (pending.map_values(f) + kept.map_values(f))
            + rest.map_values(f));
        lemma_multiset_commutative(pending.map_values(f) + kept.map_values(f), rest.map_values(f));
        lemma_multiset_commutative(pending.map_values(f), kept.map_values(f));
    } else {
        let moved = future[next];
        let due = due_at(future, lookups, next);
        let grown_pending = if due {
            pending.push(moved)
        } else {
            pending
        };
        let grown_kept = if due {
            kept
        } else {
            kept.push(moved)
        };
        lemma_reclassified_conserves(grown_pending, grown_kept, future, lookups, next + 1, f);
        let shorter = future.skip(next + 1);
        assert(rest.map_values(f) =~= seq![f(moved)] + shorter.map_values(f));
        lemma_multiset_commutative(seq![f(moved)], shorter.map_values(f));
        assert(seq![f(moved)] =~= Seq::<B>::empty().push(f(moved)));
        to_multiset_build(Seq::<B>::empty(), f(moved));
        lemma_empty_holds_nothing::<B>();
        if due {
            assert(grown_pending.map_values(f) =~= pending.map_values(f).push(f(moved)));
            to_multiset_build(pending.map_values(f), f(moved));
        } else {
            assert(grown_kept.map_values(f) =~= kept.map_values(f).push(f(moved)));
            to_multiset_build(kept.map_values(f), f(moved));
        }
        assert(grown_pending.map_values(f).to_multiset().add(
            grown_kept.map_values(f).to_multiset(),
        ).add(shorter.map_values(f).to_multiset()) =~= pending.map_values(f).to_multiset().add(
            kept.map_values(f).to_multiset(),
        ).add(rest.map_values(f).to_multiset()));
    }
}

impl MemPoolView {
    /// The hashes of all transactions of the pool: those of the pending ones,
    /// then those of the future ones.
    pub open spec fn hashes(self) -> Seq<B256> {
        self.all().map_values(|transaction: PendingTransaction| transaction.hash)
    }

    /// Whether no two transactions of the pool have the same hash, so that a
    /// hash stands in one of the two lists at most, and there once.
    pub open spec fn has_distinct_hashes(self) -> bool {
        self.hashes().no_duplicates()
    }
}

/// An update neither loses nor adds a transaction, whether it fails or not:
/// the pool holds the same transactions after it, each as often as before.
pub proof fn lemma_update_conserves<E>(
    pool: MemPoolView,
    lookups: Seq<Result<Option<AccountInfo>, E>>,
)
    ensures
        pool.updated(lookups).0.all().to_multiset() == pool.all().to_multiset(),
        pool.updated(lookups).0.hashes().to_multiset() == pool.hashes().to_multiset(),
{
    broadcast use vstd::multiset::group_multiset_axioms;

    let same = |transaction: PendingTransaction| transaction;
    let hash = |transaction: PendingTransaction| transaction.hash;
    let after = pool.updated(lookups).0;
    let none = Seq::<PendingTransaction>::empty();
    lemma_reclassified_conserves(pool.pending, none, pool.future, lookups, 0, same);
    lemma_reclassified_conserves(pool.pending, none, pool.future, lookups, 0, hash);
    assert(pool.future.skip(0) =~= pool.future);
    assert(after.all().map_values(same) =~= after.all());
    assert(pool.pending.map_values(same) =~= pool.pending);
    assert(pool.future.map_values(same) =~= pool.future);
    assert(none.map_values(same) =~= none);
    lemma_empty_holds_nothing::<PendingTransaction>();
    assert(none.map_values(hash) =~= Seq::<B256>::empty());
    lemma_empty_holds_nothing::<B256>();
    lemma_multiset_commutative(pool.pending, pool.future);
    assert(pool.hashes() =~= pool.pending.map_values(hash) + pool.future.map_values(hash));
    lemma_multiset_commutative(pool.pending.map_values(hash), pool.future.map_values(hash));
    assert(pool.updated(lookups).0.all().to_multiset() =~= pool.all().to_multiset());
    assert(pool.updated(lookups).0.hashes().to_multiset() =~= pool.hashes().to_multiset());
}

/// In a pool whose transactions have hashes of their own, they still have
/// after an update: no hash comes to stand in both lists, or twice in one.
pub proof fn lemma_update_keeps_hashes_distinct<E>(
    pool: MemPoolView,
    lookups: Seq<Result<Option<AccountInfo>, E>>,
)
    requires
        pool.has_distinct_hashes(),
    ensures
        pool.updated(lookups).0.has_distinct_hashes(),
{
    lemma_update_conserves(pool, lookups);
    pool.hashes().lemma_multiset_has_no_duplicates();
    pool.updated(lookups).0.hashes().lemma_multiset_has_no_duplicates_conv();
}

/// In a pool whose transactions have hashes of their own, they still have
/// after a transaction has come whose hash the pool did not hold.
pub proof fn lemma_add_keeps_hashes_distinct(
    pool: MemPoolView,
    account_nonce: u64,
    transaction: PendingTransaction,
)
    requires
        pool.has_distinct_hashes(),
        !pool.contains(transaction.hash),
    ensures
        pool.with_added(account_nonce, transaction).has_distinct_hashes(),
{
    let after = pool.with_added(account_nonce, transaction);
    let before = pool.hashes();
    let hashes = after.hashes();
    let count = pool.pending.len() as int;
    lemma_first_with_hash(pool.pending, transaction.hash);
    lemma_first_with_hash(pool.future, transaction.hash);
    assert forall|i: int| 0 <= i < before.len() implies #[trigger] before[i]
        != transaction.hash by {
        if i < count {
            assert(pool.all()[i] == pool.pending[i]);
        } else {
            assert(pool.all()[i] == pool.future[i - count]);
        }
    }
    let place = if transaction.is_due(account_nonce) {
        count
    } else {
        before.len() as int
    };
    assert(hashes =~= before.insert(place, transaction.hash));
    assert forall|i: int, j: int| 0 <= i < hashes.len() && 0 <= j < hashes.len() && i
        != j implies hashes[i] != hashes[j] by {
        let from = |k: int|
            if k < place {
                k
            } else {
                k - 1
            };
        if i != place && j != place {
            assert(hashes[i] == before[from(i)]);
            assert(hashes[j] == before[from(j)]);
        } else if i == place {
            assert(hashes[j] == before[from(j)]);
        } else {
            assert(hashes[i] == before[from(i)]);
        }
    }
}

/// In a pool whose transactions have hashes of their own, they still have
/// after a hash has been removed.
pub proof fn lemma_remove_keeps_hashes_distinct(pool: MemPoolView, hash: B256)
    requires
        pool.has_distinct_hashes(),
    ensures
        pool.without(hash).has_distinct_hashes(),
{
    let after = pool.without(hash);
    let before = pool.hashes();
    let hashes = after.hashes();
    let count = pool.pending.len() as int;
    lemma_first_with_hash(pool.pending, hash);
    lemma_first_with_hash(pool.future, hash);
    if pool.found(hash) is Some {
        let place = match first_with_hash(pool.pending, hash) {
            Some(position) => position,
            None => count + first_with_hash(pool.future, hash).unwrap(),
        };
        assert(hashes =~= before.remove(place));
        assert forall|i: int, j: int| 0 <= i < hashes.len() && 0 <= j < hashes.len() && i
            != j implies hashes[i] != hashes[j] by {
            let from = |k: int|
                if k < place {
                    k
                } else {
                    k + 1
                };
            assert(hashes[i] == before[from(i)]);
            assert(hashes[j] == before[from(j)]);
        }
    }
}

} // verus!
