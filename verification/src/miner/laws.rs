//! What holds of every mining cycle.

use vstd::prelude::*;
use crate::mempool::MemPoolView;
use crate::block::{BlockOptions, BlockView};
use crate::miner::{
    BlockBuilderCreationError, BlockMiner, BlockTransactionError, MinerAction, MiningCycleView,
};
use crate::primitives::B256;
use crate::transaction::PendingTransaction;
use crate::uint::U256;

verus! {

impl<R, C, T, BE, SE> MiningCycleView<R, C, T, BE, SE> {
    /// Whether the cycle has failed: it discards its block, or it has ended
    /// without one.
    pub open spec fn has_failed(self) -> bool {
        self is Aborting || self matches MiningCycleView::Idle { outcome: Err(_) }
    }

    /// Whether the cycle holds a trace for each result.
    pub open spec fn is_paired(self) -> bool {
        match self {
            MiningCycleView::SelectingTransactions { results, traces, .. } => results.len()
                == traces.len(),
            MiningCycleView::Finalizing { results, traces, .. } => results.len() == traces.len(),
            MiningCycleView::Committing { results, traces, .. } => results.len() == traces.len(),
            MiningCycleView::Idle { outcome: Ok(result) } => result.transaction_results.len()
                == result.transaction_traces.len(),
            _ => true,
        }
    }
}

/// A block that an assembler builds by the options of a cycle, on top of the
/// block on which the cycle began, extends that block: the ledger takes it,
/// unless its last block has changed since the cycle began.
pub proof fn lemma_block_by_the_options_extends(
    miner: BlockMiner,
    options: BlockOptions,
    head: BlockView,
    timestamp: U256,
    base_fee: Option<U256>,
    prevrandao: Option<B256>,
    block: BlockView,
)
    requires
        miner.is_options_for(options, head.header, timestamp, base_fee, prevrandao),
        options.number matches Some(number) && block.header.number == number@,
        block.header.parent_hash == head.hash,
    ensures
        block.extends(head),
{
}

/// A cycle that finds no pending transaction offers none to the assembler: it
/// has the block sealed at once, without results and without traces.
pub proof fn lemma_empty_pool_is_sealed_at_once<R, C, T, BE, SE>(
    cycle: MiningCycleView<R, C, T, BE, SE>,
)
    requires
        cycle is BuildingAssembler,
    ensures
        cycle.after_assembler_started(Seq::empty(), Ok(())) == (MiningCycleView::<
            R,
            C,
            T,
            BE,
            SE,
        >::Finalizing {
            beneficiary: cycle->BuildingAssembler_beneficiary,
            reward: cycle->BuildingAssembler_reward,
            results: Seq::empty(),
            traces: Seq::empty(),
        }),
        cycle.after_assembler_started(Seq::empty(), Ok(())).next_action() == (
        MinerAction::Finalize {
            beneficiary: cycle->BuildingAssembler_beneficiary,
            reward: cycle->BuildingAssembler_reward,
        }),
{
}

/// A cycle goes through the pending transactions as the pool held them when
/// the assembler was made, oldest first.
pub proof fn lemma_selection_starts_with_the_oldest<R, C, T, BE, SE>(
    cycle: MiningCycleView<R, C, T, BE, SE>,
    pending: Seq<PendingTransaction>,
)
    requires
        cycle is BuildingAssembler,
        pending.len() > 0,
    ensures
        cycle.after_assembler_started(pending, Ok(())).next_action() == MinerAction::AddTransaction(
            pending[0],
        ),
        cycle.after_assembler_started(pending, Ok(()))->SelectingTransactions_waiting
            == pending.skip(1),
{
}

/// A transaction that asks for more gas than the block has left is passed
/// over. It stays in the pool, it leaves no result, and the cycle goes on
/// with the transaction after it, or has the block sealed where there is
/// none.
pub proof fn lemma_gas_limit_skips<R, C, T, BE, SE>(
    cycle: MiningCycleView<R, C, T, BE, SE>,
    pool: MemPoolView,
)
    requires
        cycle is SelectingTransactions,
    ensures
        ({
            let outcome = Err::<(R, T), BlockTransactionError<BE, SE>>(
                BlockTransactionError::ExceedsBlockGasLimit,
            );
            let waiting = cycle->SelectingTransactions_waiting;
            let results = cycle->SelectingTransactions_results;
            let next = cycle.after_transaction(outcome);
            &&& cycle.pool_after_transaction(pool, outcome) == pool
            &&& !next.has_failed()
            &&& waiting.len() > 0 ==> next.next_action() == MinerAction::AddTransaction(waiting[0])
                && next->SelectingTransactions_results == results
            &&& waiting.len() == 0 ==> next is Finalizing && next->Finalizing_results == results
        }),
{
}

/// A transaction that goes into the block leaves the pool, and leaves its
/// result and its trace behind those of the transactions before it.
pub proof fn lemma_inclusion_is_recorded<R, C, T, BE, SE>(
    cycle: MiningCycleView<R, C, T, BE, SE>,
    pool: MemPoolView,
    result: R,
    trace: T,
)
    requires
        cycle is SelectingTransactions,
    ensures
        ({
            let outcome = Ok::<(R, T), BlockTransactionError<BE, SE>>((result, trace));
            let in_hand = cycle->SelectingTransactions_in_hand;
            let waiting = cycle->SelectingTransactions_waiting;
            let results = cycle->SelectingTransactions_results;
            let traces = cycle->SelectingTransactions_traces;
            let next = cycle.after_transaction(outcome);
            &&& cycle.pool_after_transaction(pool, outcome) == pool.without(in_hand.hash)
            &&& waiting.len() > 0 ==> next.next_action() == MinerAction::AddTransaction(waiting[0])
                && next->SelectingTransactions_results == results.push(result)
                && next->SelectingTransactions_traces == traces.push(trace)
            &&& waiting.len() == 0 ==> next is Finalizing && next->Finalizing_results
                == results.push(result) && next->Finalizing_traces == traces.push(trace)
        }),
{
}

/// Any failure of a transaction but the lack of gas in the block is fatal:
/// the cycle has failed, the pool stays as it is, and the block is to be
/// discarded.
pub proof fn lemma_other_failures_abort<R, C, T, BE, SE>(
    cycle: MiningCycleView<R, C, T, BE, SE>,
    pool: MemPoolView,
    failure: BlockTransactionError<BE, SE>,
)
    requires
        cycle is SelectingTransactions,
        !(failure is ExceedsBlockGasLimit),
    ensures
        cycle.after_transaction(Err(failure)) == (MiningCycleView::<R, C, T, BE, SE>::Aborting {
            failure,
        }),
        cycle.after_transaction(Err(failure)).has_failed(),
        cycle.after_transaction(Err(failure)).next_action() == MinerAction::Abort,
        cycle.pool_after_transaction(pool, Err(failure)) == pool,
{
}

/// A cycle that has failed stays failed, whatever is reported to it: it
/// never comes to seal a block, and so never to append one. (In any stage
/// but the sealing, [`crate::miner::MiningCycle::block_finalized`] leaves the
/// ledger and the cycle as they are.)
pub proof fn lemma_failed_cycle_stays_failed<R, C, T, BE, SE>(
    cycle: MiningCycleView<R, C, T, BE, SE>,
    pending: Seq<PendingTransaction>,
    started: Result<(), BlockBuilderCreationError<SE>>,
    outcome: Result<(R, T), BlockTransactionError<BE, SE>>,
    aborted: Result<(), SE>,
    failure: Option<SE>,
)
    requires
        cycle.has_failed(),
    ensures
        cycle.after_assembler_started(pending, started).has_failed(),
        cycle.after_transaction(outcome).has_failed(),
        cycle.after_abort(aborted).has_failed(),
        cycle.after_pool_update(failure).has_failed(),
        !(cycle is Finalizing),
        !(cycle is Committing),
{
}

/// A cycle that holds a trace for each result goes on doing so.
pub proof fn lemma_results_and_traces_stay_paired<R, C, T, BE, SE>(
    cycle: MiningCycleView<R, C, T, BE, SE>,
    pending: Seq<PendingTransaction>,
    started: Result<(), BlockBuilderCreationError<SE>>,
    outcome: Result<(R, T), BlockTransactionError<BE, SE>>,
    aborted: Result<(), SE>,
    failure: Option<SE>,
)
    requires
        cycle.is_paired(),
    ensures
        cycle.after_assembler_started(pending, started).is_paired(),
        cycle.after_transaction(outcome).is_paired(),
        cycle.after_abort(aborted).is_paired(),
        cycle.after_pool_update(failure).is_paired(),
{
}

} // verus!
