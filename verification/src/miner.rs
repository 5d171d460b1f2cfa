//! The block miner: one mining cycle, step by step.
//!
//! A cycle builds one block on top of the last block of a ledger. The work on
//! the block itself is done elsewhere: an assembler executes the transactions
//! and seals the block. The miner decides. A [`MiningCycle`] holds what has
//! been decided so far, [`MiningCycle::next_action`] tells what has to be done
//! next, and one function for each thing that can come back takes the cycle
//! to its next stage. Whoever drives the cycle does what it asks for and
//! reports what happened.
//!
//! A cycle that fails leaves the ledger as it was. It leaves the pool as it
//! was too, but for the transactions that had gone into the discarded block:
//! those have left the pool when they went in, and stay out.

use vstd::prelude::*;
use crate::base_fee::{checked_next_base_fee, has_next_base_fee, spec_next_base_fee};
use crate::block::{Block, BlockOptions, BlockView, Header, HeaderView};
use crate::blockchain::{chain_linked, Blockchain};
use crate::hardfork::SpecId;
use crate::mempool::{answers_of, read_accounts, MemPool, MemPoolView};
use crate::primitives::{Address, B256, B64};
use crate::transaction::{AccountInfo, PendingTransaction};
use crate::uint::{checked_add, u256_max, U256};

pub mod laws;

verus! {

/// Why an assembler could not be made for a new block.
#[derive(Debug, PartialEq, Eq)]
pub enum BlockBuilderCreationError<SE> {
    /// The rules ask for a base fee; none was given, and none follows from
    /// the parent.
    MissingBaseFee,
    /// The rules ask for randomness, and none was given.
    MissingPrevrandao,
    /// The account state failed.
    State(SE),
}

/// Why an assembler did not take a transaction into its block.
#[derive(Debug, PartialEq, Eq)]
pub enum BlockTransactionError<BE, SE> {
    /// The ledger failed when it was asked for the hash of a block.
    BlockHash(BE),
    /// The transaction asks for more gas than the block has left. The block
    /// can go on without it.
    ExceedsBlockGasLimit,
    /// The transaction is not valid; the text says why.
    InvalidTransaction(String),
    /// The account state failed.
    State(SE),
}

/// Why a mining cycle ended without a block.
#[derive(Debug, PartialEq, Eq)]
pub enum MineBlockError<BE, SE> {
    /// The assembler could not discard its block after a transaction had
    /// failed.
    BlockAbort(SE),
    /// No assembler could be made.
    BlockBuilderCreation(BlockBuilderCreationError<SE>),
    /// A transaction failed, and the block with it.
    BlockTransaction(BlockTransactionError<BE, SE>),
    /// The assembler could not seal its block.
    BlockFinalize(SE),
    /// The ledger refused the sealed block.
    Blockchain(BE),
    /// The account state failed while the pool was brought up to date.
    TransactionPoolUpdate(SE),
}

/// What a mining cycle hands out when it has ended well. The results and the
/// traces stand in the order in which their transactions went into the block;
/// so do the receipts, as the assembler gave them.
#[derive(Debug, PartialEq, Eq)]
pub struct MineBlockResult<R, C, T> {
    /// The block that was mined.
    pub block: Block,
    /// What the execution of each transaction gave.
    pub transaction_results: Vec<R>,
    /// The receipt of each transaction.
    pub transaction_receipts: Vec<C>,
    /// The trace of each transaction's execution.
    pub transaction_traces: Vec<T>,
}

/// What a [`MineBlockResult`] holds.
pub ghost struct MineBlockResultView<R, C, T> {
    pub block: BlockView,
    pub transaction_results: Seq<R>,
    pub transaction_receipts: Seq<C>,
    pub transaction_traces: Seq<T>,
}

impl<R, C, T> View for MineBlockResult<R, C, T> {
    type V = MineBlockResultView<R, C, T>;

    open spec fn view(&self) -> MineBlockResultView<R, C, T> {
        MineBlockResultView {
            block: self.block@,
            transaction_results: self.transaction_results@,
            transaction_receipts: self.transaction_receipts@,
            transaction_traces: self.transaction_traces@,
        }
    }
}

/// The stages of a mining cycle.
#[derive(Clone, Copy, Debug, PartialEq, Eq, Structural)]
pub enum MinerStage {
    /// An assembler is being made for the new block.
    BuildingAssembler,
    /// The transactions of the pool are offered to the assembler, one by one.
    SelectingTransactions,
    /// A transaction has failed, and the assembler discards its block.
    Aborting,
    /// The assembler seals its block.
    Finalizing,
    /// The block stands in the ledger, and the pool is brought up to date.
    Committing,
    /// The cycle has ended.
    Idle,
}

/// What the driver of a mining cycle has to do next.
#[derive(Clone, Copy, Debug, PartialEq, Eq)]
pub enum MinerAction {
    /// Make an assembler on top of [`MiningCycle::parent`], with these
    /// options, and report with [`MiningCycle::assembler_started`].
    BuildAssembler(BlockOptions),
    /// Offer this transaction to the assembler, and report with
    /// [`MiningCycle::transaction_executed`].
    AddTransaction(PendingTransaction),
    /// Have the assembler discard its block, and report with
    /// [`MiningCycle::assembler_aborted`].
    Abort,
    /// Have the assembler credit the reward and seal its block, and report
    /// with [`MiningCycle::block_finalized`].
    Finalize {
        /// The account that is credited.
        beneficiary: Address,
        /// What it is credited with.
        reward: U256,
    },
    /// Bring the pool up to date with the account state as it is after the
    /// block, with [`MiningCycle::update_pool`].
    UpdatePool,
    /// Nothing: the cycle has ended, and [`MiningCycle::into_result`] hands
    /// out how.
    Complete,
}

/// The state of a mining cycle.
pub ghost enum MiningCycleView<R, C, T, BE, SE> {
    /// An assembler is being made with `options`, on top of the block with
    /// the header `parent`: the header of the last block of the ledger as the
    /// cycle found it when it began.
    BuildingAssembler {
        parent: HeaderView,
        options: BlockOptions,
        beneficiary: Address,
        reward: U256,
    },
    /// The assembler has `in_hand`; the transactions of `waiting` follow it.
    /// `results` and `traces` are those of the transactions that went into
    /// the block so far.
    SelectingTransactions {
        beneficiary: Address,
        reward: U256,
        in_hand: PendingTransaction,
        waiting: Seq<PendingTransaction>,
        results: Seq<R>,
        traces: Seq<T>,
    },
    /// The assembler discards its block, because a transaction failed with
    /// `failure`.
    Aborting { failure: BlockTransactionError<BE, SE> },
    /// The assembler seals its block.
    Finalizing { beneficiary: Address, reward: U256, results: Seq<R>, traces: Seq<T> },
    /// `block` stands in the ledger, and the pool is brought up to date.
    Committing { block: BlockView, receipts: Seq<C>, results: Seq<R>, traces: Seq<T> },
    /// The cycle has ended with `outcome`.
    Idle { outcome: Result<MineBlockResultView<R, C, T>, MineBlockError<BE, SE>> },
}

impl<R, C, T, BE, SE> MiningCycleView<R, C, T, BE, SE> {
    /// The stage that the cycle is in.
    pub open spec fn stage(self) -> MinerStage {
        match self {
            MiningCycleView::BuildingAssembler { .. } => MinerStage::BuildingAssembler,
            MiningCycleView::SelectingTransactions { .. } => MinerStage::SelectingTransactions,
            MiningCycleView::Aborting { .. } => MinerStage::Aborting,
            MiningCycleView::Finalizing { .. } => MinerStage::Finalizing,
            MiningCycleView::Committing { .. } => MinerStage::Committing,
            MiningCycleView::Idle { .. } => MinerStage::Idle,
        }
    }

    /// What the driver of the cycle has to do next.
    pub open spec fn next_action(self) -> MinerAction {
        match self {
            MiningCycleView::BuildingAssembler { options, .. } => MinerAction::BuildAssembler(
                options,
            ),
            MiningCycleView::SelectingTransactions { in_hand, .. } => MinerAction::AddTransaction(
                in_hand,
            ),
            MiningCycleView::Aborting { .. } => MinerAction::Abort,
            MiningCycleView::Finalizing { beneficiary, reward, .. } => MinerAction::Finalize {
                beneficiary,
                reward,
            },
            MiningCycleView::Committing { .. } => MinerAction::UpdatePool,
            MiningCycleView::Idle { .. } => MinerAction::Complete,
        }
    }

    /// The state in which `remaining` is still to be offered to the assembler:
    /// the first of them is in hand, and where there is none, the block is
    /// sealed.
    pub open spec fn selecting(
        beneficiary: Address,
        reward: U256,
        remaining: Seq<PendingTransaction>,
        results: Seq<R>,
        traces: Seq<T>,
    ) -> Self {
        if remaining.len() > 0 {
            MiningCycleView::SelectingTransactions {
                beneficiary,
                reward,
                in_hand: remaining[0],
                waiting: remaining.skip(1),
                results,
                traces,
            }
        } else {
            MiningCycleView::Finalizing { beneficiary, reward, results, traces }
        }
    }

    /// The state after the assembler was made, or could not be made, while
    /// the pool held `pending` as its pending transactions. With an assembler
    /// the cycle goes through a copy of `pending`, oldest first; without one
    /// it ends. In any other stage nothing changes.
    pub open spec fn after_assembler_started(
        self,
        pending: Seq<PendingTransaction>,
        started: Result<(), BlockBuilderCreationError<SE>>,
    ) -> Self {
        match self {
            MiningCycleView::BuildingAssembler { beneficiary, reward, .. } => match started {
                Ok(_) => Self::selecting(beneficiary, reward, pending, Seq::empty(), Seq::empty()),
                Err(error) => MiningCycleView::Idle {
                    outcome: Err(MineBlockError::BlockBuilderCreation(error)),
                },
            },
            _ => self,
        }
    }

    /// Whether the transaction in hand has gone into the block with the given
    /// outcome.
    pub open spec fn includes(self, outcome: Result<(R, T), BlockTransactionError<BE, SE>>) -> bool {
        self is SelectingTransactions && outcome is Ok
    }

    /// The state after the assembler has answered for the transaction in
    /// hand. A transaction that went into the block leaves its result and its
    /// trace; one that asked for more gas than the block has left is passed
    /// over; after either the next transaction is in hand. Any other failure
    /// ends the selection: the block is to be discarded. In any other stage
    /// nothing changes.
    pub open spec fn after_transaction(
        self,
        outcome: Result<(R, T), BlockTransactionError<BE, SE>>,
    ) -> Self {
        match self {
            MiningCycleView::SelectingTransactions {
                beneficiary,
                reward,
                waiting,
                results,
                traces,
                ..
            } => match outcome {
                Ok((result, trace)) => Self::selecting(
                    beneficiary,
                    reward,
                    waiting,
                    results.push(result),
                    traces.push(trace),
                ),
                Err(BlockTransactionError::ExceedsBlockGasLimit) => Self::selecting(
                    beneficiary,
                    reward,
                    waiting,
                    results,
                    traces,
                ),
                Err(failure) => MiningCycleView::Aborting { failure },
            },
            _ => self,
        }
    }

    /// The pool after the assembler has answered for the transaction in hand:
    /// a transaction that went into the block leaves the pool; otherwise the
    /// pool stays as it is.
    pub open spec fn pool_after_transaction(
        self,
        pool: MemPoolView,
        outcome: Result<(R, T), BlockTransactionError<BE, SE>>,
    ) -> MemPoolView {
        match self {
            MiningCycleView::SelectingTransactions { in_hand, .. } => match outcome {
                Ok(_) => pool.without(in_hand.hash),
                Err(_) => pool,
            },
            _ => pool,
        }
    }

    /// The state after the assembler has discarded its block, or failed to:
    /// the cycle ends, with the failure of the transaction in the first case
    /// and with the failure of the assembler in the second. In any other
    /// stage nothing changes.
    pub open spec fn after_abort(self, aborted: Result<(), SE>) -> Self {
        match self {
            MiningCycleView::Aborting { failure } => MiningCycleView::Idle {
                outcome: Err(
                    match aborted {
                        Ok(_) => MineBlockError::BlockTransaction(failure),
                        Err(error) => MineBlockError::BlockAbort(error),
                    },
                ),
            },
            _ => self,
        }
    }

    /// The state after the pool was brought up to date, where `failure` is
    /// the failure of the account state that ended that work, if one did:
    /// the cycle ends, and well if there was none. In any other stage nothing
    /// changes.
    pub open spec fn after_pool_update(self, failure: Option<SE>) -> Self {
        match self {
            MiningCycleView::Committing { block, receipts, results, traces } => MiningCycleView::Idle {
                outcome: match failure {
                    Some(error) => Err(MineBlockError::TransactionPoolUpdate(error)),
                    None => Ok(
                        MineBlockResultView {
                            block,
                            transaction_results: results,
                            transaction_receipts: receipts,
                            transaction_traces: traces,
                        },
                    ),
                },
            },
            _ => self,
        }
    }
}

/// The settings of a miner: the rules under which it builds blocks, the gas
/// limit that it gives them, and the account that it has credited.
#[derive(Clone, Copy, Debug)]
pub struct BlockMiner {
    /// The rules under which blocks are built.
    pub spec_id: SpecId,
    /// The gas limit of each block.
    pub block_gas_limit: U256,
    /// The account that is credited with each block's reward.
    pub beneficiary: Address,
}

impl BlockMiner {
    /// A miner with the given settings.
    pub fn new(spec_id: SpecId, block_gas_limit: U256, beneficiary: Address) -> (miner: BlockMiner)
        ensures
            miner == (BlockMiner { spec_id, block_gas_limit, beneficiary }),
    {
        BlockMiner { spec_id, block_gas_limit, beneficiary }
    }

    /// Whether the blocks of this miner carry randomness, which they do under
    /// the rules after the merge: a cycle then has to be given a fresh value.
    pub fn needs_randomness(&self) -> (needed: bool)
        ensures
            needed == self.spec_id.includes(SpecId::MERGE),
    {
        SpecId::enabled(self.spec_id, SpecId::MERGE)
    }

    /// Why no assembler can be asked for, if there is a reason: rules after
    /// the merge and no randomness, before rules that know a base fee when
    /// none was given and none follows from the parent.
    pub open spec fn creation_failure<SE>(
        self,
        parent: HeaderView,
        base_fee: Option<U256>,
        prevrandao: Option<B256>,
    ) -> Option<BlockBuilderCreationError<SE>> {
        if self.spec_id.includes(SpecId::MERGE) && prevrandao is None {
            Some(BlockBuilderCreationError::MissingPrevrandao)
        } else if self.spec_id.includes(SpecId::LONDON) && base_fee is None && !has_next_base_fee(
            parent,
        ) {
            Some(BlockBuilderCreationError::MissingBaseFee)
        } else {
            None
        }
    }

    /// Whether `options` are the options of the block that this miner builds
    /// on top of `parent`. The block has the miner's beneficiary and gas
    /// limit, the number after the parent's, and the given timestamp. After
    /// the merge it has the given randomness and a zero nonce; before it, no
    /// randomness and the nonce 42. Where the rules know a base fee, it has
    /// the given one, or else the one that follows from the parent.
    pub open spec fn is_options_for(
        self,
        options: BlockOptions,
        parent: HeaderView,
        timestamp: U256,
        base_fee: Option<U256>,
        prevrandao: Option<B256>,
    ) -> bool {
        let merged = self.spec_id.includes(SpecId::MERGE);
        let london = self.spec_id.includes(SpecId::LONDON);
        &&& options.beneficiary == Some(self.beneficiary)
        &&& match options.number {
            Some(number) => number@ == parent.number + 1,
            None => parent.number == u256_max(),
        }
        &&& options.gas_limit == Some(self.block_gas_limit)
        &&& options.timestamp == Some(timestamp)
        &&& options.mix_hash == if merged {
            prevrandao
        } else {
            None
        }
        &&& options.nonce == Some(
            if merged {
                B64::zero()
            } else {
                B64::legacy()
            },
        )
        &&& match options.base_fee {
            Some(fee) => london && match base_fee {
                Some(given) => fee == given,
                None => has_next_base_fee(parent) && fee@ == spec_next_base_fee(parent),
            },
            None => !london,
        }
    }

    /// Begins a mining cycle on top of the last block of `ledger`, whose
    /// header the cycle keeps as it is now. `base_fee` overrides the base fee
    /// that follows from that header, and `prevrandao` is the randomness of
    /// the block; rules that know neither ignore them. The cycle asks for an
    /// assembler, or has ended already where [`BlockMiner::creation_failure`]
    /// gives a reason.
    pub fn mine_block<L: Blockchain<Error = BE>, R, C, T, BE, SE>(
        &self,
        ledger: &L,
        timestamp: U256,
        reward: U256,
        base_fee: Option<U256>,
        prevrandao: Option<B256>,
    ) -> (cycle: MiningCycle<R, C, T, BE, SE>)
        requires
            ledger.well_formed(),
        ensures
            match self.creation_failure::<SE>(
                ledger.chain().last().header,
                base_fee,
                prevrandao,
            ) {
                Some(error) => cycle@ == (MiningCycleView::<R, C, T, BE, SE>::Idle {
                    outcome: Err(MineBlockError::BlockBuilderCreation(error)),
                }),
                None => cycle@ matches MiningCycleView::BuildingAssembler {
                    parent,
                    options,
                    beneficiary,
                    reward: credited,
                } && parent == ledger.chain().last().header && self.is_options_for(
                    options,
                    parent,
                    timestamp,
                    base_fee,
                    prevrandao,
                ) && beneficiary == self.beneficiary && credited == reward,
            },
    {
        let parent = &ledger.last_block().header;
        let merged = SpecId::enabled(self.spec_id, SpecId::MERGE);
        let london = SpecId::enabled(self.spec_id, SpecId::LONDON);
        let mix_hash = if merged {
            match prevrandao {
                Some(randomness) => Some(randomness),
                None => {
                    return MiningCycle {
                        state: CycleState::Idle {
                            outcome: Err(
                                MineBlockError::BlockBuilderCreation(
                                    BlockBuilderCreationError::MissingPrevrandao,
                                ),
                            ),
                        },
                    };
                },
            }
        } else {
            None
        };
        let base_fee = if london {
            let fee = match base_fee {
                Some(given) => Some(given),
                None => checked_next_base_fee(parent),
            };
            match fee {
                Some(fee) => Some(fee),
                None => {
                    return MiningCycle {
                        state: CycleState::Idle {
                            outcome: Err(
                                MineBlockError::BlockBuilderCreation(
                                    BlockBuilderCreationError::MissingBaseFee,
                                ),
                            ),
                        },
                    };
                },
            }
        } else {
            None
        };
        let one = U256::from_u64(1);
        proof {
            U256::lemma_view_injective(parent.number, one);
        }
        let options = BlockOptions {
            beneficiary: Some(self.beneficiary),
            number: checked_add(&parent.number, &one),
            gas_limit: Some(self.block_gas_limit),
            timestamp: Some(timestamp),
            mix_hash,
            nonce: Some(
                if merged {
                    B64::zero()
                } else {
                    B64::legacy()
                },
            ),
            base_fee,
        };
        MiningCycle {
            state: CycleState::BuildingAssembler {
                parent: parent.clone(),
                options,
                beneficiary: self.beneficiary,
                reward,
            },
        }
    }
}

/// The state of a mining cycle, as it is kept.
#[derive(Debug)]
enum CycleState<R, C, T, BE, SE> {
    BuildingAssembler { parent: Header, options: BlockOptions, beneficiary: Address, reward: U256 },
    SelectingTransactions {
        beneficiary: Address,
        reward: U256,
        in_hand: PendingTransaction,
        queue: Vec<PendingTransaction>,
        next: usize,
        results: Vec<R>,
        traces: Vec<T>,
    },
    Aborting { failure: BlockTransactionError<BE, SE> },
    Finalizing { beneficiary: Address, reward: U256, results: Vec<R>, traces: Vec<T> },
    Committing { block: Block, receipts: Vec<C>, results: Vec<R>, traces: Vec<T> },
    Idle { outcome: Result<MineBlockResult<R, C, T>, MineBlockError<BE, SE>> },
}

/// The transactions of `queue` from position `next` on.
spec fn from_position(queue: Seq<PendingTransaction>, next: usize) -> Seq<PendingTransaction> {
    if next <= queue.len() {
        queue.skip(next as int)
    } else {
        Seq::empty()
    }
}

impl<R, C, T, BE, SE> CycleState<R, C, T, BE, SE> {
    spec fn view(&self) -> MiningCycleView<R, C, T, BE, SE> {
        match *self {
            CycleState::BuildingAssembler {
                parent,
                options,
                beneficiary,
                reward,
            } => MiningCycleView::BuildingAssembler { parent: parent@, options, beneficiary, reward },
            CycleState::SelectingTransactions {
                beneficiary,
                reward,
                in_hand,
                queue,
                next,
                results,
                traces,
            } => MiningCycleView::SelectingTransactions {
                beneficiary,
                reward,
                in_hand,
                waiting: from_position(queue@, next),
                results: results@,
                traces: traces@,
            },
            CycleState::Aborting { failure } => MiningCycleView::Aborting { failure },
            CycleState::Finalizing {
                beneficiary,
                reward,
                results,
                traces,
            } => MiningCycleView::Finalizing {
                beneficiary,
                reward,
                results: results@,
                traces: traces@,
            },
            CycleState::Committing {
                block,
                receipts,
                results,
                traces,
            } => MiningCycleView::Committing {
                block: block@,
                receipts: receipts@,
                results: results@,
                traces: traces@,
            },
            CycleState::Idle { outcome } => MiningCycleView::Idle {
                outcome: match outcome {
                    Ok(result) => Ok(result@),
                    Err(error) => Err(error),
                },
            },
        }
    }

    /// The state in which the transactions of `queue` from position `next` on
    /// are still to be offered to the assembler.
    fn selecting(
        beneficiary: Address,
        reward: U256,
        queue: Vec<PendingTransaction>,
        next: usize,
        results: Vec<R>,
        traces: Vec<T>,
    ) -> (state: Self)
        ensures
            state.view() == MiningCycleView::<R, C, T, BE, SE>::selecting(
                beneficiary,
                reward,
                from_position(queue@, next),
                results@,
                traces@,
            ),
    {
        if next < queue.len() {
            let in_hand = queue[next];
            proof {
                assert(from_position(queue@, (next + 1) as usize) =~= from_position(
                    queue@,
                    next,
                ).skip(1));
            }
            CycleState::SelectingTransactions {
                beneficiary,
                reward,
                in_hand,
                queue,
                next: next + 1,
                results,
                traces,
            }
        } else {
            CycleState::Finalizing { beneficiary, reward, results, traces }
        }
    }
}

/// A copy of a list of transactions.
fn copy_of(transactions: &[PendingTransaction]) -> (copy: Vec<PendingTransaction>)
    ensures
        copy@ == transactions@,
{
    let mut copy: Vec<PendingTransaction> = Vec::new();
    let mut i: usize = 0;
    while i < transactions.len()
        invariant
            i <= transactions.len(),
            copy@ == transactions@.take(i as int),
        decreases transactions.len() - i,
    {
        copy.push(transactions[i]);
        i += 1;
        proof {
            assert(transactions@.take(i as int) =~= transactions@.take(i - 1).push(
                transactions@[i - 1],
            ));
        }
    }
    proof {
        assert(transactions@.take(i as int) =~= transactions@);
    }
    copy
}

/// One mining cycle: what has been decided so far about the block that is
/// being mined.
#[derive(Debug)]
pub struct MiningCycle<R, C, T, BE, SE> {
    state: CycleState<R, C, T, BE, SE>,
}

impl<R, C, T, BE, SE> View for MiningCycle<R, C, T, BE, SE> {
    type V = MiningCycleView<R, C, T, BE, SE>;

    closed spec fn view(&self) -> MiningCycleView<R, C, T, BE, SE> {
        self.state.view()
    }
}

impl<R, C, T, BE, SE> MiningCycle<R, C, T, BE, SE> {
    /// The stage that the cycle is in.
    pub fn stage(&self) -> (stage: MinerStage)
        ensures
            stage == self@.stage(),
    {
        match &self.state {
            CycleState::BuildingAssembler { .. } => MinerStage::BuildingAssembler,
            CycleState::SelectingTransactions { .. } => MinerStage::SelectingTransactions,
            CycleState::Aborting { .. } => MinerStage::Aborting,
            CycleState::Finalizing { .. } => MinerStage::Finalizing,
            CycleState::Committing { .. } => MinerStage::Committing,
            CycleState::Idle { .. } => MinerStage::Idle,
        }
    }

    /// The header on top of which the assembler is to be made, while the cycle
    /// asks for one.
    pub fn parent(&self) -> (parent: Option<&Header>)
        ensures
            match self@ {
                MiningCycleView::BuildingAssembler { parent: kept, .. } => parent matches Some(
                    header,
                ) && header@ == kept,
                _ => parent is None,
            },
    {
        match &self.state {
            CycleState::BuildingAssembler { parent, .. } => Some(parent),
            _ => None,
        }
    }

    /// What the driver of the cycle has to do next.
    pub fn next_action(&self) -> (action: MinerAction)
        ensures
            action == self@.next_action(),
    {
        match &self.state {
            CycleState::BuildingAssembler { options, .. } => MinerAction::BuildAssembler(*options),
            CycleState::SelectingTransactions { in_hand, .. } => MinerAction::AddTransaction(
                *in_hand,
            ),
            CycleState::Aborting { .. } => MinerAction::Abort,
            CycleState::Finalizing { beneficiary, reward, .. } => MinerAction::Finalize {
                beneficiary: *beneficiary,
                reward: *reward,
            },
            CycleState::Committing { .. } => MinerAction::UpdatePool,
            CycleState::Idle { .. } => MinerAction::Complete,
        }
    }

    /// Takes the report on the making of the assembler. With an assembler,
    /// the cycle copies the pending transactions of `pool` as they stand and
    /// goes through the copy, oldest first: what comes into the pool later is
    /// not looked at in this cycle.
    pub fn assembler_started(
        self,
        pool: &MemPool,
        started: Result<(), BlockBuilderCreationError<SE>>,
    ) -> (next: Self)
        ensures
            next@ == self@.after_assembler_started(pool@.pending, started),
    {
        match self.state {
            CycleState::BuildingAssembler { beneficiary, reward, .. } => match started {
                Ok(_) => {
                    let queue = copy_of(pool.pending_transactions());
                    proof {
                        assert(from_position(queue@, 0) =~= pool@.pending);
                    }
                    MiningCycle {
                        state: CycleState::selecting(
                            beneficiary,
                            reward,
                            queue,
                            0,
                            Vec::new(),
                            Vec::new(),
                        ),
                    }
                },
                Err(error) => MiningCycle {
                    state: CycleState::Idle {
                        outcome: Err(MineBlockError::BlockBuilderCreation(error)),
                    },
                },
            },
            state => MiningCycle { state },
        }
    }

    /// Takes the assembler's answer for the transaction in hand. A
    /// transaction that went into the block is removed from `pool` at once,
    /// and for good: should a later transaction fail and the block be
    /// discarded, the transactions that had gone into it are not brought back
    /// into the pool.
    pub fn transaction_executed(
        self,
        pool: &mut MemPool,
        outcome: Result<(R, T), BlockTransactionError<BE, SE>>,
    ) -> (next: Self)
        ensures
            next@ == self@.after_transaction(outcome),
            final(pool)@ == self@.pool_after_transaction(old(pool)@, outcome),
    {
        match self.state {
            CycleState::SelectingTransactions {
                beneficiary,
                reward,
                in_hand,
                queue,
                next,
                results,
                traces,
            } => match outcome {
                Ok((result, trace)) => {
                    let mut results = results;
                    let mut traces = traces;
                    results.push(result);
                    traces.push(trace);
                    pool.remove_transaction(&in_hand.hash);
                    MiningCycle {
                        state: CycleState::selecting(
                            beneficiary,
                            reward,
                            queue,
                            next,
                            results,
                            traces,
                        ),
                    }
                },
                Err(BlockTransactionError::ExceedsBlockGasLimit) => MiningCycle {
                    state: CycleState::selecting(beneficiary, reward, queue, next, results, traces),
                },
                Err(failure) => MiningCycle { state: CycleState::Aborting { failure } },
            },
            state => MiningCycle { state },
        }
    }

    /// Takes the report on the discarding of the block.
    pub fn assembler_aborted(self, aborted: Result<(), SE>) -> (next: Self)
        ensures
            next@ == self@.after_abort(aborted),
    {
        match self.state {
            CycleState::Aborting { failure } => MiningCycle {
                state: CycleState::Idle {
                    outcome: Err(
                        match aborted {
                            Ok(_) => MineBlockError::BlockTransaction(failure),
                            Err(error) => MineBlockError::BlockAbort(error),
                        },
                    ),
                },
            },
            state => MiningCycle { state },
        }
    }

    /// Takes the sealed block and its receipts, or the failure of the
    /// assembler to seal, and appends the block to `ledger`. The ledger
    /// decides by its last block as it stands now, not as it stood when the
    /// cycle began. Where it refuses the block, the cycle ends with the
    /// ledger's reason. In any stage but [`MinerStage::Finalizing`] the
    /// ledger is not touched.
    pub fn block_finalized<L: Blockchain<Error = BE>>(
        self,
        ledger: &mut L,
        finalized: Result<(Block, Vec<C>), SE>,
    ) -> (next: Self)
        requires
            old(ledger).well_formed(),
        ensures
            final(ledger).well_formed(),
            chain_linked(final(ledger).chain()),
            match self@ {
                MiningCycleView::Finalizing { results, traces, .. } => match finalized {
                    Ok((block, receipts)) => if block@.extends(old(ledger).chain().last()) {
                        &&& final(ledger).chain() == old(ledger).chain().push(block@)
                        &&& next@ == (MiningCycleView::<R, C, T, BE, SE>::Committing {
                            block: block@,
                            receipts: receipts@,
                            results,
                            traces,
                        })
                    } else {
                        &&& final(ledger).chain() == old(ledger).chain()
                        &&& next@ == (MiningCycleView::<R, C, T, BE, SE>::Idle {
                            outcome: Err(
                                MineBlockError::Blockchain(old(ledger).refusal(block@)),
                            ),
                        })
                    },
                    Err(error) => {
                        &&& *final(ledger) == *old(ledger)
                        &&& next@ == (MiningCycleView::<R, C, T, BE, SE>::Idle {
                            outcome: Err(MineBlockError::BlockFinalize(error)),
                        })
                    },
                },
                _ => *final(ledger) == *old(ledger) && next@ == self@,
            },
    {
        proof {
            ledger.lemma_chain_linked();
        }
        match self.state {
            CycleState::Finalizing { results, traces, .. } => match finalized {
                Ok((block, receipts)) => match ledger.insert_block(block.clone()) {
                    Ok(_) => MiningCycle {
                        state: CycleState::Committing { block, receipts, results, traces },
                    },
                    Err(error) => MiningCycle {
                        state: CycleState::Idle { outcome: Err(MineBlockError::Blockchain(error)) },
                    },
                },
                Err(error) => MiningCycle {
                    state: CycleState::Idle { outcome: Err(MineBlockError::BlockFinalize(error)) },
                },
            },
            state => MiningCycle { state },
        }
    }

    /// Brings `pool` up to date with the account state as it is after the
    /// block, asking it through `state` for the sender of each future
    /// transaction, as [`MemPool::update`] does. What becomes of the pool and
    /// of the cycle for the answers, [`MiningCycle::accounts_read`] tells. In
    /// any stage but [`MinerStage::Committing`] the state is not asked.
    pub fn update_pool<F: Fn(Address) -> Result<Option<AccountInfo>, SE>>(
        self,
        pool: &mut MemPool,
        state: &F,
    ) -> (next: Self)
        requires
            forall|address: Address| call_requires(*state, (address,)),
        ensures
            self@ is Committing ==> exists|accounts: Seq<Result<Option<AccountInfo>, SE>>| #[trigger]
                answers_of(*state, old(pool)@.future, accounts) && final(pool)@ == old(
                    pool,
                )@.updated(accounts).0 && next@ == self@.after_pool_update(
                    old(pool)@.updated(accounts).1,
                ),
            !(self@ is Committing) ==> final(pool)@ == old(pool)@ && next@ == self@,
    {
        match &self.state {
            CycleState::Committing { .. } => {
                let accounts = read_accounts(pool.future_transactions(), state);
                self.accounts_read(pool, accounts)
            },
            _ => self,
        }
    }

    /// Takes what the account state answered for the sender of each future
    /// transaction of `pool`, in their order, and brings the pool up to date
    /// with it, as [`MemPool::update_with_accounts`] does. In any stage but
    /// [`MinerStage::Committing`] the pool is not touched.
    pub fn accounts_read(
        self,
        pool: &mut MemPool,
        accounts: Vec<Result<Option<AccountInfo>, SE>>,
    ) -> (next: Self)
        ensures
            self@ is Committing ==> {
                &&& final(pool)@ == old(pool)@.updated(accounts@).0
                &&& next@ == self@.after_pool_update(old(pool)@.updated(accounts@).1)
            },
            !(self@ is Committing) ==> final(pool)@ == old(pool)@ && next@ == self@,
    {
        match self.state {
            CycleState::Committing {
                block,
                receipts,
                results,
                traces,
            } => match pool.update_with_accounts(accounts) {
                Ok(_) => MiningCycle {
                    state: CycleState::Idle {
                        outcome: Ok(
                            MineBlockResult {
                                block,
                                transaction_results: results,
                                transaction_receipts: receipts,
                                transaction_traces: traces,
                            },
                        ),
                    },
                },
                Err(error) => MiningCycle {
                    state: CycleState::Idle {
                        outcome: Err(MineBlockError::TransactionPoolUpdate(error)),
                    },
                },
            },
            state => MiningCycle { state },
        }
    }

    /// How the cycle has ended, or `None` where it has not ended yet.
    pub fn into_result(self) -> (outcome: Option<
        Result<MineBlockResult<R, C, T>, MineBlockError<BE, SE>>,
    >)
        ensures
            match self@ {
                MiningCycleView::Idle { outcome: ended } => match outcome {
                    Some(Ok(result)) => ended == Ok::<
                        MineBlockResultView<R, C, T>,
                        MineBlockError<BE, SE>,
                    >(result@),
                    Some(Err(error)) => ended == Err::<
                        MineBlockResultView<R, C, T>,
                        MineBlockError<BE, SE>,
                    >(error),
                    None => false,
                },
                _ => outcome is None,
            },
    {
        match self.state {
            CycleState::Idle { outcome } => Some(outcome),
            _ => None,
        }
    }
}

} // verus!
