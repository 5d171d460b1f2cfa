//! The chain ledger: an append-only, strictly linear sequence of blocks.

use vstd::prelude::*;
use crate::block::{Block, BlockView};
use crate::primitives::B256;
use crate::uint::U256;

pub mod in_memory;

pub use self::in_memory::InMemoryBlockchain;

verus! {

/// Why a ledger refused a block or a query.
#[derive(Clone, Copy, Debug, PartialEq, Eq)]
pub enum BlockchainError {
    /// The block number is larger than any position that the ledger can
    /// address.
    BlockNumberTooLarge,
    /// The block's number is not the one that follows the last block.
    InvalidBlockNumber {
        /// The number of the block that was offered.
        actual: U256,
        /// The number that the next block must have.
        expected: U256,
    },
    /// The block's parent hash is not the hash of the last block.
    InvalidParentHash,
    /// The ledger holds no block of that number.
    UnknownBlockNumber,
}

/// Whether a sequence of blocks is a chain: each block's number is its
/// position, and each block but the first names the hash of the block before
/// it as its parent.
pub open spec fn chain_linked(chain: Seq<BlockView>) -> bool {
    &&& forall|i: int| 0 <= i < chain.len() ==> (#[trigger] chain[i]).header.number == i
    &&& forall|i: int, j: int|
        0 <= i && j == i + 1 && j < chain.len() ==> (#[trigger] chain[j]).header.parent_hash == (
        #[trigger] chain[i]).hash
}

/// A single block with number 0 is a chain.
pub proof fn lemma_genesis_is_chain(genesis: BlockView)
    requires
        genesis.header.number == 0,
    ensures
        chain_linked(seq![genesis]),
{
}

/// A chain stays a chain when a block is appended that extends its last
/// block. So whatever is built from a first block by such appends alone is a
/// chain.
pub proof fn lemma_append_keeps_chain(chain: Seq<BlockView>, block: BlockView)
    requires
        chain.len() > 0,
        chain_linked(chain),
        block.extends(chain.last()),
    ensures
        chain_linked(chain.push(block)),
{
    let longer = chain.push(block);
    assert forall|i: int| 0 <= i < longer.len() implies (#[trigger] longer[i]).header.number
        == i by {
        if i < chain.len() {
            assert(longer[i] == chain[i]);
        }
    }
    assert forall|i: int, j: int| 0 <= i && j == i + 1 && j < longer.len() implies (
    #[trigger] longer[j]).header.parent_hash == (#[trigger] longer[i]).hash by {
        assert(longer[i] == chain[i]);
        if j < chain.len() {
            assert(longer[j] == chain[j]);
        }
    }
}

/// In a chain, the number of the last block tells the length, and a block
/// extends the chain if and only if its number is the length and its parent
/// hash is the hash of the last block: a block with any other number, or with
/// any other parent, does not.
pub proof fn lemma_what_extends_a_chain(chain: Seq<BlockView>, block: BlockView)
    requires
        chain.len() > 0,
        chain_linked(chain),
    ensures
        chain.last().header.number == chain.len() - 1,
        block.extends(chain.last()) <==> block.header.number == chain.len()
            && block.header.parent_hash == chain.last().hash,
{
}

/// A ledger of blocks: one linear history that only grows at its end.
pub trait Blockchain {
    /// Why the ledger refuses a block or a query.
    type Error;

    /// Whether the ledger is in a state that its own operations can reach.
    spec fn well_formed(&self) -> bool;

    /// The blocks of the ledger, from the first to the last.
    spec fn chain(&self) -> Seq<BlockView>;

    /// Why the ledger refuses `block`, where `block` does not extend its last
    /// block.
    spec fn refusal(&self, block: BlockView) -> Self::Error;

    /// A ledger holds at least its first block, and its blocks are a chain.
    proof fn lemma_chain_linked(&self)
        requires
            self.well_formed(),
        ensures
            self.chain().len() > 0,
            chain_linked(self.chain()),
    ;

    /// The last block of the ledger.
    fn last_block(&self) -> (block: &Block)
        requires
            self.well_formed(),
        ensures
            self.chain().len() > 0,
            block@ == self.chain().last(),
    ;

    /// Appends `block`, if it extends the last block; otherwise the ledger
    /// stays as it is.
    fn insert_block(&mut self, block: Block) -> (result: Result<(), Self::Error>)
        requires
            old(self).well_formed(),
        ensures
            final(self).well_formed(),
            chain_linked(final(self).chain()),
            result is Ok <==> block@.extends(old(self).chain().last()),
            result is Ok ==> final(self).chain() == old(self).chain().push(block@),
            result is Err ==> final(self).chain() == old(self).chain(),
            result matches Err(error) ==> error == old(self).refusal(block@),
    ;

    /// The hash of the block with the given number. A ledger never answers
    /// with a hash for a number beyond its last block.
    fn block_hash(&self, number: U256) -> (result: Result<B256, Self::Error>)
        requires
            self.well_formed(),
        ensures
            result matches Ok(hash) ==> number@ < self.chain().len() && hash
                == self.chain()[number@ as int].hash,
    ;
}

/// A ledger that can be shared between threads, with errors of type `E`.
pub trait SyncBlockchain<E>: Blockchain<Error = E> + Send + Sync {

}

impl<B, E> SyncBlockchain<E> for B where B: Blockchain<Error = E> + Send + Sync {

}

} // verus!
