//! Blocks, their headers, and the options from which a new block is built.

use vstd::prelude::*;
use crate::primitives::{Address, B256, B64};
use crate::uint::U256;

verus! {

/// The header of a block.
#[derive(Debug, PartialEq, Eq)]
pub struct Header {
    /// The hash of the block that this one extends.
    pub parent_hash: B256,
    /// The account that is credited with the block's reward.
    pub beneficiary: Address,
    /// The root of the account state after the block.
    pub state_root: B256,
    /// The root of the receipts of the block's transactions.
    pub receipts_root: B256,
    /// The difficulty of the block; zero once proof of work has ended.
    pub difficulty: U256,
    /// The position of the block in its chain; the first block has number 0.
    pub number: U256,
    /// The most gas that the block's transactions may use together.
    pub gas_limit: U256,
    /// The gas that the block's transactions did use.
    pub gas_used: U256,
    /// The time at which the block was built, in seconds.
    pub timestamp: U256,
    /// Bytes that the builder of the block is free to choose.
    pub extra_data: Vec<u8>,
    /// The mix hash under proof of work, the block's randomness after it.
    pub mix_hash: B256,
    /// The nonce of the block's seal.
    pub nonce: B64,
    /// The fee burned for each unit of gas, where the rules know one.
    pub base_fee_per_gas: Option<U256>,
}

/// What a [`Header`] holds.
pub ghost struct HeaderView {
    pub parent_hash: B256,
    pub beneficiary: Address,
    pub state_root: B256,
    pub receipts_root: B256,
    pub difficulty: nat,
    pub number: nat,
    pub gas_limit: nat,
    pub gas_used: nat,
    pub timestamp: nat,
    pub extra_data: Seq<u8>,
    pub mix_hash: B256,
    pub nonce: B64,
    pub base_fee_per_gas: Option<nat>,
}

impl View for Header {
    type V = HeaderView;

    open spec fn view(&self) -> HeaderView {
        HeaderView {
            parent_hash: self.parent_hash,
            beneficiary: self.beneficiary,
            state_root: self.state_root,
            receipts_root: self.receipts_root,
            difficulty: self.difficulty@,
            number: self.number@,
            gas_limit: self.gas_limit@,
            gas_used: self.gas_used@,
            timestamp: self.timestamp@,
            extra_data: self.extra_data@,
            mix_hash: self.mix_hash,
            nonce: self.nonce,
            base_fee_per_gas: match self.base_fee_per_gas {
                Some(fee) => Some(fee@),
                None => None,
            },
        }
    }
}

impl Clone for Header {
    fn clone(&self) -> (copy: Header)
        ensures
            copy@ == self@,
    {
        Header {
            parent_hash: self.parent_hash,
            beneficiary: self.beneficiary,
            state_root: self.state_root,
            receipts_root: self.receipts_root,
            difficulty: self.difficulty,
            number: self.number,
            gas_limit: self.gas_limit,
            gas_used: self.gas_used,
            timestamp: self.timestamp,
            extra_data: self.extra_data.clone(),
            mix_hash: self.mix_hash,
            nonce: self.nonce,
            base_fee_per_gas: self.base_fee_per_gas,
        }
    }
}

/// A sealed block: a header, what it carries, and the hash by which the block
/// is known.
#[derive(Debug, PartialEq, Eq)]
pub struct Block {
    /// The block's header.
    pub header: Header,
    /// The hashes of the block's transactions, in the order of their execution.
    pub transactions: Vec<B256>,
    /// The hashes of the block's ommers.
    pub ommers: Vec<B256>,
    /// The hash of the block.
    pub hash: B256,
}

/// What a [`Block`] holds.
pub ghost struct BlockView {
    pub header: HeaderView,
    pub transactions: Seq<B256>,
    pub ommers: Seq<B256>,
    pub hash: B256,
}

impl BlockView {
    /// Whether `self` may follow `parent` in a chain: its number is one more
    /// than the parent's, and its parent hash is the parent's hash.
    pub open spec fn extends(self, parent: BlockView) -> bool {
        &&& self.header.number == parent.header.number + 1
        &&& self.header.parent_hash == parent.hash
    }
}

impl View for Block {
    type V = BlockView;

    open spec fn view(&self) -> BlockView {
        BlockView {
            header: self.header@,
            transactions: self.transactions@,
            ommers: self.ommers@,
            hash: self.hash,
        }
    }
}

impl Clone for Block {
    fn clone(&self) -> (copy: Block)
        ensures
            copy@ == self@,
    {
        Block {
            header: self.header.clone(),
            transactions: self.transactions.clone(),
            ommers: self.ommers.clone(),
            hash: self.hash,
        }
    }
}

impl Block {
    /// A block of the given parts.
    pub fn new(header: Header, transactions: Vec<B256>, ommers: Vec<B256>, hash: B256) -> (block:
        Block)
        ensures
            block == (Block { header, transactions, ommers, hash }),
    {
        Block { header, transactions, ommers, hash }
    }

    /// The hash of the block.
    pub fn hash(&self) -> (hash: &B256)
        ensures
            *hash == self.hash,
    {
        &self.hash
    }
}

/// What the builder of a new block is told about the block; a field that is
/// `None` is left to the builder.
#[derive(Clone, Copy, Debug, PartialEq, Eq)]
pub struct BlockOptions {
    /// The account that is credited with the block's reward.
    pub beneficiary: Option<Address>,
    /// The block's number.
    pub number: Option<U256>,
    /// The block's gas limit.
    pub gas_limit: Option<U256>,
    /// The block's timestamp.
    pub timestamp: Option<U256>,
    /// The block's randomness.
    pub mix_hash: Option<B256>,
    /// The nonce of the block's seal.
    pub nonce: Option<B64>,
    /// The block's base fee.
    pub base_fee: Option<U256>,
}

} // verus!
