//! A ledger that keeps all of its blocks in memory.

use vstd::prelude::*;
use vstd::pervasive::unreached;
use crate::block::{Block, BlockView, Header, HeaderView};
use crate::blockchain::{
    chain_linked, lemma_append_keeps_chain, lemma_genesis_is_chain, Blockchain, BlockchainError,
};
use crate::hardfork::SpecId;
use crate::primitives::{Address, B256, B64};
use crate::uint::{checked_add, U256};

verus! {

/// Why the first block of a ledger could not be made.
#[derive(Debug, PartialEq, Eq)]
pub enum BlockchainCreationError<SE> {
    /// The chain starts after the merge, and no base fee was given.
    MissingBaseFee,
    /// The chain starts after the merge, and no randomness was given.
    MissingPrevrandao,
    /// The account state could not tell its root.
    State(SE),
}

/// Why a block was refused as the first block of a ledger.
#[derive(Clone, Copy, Debug, PartialEq, Eq)]
pub enum InsertBlockError {
    /// The block's number is not the number of a first block.
    InvalidBlockNumber {
        /// The number of the block that was offered.
        actual: U256,
        /// The number that a first block must have: zero.
        expected: U256,
    },
}

/// An index from the hashes of blocks to their positions in the ledger, kept
/// in a `hashbrown::HashMap`.
#[verifier::external_body]
#[derive(Debug)]
pub struct HashIndex {
    map: hashbrown::HashMap<[u8; 32], usize>,
}

/// The entries of an index: for each hash that it knows, the position that was
/// last stored under it.
pub uninterp spec fn index_entries(index: HashIndex) -> Map<Seq<u8>, usize>;

/// The entries of an index that knows no hash.
pub open spec fn no_entries() -> Map<Seq<u8>, usize> {
    Map::empty()
}

/// `hashbrown::HashMap::new`: an index without entries.
#[verifier::external_body]
fn index_new() -> (created: HashIndex)
    ensures
        index_entries(created) == no_entries(),
{
    HashIndex { map: hashbrown::HashMap::new() }
}

/// `hashbrown::HashMap::insert`: stores `position` under `hash`, in place of
/// what was stored under it before; all other entries stay.
#[verifier::external_body]
fn index_insert(index: &mut HashIndex, hash: &B256, position: usize)
    ensures
        index_entries(*final(index)) == index_entries(*old(index)).insert(hash@, position),
{
    index.map.insert(hash.0, position);
}

/// `hashbrown::HashMap::get`: the position stored under `hash`, if there is
/// one.
#[verifier::external_body]
fn index_get(index: &HashIndex, hash: &B256) -> (position: Option<usize>)
    ensures
        position == (if index_entries(*index).contains_key(hash@) {
            Some(index_entries(*index)[hash@])
        } else {
            None
        }),
{
    match index.map.get(&hash.0) {
        Some(position) => Some(*position),
        None => None,
    }
}

/// The views of a sequence of blocks.
pub open spec fn block_views(blocks: Seq<Block>) -> Seq<BlockView> {
    blocks.map_values(|block: Block| block@)
}

/// Whether `position` is the place of the last block of `chain` that has the
/// given hash.
pub open spec fn is_last_with_hash(chain: Seq<BlockView>, hash: B256, position: int) -> bool {
    &&& 0 <= position < chain.len()
    &&& chain[position].hash == hash
    &&& forall|i: int| position < i < chain.len() ==> (#[trigger] chain[i]).hash != hash
}

/// Whether an index is the index of a sequence of blocks: it knows the hash
/// of every block, and stores under each hash the position of the last block
/// with that hash.
pub open spec fn index_matches(chain: Seq<BlockView>, entries: Map<Seq<u8>, usize>) -> bool {
    &&& forall|i: int|
        0 <= i < chain.len() ==> entries.contains_key((#[trigger] chain[i]).hash@) && i
            <= entries[chain[i].hash@]
    &&& forall|hash: Seq<u8>| #[trigger]
        entries.contains_key(hash) ==> entries[hash] < chain.len()
            && chain[entries[hash] as int].hash@ == hash
}

/// The receipts root of a block without transactions: the hash of the empty
/// list in its wire form.
pub open spec fn spec_empty_receipts_root() -> B256 {
    B256(
        [
            0x56u8, 0xe8u8, 0x1fu8, 0x17u8, 0x1bu8, 0xccu8, 0x55u8, 0xa6u8,
            0xffu8, 0x83u8, 0x45u8, 0xe6u8, 0x92u8, 0xc0u8, 0xf8u8, 0x6eu8,
            0x5bu8, 0x48u8, 0xe0u8, 0x1bu8, 0x99u8, 0x6cu8, 0xadu8, 0xc0u8,
            0x01u8, 0x62u8, 0x2fu8, 0xb5u8, 0xe3u8, 0x63u8, 0xb4u8, 0x21u8,
        ],
    )
}

/// The receipts root of a block without transactions.
#[verifier::when_used_as_spec(spec_empty_receipts_root)]
pub fn empty_receipts_root() -> (root: B256)
    ensures
        root == spec_empty_receipts_root(),
{
    B256(
        [
            0x56, 0xe8, 0x1f, 0x17, 0x1b, 0xcc, 0x55, 0xa6,
            0xff, 0x83, 0x45, 0xe6, 0x92, 0xc0, 0xf8, 0x6e,
            0x5b, 0x48, 0xe0, 0x1b, 0x99, 0x6c, 0xad, 0xc0,
            0x01, 0x62, 0x2f, 0xb5, 0xe3, 0x63, 0xb4, 0x21,
        ],
    )
}

/// The extra data of a first block: the bytes of the text `124`.
pub open spec fn genesis_extra_data() -> Seq<u8> {
    seq![0x31u8, 0x32u8, 0x34u8]
}

/// Why no first block can be made of the given parts, if there is a reason:
/// a state that could not tell its root, before a chain after the merge that
/// lacks its randomness, before one that lacks its base fee.
pub open spec fn genesis_failure<SE>(
    state_root: Result<B256, SE>,
    spec_id: SpecId,
    prevrandao: Option<B256>,
    base_fee: Option<U256>,
) -> Option<BlockchainCreationError<SE>> {
    match state_root {
        Err(error) => Some(BlockchainCreationError::State(error)),
        Ok(_) => if spec_id.includes(SpecId::MERGE) && prevrandao is None {
            Some(BlockchainCreationError::MissingPrevrandao)
        } else if spec_id.includes(SpecId::MERGE) && base_fee is None {
            Some(BlockchainCreationError::MissingBaseFee)
        } else {
            None
        },
    }
}

/// The header of the first block of a chain, where [`genesis_failure`] gives
/// no reason against it. After the merge the block has no difficulty, the
/// given randomness and base fee, and a zero nonce; before it, difficulty 1,
/// no randomness, no base fee, and the nonce 42.
pub open spec fn genesis_header_view(
    state_root: B256,
    spec_id: SpecId,
    gas_limit: nat,
    timestamp: nat,
    prevrandao: Option<B256>,
    base_fee: Option<U256>,
) -> HeaderView {
    let merged = spec_id.includes(SpecId::MERGE);
    HeaderView {
        parent_hash: B256::zero(),
        beneficiary: Address::zero(),
        state_root,
        receipts_root: empty_receipts_root(),
        difficulty: if merged {
            0
        } else {
            1
        },
        number: 0,
        gas_limit,
        gas_used: 0,
        timestamp,
        extra_data: genesis_extra_data(),
        mix_hash: if merged {
            prevrandao->Some_0
        } else {
            B256::zero()
        },
        nonce: if merged {
            B64::zero()
        } else {
            B64::legacy()
        },
        base_fee_per_gas: if merged {
            Some(base_fee->Some_0@)
        } else {
            None
        },
    }
}

/// The header of the first block of a chain, made of the root of the account
/// state, as far as the state could tell it, and of the chain's settings.
pub fn genesis_header<SE>(
    state_root: Result<B256, SE>,
    spec_id: SpecId,
    gas_limit: U256,
    timestamp: U256,
    prevrandao: Option<B256>,
    base_fee: Option<U256>,
) -> (result: Result<Header, BlockchainCreationError<SE>>)
    ensures
        result is Err <==> genesis_failure(state_root, spec_id, prevrandao, base_fee) is Some,
        result matches Err(error) ==> Some(error) == genesis_failure(
            state_root,
            spec_id,
            prevrandao,
            base_fee,
        ),
        result matches Ok(header) ==> state_root is Ok && header@ == genesis_header_view(
            state_root->Ok_0,
            spec_id,
            gas_limit@,
            timestamp@,
            prevrandao,
            base_fee,
        ),
{
    let state_root = match state_root {
        Ok(root) => root,
        Err(error) => {
            return Err(BlockchainCreationError::State(error));
        },
    };
    let merged = SpecId::enabled(spec_id, SpecId::MERGE);
    let mix_hash = if merged {
        match prevrandao {
            Some(randomness) => randomness,
            None => {
                return Err(BlockchainCreationError::MissingPrevrandao);
            },
        }
    } else {
        B256::zero()
    };
    let base_fee_per_gas = if merged {
        match base_fee {
            Some(fee) => Some(fee),
            None => {
                return Err(BlockchainCreationError::MissingBaseFee);
            },
        }
    } else {
        None
    };
    let mut extra_data: Vec<u8> = Vec::new();
    extra_data.push(0x31);
    extra_data.push(0x32);
    extra_data.push(0x34);
    proof {
        assert(extra_data@ =~= genesis_extra_data());
    }
    Ok(
        Header {
            parent_hash: B256::zero(),
            beneficiary: Address::zero(),
            state_root,
            receipts_root: empty_receipts_root(),
            difficulty: if merged {
                U256::zero()
            } else {
                U256::from_u64(1)
            },
            number: U256::zero(),
            gas_limit,
            gas_used: U256::zero(),
            timestamp,
            extra_data,
            mix_hash,
            nonce: if merged {
                B64::zero()
            } else {
                B64::legacy()
            },
            base_fee_per_gas,
        },
    )
}

/// A ledger that keeps all of its blocks in memory.
#[derive(Debug)]
pub struct InMemoryBlockchain {
    blocks: Vec<Block>,
    hash_to_block: HashIndex,
}

impl View for InMemoryBlockchain {
    type V = Seq<BlockView>;

    /// The blocks of the ledger, from the first to the last.
    closed spec fn view(&self) -> Seq<BlockView> {
        block_views(self.blocks@)
    }
}

impl InMemoryBlockchain {
    /// Whether the ledger is in a state that its own operations can reach: it
    /// holds a block, its blocks are a chain, and its index is the index of
    /// its blocks.
    pub closed spec fn is_well_formed(&self) -> bool {
        &&& self.blocks@.len() > 0
        &&& chain_linked(self@)
        &&& index_matches(self@, index_entries(self.hash_to_block))
    }

    /// A well-formed ledger holds a block, and its blocks are a chain.
    pub proof fn lemma_well_formed(&self)
        requires
            self.is_well_formed(),
        ensures
            self@.len() > 0,
            chain_linked(self@),
    {
    }

    /// A ledger whose first block is made of the root of the account state, as
    /// far as the state could tell it, and of the chain's settings. The block
    /// carries nothing, and `seal` gives it its hash.
    pub fn new<SE, F: FnOnce(&Header) -> B256>(
        state_root: Result<B256, SE>,
        spec_id: SpecId,
        gas_limit: U256,
        timestamp: U256,
        prevrandao: Option<B256>,
        base_fee: Option<U256>,
        seal: F,
    ) -> (result: Result<InMemoryBlockchain, BlockchainCreationError<SE>>)
        requires
            forall|header: Header| call_requires(seal, (&header,)),
        ensures
            result is Err <==> genesis_failure(state_root, spec_id, prevrandao, base_fee) is Some,
            result matches Err(error) ==> Some(error) == genesis_failure(
                state_root,
                spec_id,
                prevrandao,
                base_fee,
            ),
            result matches Ok(ledger) ==> {
                &&& ledger.is_well_formed()
                &&& ledger@.len() == 1
                &&& ledger@[0].header == genesis_header_view(
                    state_root->Ok_0,
                    spec_id,
                    gas_limit@,
                    timestamp@,
                    prevrandao,
                    base_fee,
                )
                &&& ledger@[0].transactions.len() == 0
                &&& ledger@[0].ommers.len() == 0
                &&& exists|header: Header|
                    header@ == ledger@[0].header && #[trigger] call_ensures(
                        seal,
                        (&header,),
                        ledger@[0].hash,
                    )
            },
    {
        let header = match genesis_header(
            state_root,
            spec_id,
            gas_limit,
            timestamp,
            prevrandao,
            base_fee,
        ) {
            Ok(header) => header,
            Err(error) => {
                return Err(error);
            },
        };
        let hash = seal(&header);
        let ghost sealed = header;
        let genesis_block = Block::new(header, Vec::new(), Vec::new(), hash);
        let ledger = InMemoryBlockchain::with_genesis_block_unchecked(genesis_block);
        proof {
            assert(ledger@[0] == genesis_block@);
            assert(call_ensures(seal, (&sealed,), ledger@[0].hash));
        }
        Ok(ledger)
    }

    /// A ledger whose only block is `genesis_block`, which must have number 0.
    pub fn with_genesis_block(genesis_block: Block) -> (result: Result<
        InMemoryBlockchain,
        InsertBlockError,
    >)
        ensures
            result is Ok <==> genesis_block.header.number@ == 0,
            result matches Ok(ledger) ==> ledger.is_well_formed() && ledger@ == seq![
                genesis_block@,
            ],
            result matches Err(error) ==> (error matches InsertBlockError::InvalidBlockNumber {
                actual,
                expected,
            } && actual == genesis_block.header.number && expected@ == 0),
    {
        let zero = U256::zero();
        if genesis_block.header.number != zero {
            proof {
                U256::lemma_view_injective(genesis_block.header.number, zero);
            }
            return Err(
                InsertBlockError::InvalidBlockNumber {
                    actual: genesis_block.header.number,
                    expected: zero,
                },
            );
        }
        proof {
            U256::lemma_view_injective(genesis_block.header.number, zero);
        }
        Ok(InMemoryBlockchain::with_genesis_block_unchecked(genesis_block))
    }

    /// A ledger whose only block is `genesis_block`, of which the caller knows
    /// that its number is 0.
    fn with_genesis_block_unchecked(genesis_block: Block) -> (ledger: InMemoryBlockchain)
        requires
            genesis_block.header.number@ == 0,
        ensures
            ledger.is_well_formed(),
            ledger@ == seq![genesis_block@],
    {
        let mut hash_to_block = index_new();
        index_insert(&mut hash_to_block, &genesis_block.hash, 0);
        let mut blocks: Vec<Block> = Vec::new();
        blocks.push(genesis_block);
        let ledger = InMemoryBlockchain { blocks, hash_to_block };
        proof {
            assert(ledger@ =~= seq![genesis_block@]);
            lemma_genesis_is_chain(genesis_block@);
            assert(index_matches(ledger@, index_entries(ledger.hash_to_block)));
        }
        ledger
    }

    /// Appends `block` without looking at it. The caller answers for the
    /// block: it must extend the last block of the ledger.
    pub fn insert_block_unchecked(&mut self, block: Block)
        requires
            old(self).is_well_formed(),
            block@.extends(old(self)@.last()),
        ensures
            final(self).is_well_formed(),
            final(self)@ == old(self)@.push(block@),
    {
        let position = self.blocks.len();
        let hash = block.hash;
        let ghost appended = block@;
        self.blocks.push(block);
        index_insert(&mut self.hash_to_block, &hash, position);
        proof {
            assert(self@ =~= old(self)@.push(appended));
            lemma_append_keeps_chain(old(self)@, appended);
            let chain = self@;
            let entries = index_entries(self.hash_to_block);
            assert forall|i: int| 0 <= i < chain.len() implies entries.contains_key(
                (#[trigger] chain[i]).hash@,
            ) && i <= entries[chain[i].hash@] by {
                if i < position {
                    assert(old(self)@[i] == chain[i]);
                }
            }
            assert forall|known: Seq<u8>| #[trigger] entries.contains_key(known) implies entries[known]
                < chain.len() && chain[entries[known] as int].hash@ == known by {
                if known != hash@ {
                    assert(index_entries(old(self).hash_to_block).contains_key(known));
                    assert(old(self)@[entries[known] as int] == chain[entries[known] as int]);
                }
            }
        }
    }

    /// The block that is known by `hash`, if the ledger holds one: the last
    /// one, should several blocks have that hash.
    pub fn block_by_hash(&self, hash: &B256) -> (found: Option<&Block>)
        requires
            self.is_well_formed(),
        ensures
            found is Some <==> exists|i: int|
                0 <= i < self@.len() && (#[trigger] self@[i]).hash == *hash,
            found matches Some(block) ==> exists|i: int| #[trigger]
                is_last_with_hash(self@, *hash, i) && block@ == self@[i],
    {
        match index_get(&self.hash_to_block, hash) {
            Some(position) => {
                let block = &self.blocks[position];
                proof {
                    assert(self@[position as int] == block@);
                    B256::lemma_view_injective(block.hash, *hash);
                    assert forall|i: int| position < i < self@.len() implies (
                    #[trigger] self@[i]).hash != *hash by {
                        if self@[i].hash == *hash {
                            assert(i <= index_entries(self.hash_to_block)[self@[i].hash@]);
                        }
                    }
                    assert(is_last_with_hash(self@, *hash, position as int));
                }
                Some(block)
            },
            None => {
                proof {
                    assert forall|i: int| 0 <= i < self@.len() implies (#[trigger] self@[i]).hash
                        != *hash by {
                        assert(index_entries(self.hash_to_block).contains_key(self@[i].hash@));
                    }
                }
                None
            },
        }
    }
}

impl Blockchain for InMemoryBlockchain {
    type Error = BlockchainError;

    open spec fn well_formed(&self) -> bool {
        self.is_well_formed()
    }

    open spec fn chain(&self) -> Seq<BlockView> {
        self@
    }

    /// A block with a number other than the one that follows is refused for
    /// its number; a block with that number, for its parent hash.
    open spec fn refusal(&self, block: BlockView) -> BlockchainError {
        if block.header.number != self@.last().header.number + 1 {
            BlockchainError::InvalidBlockNumber {
                actual: U256::from_nat(block.header.number),
                expected: U256::from_nat(self@.last().header.number + 1),
            }
        } else {
            BlockchainError::InvalidParentHash
        }
    }

    proof fn lemma_chain_linked(&self) {
        self.lemma_well_formed();
    }

    fn last_block(&self) -> (block: &Block) {
        let block = &self.blocks[self.blocks.len() - 1];
        proof {
            assert(self@.last() == block@);
        }
        block
    }

    /// Appends `block`, if its number is the one that follows and its parent
    /// hash is the hash of the last block. The number is looked at first.
    fn insert_block(&mut self, block: Block) -> (result: Result<(), BlockchainError>)
        ensures
            result is Err ==> *final(self) == *old(self),
    {
        let one = U256::from_u64(1);
        let length = self.blocks.len();
        let last = self.last_block();
        proof {
            assert(self@.len() == length);
            assert(last@.header.number == self@.len() - 1);
        }
        let next_block_number = match checked_add(&last.header.number, &one) {
            Some(number) => number,
            None => unreached(),
        };
        proof {
            U256::lemma_view_injective(block.header.number, next_block_number);
            U256::lemma_from_view(block.header.number);
            U256::lemma_from_view(next_block_number);
            self.lemma_well_formed();
        }
        if block.header.number != next_block_number {
            return Err(
                BlockchainError::InvalidBlockNumber {
                    actual: block.header.number,
                    expected: next_block_number,
                },
            );
        }
        if block.header.parent_hash != last.hash {
            return Err(BlockchainError::InvalidParentHash);
        }
        self.insert_block_unchecked(block);
        Ok(())
    }

    /// The hash of the block with the given number: an error for a number
    /// that is no position a ledger in memory could have, and for a number
    /// beyond the last block.
    fn block_hash(&self, number: U256) -> (result: Result<B256, BlockchainError>)
        ensures
            number@ < self@.len() ==> result == Ok::<B256, BlockchainError>(
                self@[number@ as int].hash,
            ),
            self@.len() <= number@ <= usize::MAX ==> result == Err::<B256, BlockchainError>(
                BlockchainError::UnknownBlockNumber,
            ),
            number@ > usize::MAX ==> result == Err::<B256, BlockchainError>(
                BlockchainError::BlockNumberTooLarge,
            ),
    {
        let length = self.blocks.len();
        proof {
            assert(self@.len() == length);
        }
        let small = match number.to_u64() {
            Some(small) => small,
            None => {
                return Err(BlockchainError::BlockNumberTooLarge);
            },
        };
        if small > usize::MAX as u64 {
            return Err(BlockchainError::BlockNumberTooLarge);
        }
        let position = small as usize;
        if position < self.blocks.len() {
            let block = &self.blocks[position];
            proof {
                assert(self@[position as int] == block@);
            }
            Ok(block.hash)
        } else {
            Err(BlockchainError::UnknownBlockNumber)
        }
    }
}

} // verus!
