//! Chain ledger, transaction pool and block miner of a single-node
//! Ethereum-compatible execution client.

pub mod base_fee;
pub mod block;
pub mod blockchain;
pub mod db;
pub mod hardfork;
pub mod mempool;
pub mod miner;
pub mod primitives;
pub mod transaction;
pub mod uint;

pub use crate::blockchain::{Blockchain, BlockchainError, InMemoryBlockchain, SyncBlockchain};
pub use crate::mempool::MemPool;
pub use crate::miner::{BlockMiner, MineBlockError, MineBlockResult, MiningCycle};
pub use crate::transaction::PendingTransaction;
