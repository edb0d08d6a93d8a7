//! A small proof-of-work ledger: transactions are committed to blocks through
//! a Merkle root, blocks are linked by the double SHA-256 digest of their
//! headers, and a miner searches nonces until a header digest has enough
//! leading zero bits.
pub mod block;
pub mod chain;
pub mod encoding;
pub mod hashing;
pub mod laws;
pub mod miner;
pub mod transaction;

pub use block::{Block, BlockHeader};
pub use chain::{create_sample_transactions, genesis_block, Blockchain, ChainFault};
pub use miner::{Miner, MiningError};
pub use transaction::Transaction;
