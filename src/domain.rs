//! The ledger's data model: transactions, blocks, proof of work and chains.

pub mod block;
pub mod block_header;
pub mod chain;
pub mod merkle_tree;
pub mod proof_of_work;
pub mod transaction;
pub mod utxo;
pub mod wallet;
