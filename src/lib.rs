//! A peer-replicated ledger: hash-linked blocks sealed by proof of work,
//! signed value transfers over unspent outputs, a replicated pool of pending
//! transactions and the message handling that keeps peers converged.

pub mod blockchain;
mod clock;
pub mod codec;
pub mod connection;
pub mod cryptography;
pub mod domain;
pub mod error;
pub mod hashing;
pub mod protocol;
pub mod scheme;
pub mod server;
pub mod wallet;
