//! Pending transactions and the wallet that creates them.

pub mod transaction_pool;
