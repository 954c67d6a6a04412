//! The kinds of failure that ledger operations report.

use vstd::prelude::*;

verus! {

/// Why an operation was refused. Refusals leave shared state unchanged.
#[derive(Debug, Clone, Copy, PartialEq, Eq, Structural)]
pub enum LedgerError {
    /// A malformed block, broken linkage, a missed target or a bad signature.
    Validation,
    /// The amount asked for exceeds what the sender can spend.
    InsufficientFunds,
    /// A referenced transaction, output, block or tip is missing.
    NotFound,
    /// A frame or value could not be decoded.
    Serialization,
    /// A peer could not be reached.
    Network,
}

} // verus!
