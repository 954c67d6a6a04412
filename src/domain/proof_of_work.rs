//! Sealing a header: searching for a nonce whose header hash meets the
//! target, and checking that it does.

use vstd::prelude::*;
use crate::domain::block_header::{header_hash, BlockHeader, HeaderModel};
use crate::clock::now_millis;
use crate::error::LedgerError;
use crate::hashing::{has_zero_prefix, meets_target};

verus! {

/// A header meets a target of `d` when its hash starts with `d` zero digits.
pub open spec fn header_meets(h: HeaderModel, d: nat) -> bool {
    has_zero_prefix(header_hash(h), d)
}

/// The same header but for its timestamp and nonce.
pub open spec fn same_content(a: HeaderModel, b: HeaderModel) -> bool {
    &&& a.prev_block_hash == b.prev_block_hash
    &&& a.merkle_root == b.merkle_root
    &&& a.height == b.height
}

/// A search for a nonce that makes `header` meet `target_prefix`.
pub struct ProofOfWork {
    pub header: BlockHeader,
    pub target_prefix: usize,
}

impl ProofOfWork {
    /// Tries nonces upward from the current one, restamping the header before
    /// each try, until the header meets the target. Running out of nonces
    /// gives `Validation`.
    pub fn run(&mut self) -> (r: Result<(), LedgerError>)
        ensures
            final(self).target_prefix == old(self).target_prefix,
            same_content(final(self).header@, old(self).header@),
            r is Ok ==> header_meets(final(self).header@, final(self).target_prefix as nat),
            r is Err ==> r == Err::<(), LedgerError>(LedgerError::Validation),
            old(self).target_prefix == 0 ==> r is Ok,
    {
        let ghost start = self.header@;
        loop
            invariant
                self.target_prefix == old(self).target_prefix,
                same_content(self.header@, start),
                start == old(self).header@,
            decreases i32::MAX - self.header.nonce,
        {
            self.header.timestamp = now_millis();
            if self.validate() {
                return Ok(());
            }
            if self.header.nonce == i32::MAX {
                return Err(LedgerError::Validation);
            }
            self.header.nonce = self.header.nonce + 1;
        }
    }

    /// Whether the header's hash starts with `target_prefix` zero digits.
    pub fn validate(&self) -> (r: bool)
        ensures
            r == header_meets(self.header@, self.target_prefix as nat),
    {
        let h = self.header.hash();
        meets_target(h.as_str(), self.target_prefix)
    }
}

} // verus!
