//! A block carrying a text payload, sealed by a hash over its fields written
//! out as text.

use vstd::prelude::*;
use crate::clock::now_millis;
use crate::domain::block::DIFFICULTY;
use crate::hashing::{decimal_of, has_zero_prefix, meets_target, push_decimal, sha256_hex, sha256_hex_of};
use vstd::utf8::encode_utf8;

verus! {

/// Whole seconds since the Unix epoch.
fn now_secs() -> u64 {
    let secs = now_millis() / 1000;
    if secs > u64::MAX as u128 {
        u64::MAX
    } else {
        secs as u64
    }
}

/// The text a block's hash is taken over: timestamp, previous hash, nonce
/// and data, run together.
pub open spec fn hash_input(timestamp: u64, last_hash: Seq<char>, nonce: u64, data: Seq<char>) -> Seq<char> {
    decimal_of(timestamp as nat) + last_hash + decimal_of(nonce as nat) + data
}

/// Hexadecimal SHA-256 of the UTF-8 text of [`hash_input`].
pub open spec fn text_block_hash(timestamp: u64, last_hash: Seq<char>, nonce: u64, data: Seq<char>) -> Seq<char> {
    sha256_hex_of(encode_utf8(hash_input(timestamp, last_hash, nonce, data)))
}

/// A block whose payload is text.
#[derive(Debug, Clone, PartialEq, Eq)]
pub struct Block {
    pub timestamp: u64,
    pub last_hash: String,
    pub hash: String,
    pub nonce: u64,
    pub data: String,
}

impl Block {
    /// A block with the given fields.
    pub fn new(timestamp: u64, last_hash: String, hash: String, nonce: u64, data: String) -> (r: Block)
        ensures
            r.timestamp == timestamp,
            r.last_hash == last_hash,
            r.hash == hash,
            r.nonce == nonce,
            r.data == data,
    {
        Block { timestamp, last_hash, hash, nonce, data }
    }

    /// The fixed first block.
    pub fn genesis() -> (r: Block)
        ensures
            r.timestamp == 0,
            r.last_hash@ == "genesis_last_hash"@,
            r.hash@ == "genesis_hash"@,
            r.nonce == 0,
            r.data@ == "genesis_data"@,
    {
        Block::new(
            0,
            "genesis_last_hash".to_owned(),
            "genesis_hash".to_owned(),
            0,
            "genesis_data".to_owned(),
        )
    }

    /// Mines a block carrying `data` after `last_block`: tries nonces from 0,
    /// restamping each try, until the hash starts with [`DIFFICULTY`] zeros.
    /// `None` when every nonce has failed.
    pub fn mine_block(last_block: &Block, data: String) -> (r: Option<Block>)
        ensures
            r matches Some(b) ==> {
                &&& b.last_hash == last_block.hash
                &&& b.data == data
                &&& b.hash@ == text_block_hash(b.timestamp, b.last_hash@, b.nonce, b.data@)
                &&& has_zero_prefix(b.hash@, DIFFICULTY as nat)
            },
    {
        let last_hash = last_block.hash.clone();
        let mut nonce: u64 = 0;
        loop
            invariant
                last_hash == last_block.hash,
            decreases u64::MAX - nonce,
        {
            let timestamp = now_secs();
            let hash = Block::hash(timestamp, &last_hash, nonce, &data);
            if meets_target(hash.as_str(), DIFFICULTY) {
                return Some(Block::new(timestamp, last_hash, hash, nonce, data));
            }
            if nonce == u64::MAX {
                return None;
            }
            nonce = nonce + 1;
        }
    }

    /// Hexadecimal SHA-256 of the fields written out as text.
    pub fn hash(timestamp: u64, last_hash: &String, nonce: u64, data: &String) -> (r: String)
        ensures
            r@ == text_block_hash(timestamp, last_hash@, nonce, data@),
            r@.len() == 64,
    {
        let mut input = String::new();
        push_decimal(&mut input, timestamp);
        input.append(last_hash.as_str());
        push_decimal(&mut input, nonce);
        input.append(data.as_str());
        assert(input@ =~= hash_input(timestamp, last_hash@, nonce, data@));
        sha256_hex(input.as_str().as_bytes())
    }

    /// The hash `block`'s fields give.
    pub fn hash_block(block: &Block) -> (r: String)
        ensures
            r@ == text_block_hash(block.timestamp, block.last_hash@, block.nonce, block.data@),
            r@.len() == 64,
    {
        Block::hash(block.timestamp, &block.last_hash, block.nonce, &block.data)
    }

    /// A one-line description of the block.
    pub fn to_string(&self) -> (r: String)
        ensures
            r@ == "Block - Timestamp: "@ + decimal_of(self.timestamp as nat) + ", Last Hash: "@
                + self.last_hash@ + ", Hash: "@ + self.hash@ + ", Data: "@ + self.data@,
    {
        let mut s = String::new();
        s.append("Block - Timestamp: ");
        push_decimal(&mut s, self.timestamp);
        s.append(", Last Hash: ");
        s.append(self.last_hash.as_str());
        s.append(", Hash: ");
        s.append(self.hash.as_str());
        s.append(", Data: ");
        s.append(self.data.as_str());
        s
    }
}

} // verus!
