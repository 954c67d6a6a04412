//! Block headers and the hash that seals them.

use vstd::prelude::*;
use crate::codec::{enc_bytes, enc_i32, enc_str, le_bytes, push_bytes, push_i32, push_le, push_str};
use crate::hashing::{sha256_hex, sha256_hex_of};

verus! {

/// The fields of a block that its hash covers.
#[derive(Debug, Clone)]
pub struct BlockHeader {
    pub timestamp: u128,
    pub prev_block_hash: String,
    pub merkle_root: Vec<u8>,
    pub nonce: i32,
    pub height: i32,
}

/// What a header holds, as sequences.
pub ghost struct HeaderModel {
    pub timestamp: u128,
    pub prev_block_hash: Seq<char>,
    pub merkle_root: Seq<u8>,
    pub nonce: i32,
    pub height: i32,
}

impl View for BlockHeader {
    type V = HeaderModel;

    open spec fn view(&self) -> HeaderModel {
        HeaderModel {
            timestamp: self.timestamp,
            prev_block_hash: self.prev_block_hash@,
            merkle_root: self.merkle_root@,
            nonce: self.nonce,
            height: self.height,
        }
    }
}

/// The bytes a header is hashed over, field by field.
pub open spec fn enc_header(h: HeaderModel) -> Seq<u8> {
    le_bytes(h.timestamp as nat, 16) + enc_str(h.prev_block_hash) + enc_bytes(h.merkle_root)
        + enc_i32(h.nonce) + enc_i32(h.height)
}

/// The hash of a header: hexadecimal SHA-256 of its encoding.
pub open spec fn header_hash(h: HeaderModel) -> Seq<char> {
    sha256_hex_of(enc_header(h))
}

impl BlockHeader {
    /// The bytes this header is hashed over.
    pub fn encode(&self) -> (r: Vec<u8>)
        ensures
            r@ == enc_header(self@),
    {
        let mut out: Vec<u8> = Vec::new();
        push_le(&mut out, self.timestamp, 16);
        push_str(&mut out, self.prev_block_hash.as_str());
        push_bytes(&mut out, self.merkle_root.as_slice());
        push_i32(&mut out, self.nonce);
        push_i32(&mut out, self.height);
        assert(out@ =~= enc_header(self@));
        out
    }

    /// Hexadecimal SHA-256 of this header's encoding.
    pub fn hash(&self) -> (r: String)
        ensures
            r@ == header_hash(self@),
            r@.len() == 64,
    {
        let data = self.encode();
        sha256_hex(data.as_slice())
    }
}

} // verus!
