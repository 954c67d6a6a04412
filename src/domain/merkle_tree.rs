//! The Merkle root over a block's transaction hashes.

use vstd::prelude::*;
use crate::codec::push_raw;
use crate::hashing::{sha256, sha256_of};

verus! {

/// Node `i` of the complete binary Merkle tree over `leaves`, stored as an
/// array: the leaves fill the last `leaves.len()` places, and every other
/// node joins its children `2i + 1` and `2i + 2` with SHA-256.
pub open spec fn cbmt_node(leaves: Seq<Seq<u8>>, i: nat) -> Seq<u8>
    decreases 2 * leaves.len() - i,
{
    if i + 1 >= leaves.len() {
        leaves[i - (leaves.len() - 1)]
    } else {
        sha256_of(cbmt_node(leaves, 2 * i + 1) + cbmt_node(leaves, 2 * i + 2))
    }
}

/// The root of the complete binary Merkle tree over `leaves`; empty when
/// there are none.
pub open spec fn merkle_root_of(leaves: Seq<Seq<u8>>) -> Seq<u8> {
    if leaves.len() == 0 {
        Seq::empty()
    } else {
        cbmt_node(leaves, 0)
    }
}

/// Joins two tree nodes: SHA-256 of the left node followed by the right one.
pub struct MergeU8;

impl merkle_cbt::merkle_tree::Merge for MergeU8 {
    type Item = Vec<u8>;

    fn merge(left: &Vec<u8>, right: &Vec<u8>) -> (r: Vec<u8>)
        ensures
            r@ == sha256_of(left@ + right@),
    {
        let mut data: Vec<u8> = Vec::new();
        push_raw(&mut data, left.as_slice());
        push_raw(&mut data, right.as_slice());
        assert(data@ =~= left@ + right@);
        sha256(data.as_slice())
    }
}

/// Relies on merkle_cbt's `CBMT::build_merkle_tree` and `MerkleTree::root`,
/// joining nodes with [`MergeU8`]: the tree is an array with the leaves at
/// the end, each inner node `i` set from nodes `2i + 1` and `2i + 2`, last
/// index first; the root is node 0, or empty with no leaves.
#[verifier::external_body]
pub(crate) fn merkle_root(leaves: Vec<Vec<u8>>) -> (r: Vec<u8>)
    ensures
        r@ == merkle_root_of(leaves@.map_values(|l: Vec<u8>| l@)),
{
    merkle_cbt::merkle_tree::CBMT::<Vec<u8>, MergeU8>::build_merkle_tree(&leaves).root()
}

} // verus!
