//! The Merkle-root engine: a pairwise hash reduction over an ordered,
//! non-empty sequence of leaves, each leaf given by its bytes.

use vstd::prelude::*;
use vstd::slice::slice_subrange;
use crate::BlockHash;
use crate::byteable::join_bytes;
use crate::digest::{hash_bytes, sha256_digest};

verus! {

/// The bytes that are hashed at the top of the tree over `leaves`.
///
/// A single leaf is paired with itself; two leaves are joined as they are;
/// a longer sequence is split at the midpoint, the left part taking the
/// smaller half, and the roots of the two parts are joined.
pub open spec fn merkle_preimage(leaves: Seq<Seq<u8>>) -> Seq<u8>
    recommends
        leaves.len() >= 1,
    decreases leaves.len(),
{
    if leaves.len() == 0 {
        Seq::empty()
    } else if leaves.len() == 1 {
        leaves[0] + leaves[0]
    } else if leaves.len() == 2 {
        leaves[0] + leaves[1]
    } else {
        let mid = leaves.len() / 2;
        sha256_digest(merkle_preimage(leaves.take(mid as int)))@ + sha256_digest(
            merkle_preimage(leaves.skip(mid as int)),
        )@
    }
}

/// The Merkle root of a non-empty sequence of leaves.
pub open spec fn merkle_root(leaves: Seq<Seq<u8>>) -> BlockHash
    recommends
        leaves.len() >= 1,
{
    sha256_digest(merkle_preimage(leaves))
}

/// The byte sequences that a sequence of buffers holds.
pub open spec fn leaf_views(leaves: Seq<Vec<u8>>) -> Seq<Seq<u8>> {
    leaves.map_values(|leaf: Vec<u8>| leaf@)
}

/// Hashes two hashes into the hash of their parent node.
pub fn merkle_hash(block_left: &BlockHash, block_right: &BlockHash) -> (out: BlockHash)
    ensures
        out == sha256_digest(block_left@ + block_right@),
{
    let bytes = join_bytes(block_left.as_slice(), block_right.as_slice());
    hash_bytes(&bytes)
}

/// The root over a non-empty chain of block hashes. A single hash is its
/// own root; two hashes are joined and hashed; a longer chain is split at
/// the midpoint, the left part taking the smaller half, and the roots of
/// the two parts are joined and hashed.
pub open spec fn chain_root(hashes: Seq<BlockHash>) -> BlockHash
    recommends
        hashes.len() >= 1,
    decreases hashes.len(),
{
    if hashes.len() <= 1 {
        hashes[0]
    } else if hashes.len() == 2 {
        sha256_digest(hashes[0]@ + hashes[1]@)
    } else {
        let mid = hashes.len() / 2;
        sha256_digest(
            chain_root(hashes.take(mid as int))@ + chain_root(hashes.skip(mid as int))@,
        )
    }
}

/// The bytes that are hashed at the top of the tree over a chain of two or
/// more hashes: the roots of its two parts, joined.
pub open spec fn chain_preimage(hashes: Seq<BlockHash>) -> Seq<u8>
    recommends
        hashes.len() >= 2,
{
    let mid = hashes.len() / 2;
    chain_root(hashes.take(mid as int))@ + chain_root(hashes.skip(mid as int))@
}

/// Computes the root over a non-empty chain of block hashes.
pub fn chain_root_of_hashes(hashes: &[BlockHash]) -> (root: BlockHash)
    requires
        hashes@.len() >= 1,
    ensures
        root == chain_root(hashes@),
    decreases hashes@.len(),
{
    let size = hashes.len();
    if size == 1 {
        hashes[0]
    } else if size == 2 {
        merkle_hash(&hashes[0], &hashes[1])
    } else {
        let mid = size / 2;
        let left = slice_subrange(hashes, 0, mid);
        let right = slice_subrange(hashes, mid, size);
        proof {
            assert(left@ =~= hashes@.take(mid as int));
            assert(right@ =~= hashes@.skip(mid as int));
        }
        let left_root = chain_root_of_hashes(left);
        let right_root = chain_root_of_hashes(right);
        merkle_hash(&left_root, &right_root)
    }
}

/// Computes the Merkle root of a non-empty sequence of leaves.
pub fn merkle_root_of_leaves(leaves: &[Vec<u8>]) -> (root: BlockHash)
    requires
        leaves@.len() >= 1,
    ensures
        root == merkle_root(leaf_views(leaves@)),
    decreases leaves@.len(),
{
    let size = leaves.len();
    if size == 1 {
        let bytes = join_bytes(leaves[0].as_slice(), leaves[0].as_slice());
        hash_bytes(&bytes)
    } else if size == 2 {
        let bytes = join_bytes(leaves[0].as_slice(), leaves[1].as_slice());
        hash_bytes(&bytes)
    } else {
        let mid = size / 2;
        let left = slice_subrange(leaves, 0, mid);
        let right = slice_subrange(leaves, mid, size);
        proof {
            assert(leaf_views(left@) =~= leaf_views(leaves@).take(mid as int));
            assert(leaf_views(right@) =~= leaf_views(leaves@).skip(mid as int));
        }
        let left_root = merkle_root_of_leaves(left);
        let right_root = merkle_root_of_leaves(right);
        merkle_hash(&left_root, &right_root)
    }
}

} // verus!
