//! What holds of blocks and Merkle roots in general.
//!
//! SHA-256 maps unboundedly many messages to 32 bytes, so two different
//! messages can have the same digest. The statements that a change shows in
//! a hash therefore leave out the pairs of messages that collide.

use vstd::prelude::*;
use crate::BlockHash;
use vstd::utf8::{decode_utf8, encode_utf8, encode_utf8_decode_utf8};
use crate::byteable::{twos_complement, u32_le_bytes, Byteable};
use crate::blockchainblock::{header_bytes, leaf_bytes, link_bytes, BlockchainBlock};
use crate::digest::{no_collision, sha256_digest};
use crate::merkle::{chain_preimage, chain_root, merkle_preimage, merkle_root};

verus! {

/// No two corresponding nodes of the hash trees over `a` and `b` hash
/// different messages to the same digest.
pub open spec fn tree_collision_free(a: Seq<Seq<u8>>, b: Seq<Seq<u8>>) -> bool
    decreases a.len(),
{
    &&& no_collision(merkle_preimage(a), merkle_preimage(b))
    &&& a.len() > 2 ==> {
        let mid = a.len() / 2;
        &&& tree_collision_free(a.take(mid as int), b.take(mid as int))
        &&& tree_collision_free(a.skip(mid as int), b.skip(mid as int))
    }
}

/// Two byte strings with a common tail are equal only if their heads are.
pub proof fn lemma_common_tail(first: Seq<u8>, other: Seq<u8>, tail: Seq<u8>)
    requires
        first + tail == other + tail,
    ensures
        first == other,
{
    assert((first + tail).len() == first.len() + tail.len());
    assert((other + tail).len() == other.len() + tail.len());
    assert forall|i: int| 0 <= i < first.len() implies first[i] == other[i] by {
        assert((first + tail)[i] == first[i]);
        assert((other + tail)[i] == other[i]);
    }
    assert(first =~= other);
}

/// Two byte strings with a common head are equal only if their tails are.
pub proof fn lemma_common_head(head: Seq<u8>, first: Seq<u8>, other: Seq<u8>)
    requires
        head + first == head + other,
    ensures
        first == other,
{
    assert((head + first).len() == head.len() + first.len());
    assert((head + other).len() == head.len() + other.len());
    assert forall|i: int| 0 <= i < first.len() implies first[i] == other[i] by {
        assert((head + first)[head.len() + i] == first[i]);
        assert((head + other)[head.len() + i] == other[i]);
    }
    assert(first =~= other);
}

/// A byte string joined to itself determines the byte string.
pub proof fn lemma_doubled(first: Seq<u8>, other: Seq<u8>)
    requires
        first + first == other + other,
    ensures
        first == other,
{
    assert((first + first).len() == first.len() + first.len());
    assert((other + other).len() == other.len() + other.len());
    assert forall|i: int| 0 <= i < first.len() implies first[i] == other[i] by {
        assert((first + first)[i] == first[i]);
        assert((other + other)[i] == other[i]);
    }
    assert(first =~= other);
}

/// Two hashes joined determine both hashes.
pub proof fn lemma_joined_hashes(left: BlockHash, right: BlockHash, l: BlockHash, r: BlockHash)
    requires
        left@ + right@ == l@ + r@,
    ensures
        left == l,
        right == r,
{
    assert forall|i: int| 0 <= i < 32 implies left[i] == l[i] by {
        assert((left@ + right@)[i] == left@[i]);
        assert((l@ + r@)[i] == l@[i]);
    }
    assert(left =~= l);
    assert forall|i: int| 0 <= i < 32 implies right[i] == r[i] by {
        assert((left@ + right@)[32 + i] == right@[i]);
        assert((l@ + r@)[32 + i] == r@[i]);
    }
    assert(right =~= r);
}

/// Different 32-bit integers have different bytes.
pub proof fn integers_have_distinct_bytes(x: i32, y: i32)
    requires
        x != y,
    ensures
        x.spec_bytes() != y.spec_bytes(),
{
    let a = twos_complement(x);
    let b = twos_complement(y);
    if u32_le_bytes(a) == u32_le_bytes(b) {
        assert(u32_le_bytes(a)[0] == u32_le_bytes(b)[0]);
        assert(u32_le_bytes(a)[1] == u32_le_bytes(b)[1]);
        assert(u32_le_bytes(a)[2] == u32_le_bytes(b)[2]);
        assert(u32_le_bytes(a)[3] == u32_le_bytes(b)[3]);
        assert(a == b);
    }
}

/// Strings of different characters have different bytes.
pub proof fn strings_have_distinct_bytes(x: String, y: String)
    requires
        x@ != y@,
    ensures
        x.spec_bytes() != y.spec_bytes(),
{
    encode_utf8_decode_utf8(x@);
    encode_utf8_decode_utf8(y@);
    assert(decode_utf8(encode_utf8(x@)) == x@);
    assert(decode_utf8(encode_utf8(y@)) == y@);
}

/// The Merkle root of a single leaf is the digest of the leaf's bytes
/// joined to themselves.
pub proof fn singleton_rule(x: Seq<u8>)
    ensures
        merkle_root(seq![x]) == sha256_digest(x + x),
{
}

/// The Merkle root of two leaves is the digest of the first leaf's bytes
/// joined to the second's.
pub proof fn pair_rule(x: Seq<u8>, y: Seq<u8>)
    ensures
        merkle_root(seq![x, y]) == sha256_digest(x + y),
{
}

/// Of three leaves the left part holds the first and the right part the
/// other two: the root is the digest of the two parts' roots joined.
pub proof fn split_rule(a: Seq<u8>, b: Seq<u8>, c: Seq<u8>)
    ensures
        merkle_root(seq![a, b, c]) == sha256_digest(
            merkle_root(seq![a])@ + merkle_root(seq![b, c])@,
        ),
{
    let leaves = seq![a, b, c];
    assert(leaves.take(1) =~= seq![a]);
    assert(leaves.skip(1) =~= seq![b, c]);
}

/// Replacing one leaf by different bytes changes the Merkle root, unless
/// two nodes of the two trees collide.
pub proof fn leaf_change_changes_root(leaves: Seq<Seq<u8>>, position: int, replacement: Seq<u8>)
    requires
        0 <= position < leaves.len(),
        replacement != leaves[position],
        tree_collision_free(leaves, leaves.update(position, replacement)),
    ensures
        merkle_root(leaves.update(position, replacement)) != merkle_root(leaves),
    decreases leaves.len(),
{
    let changed = leaves.update(position, replacement);
    if leaves.len() == 1 {
        if merkle_preimage(changed) == merkle_preimage(leaves) {
            lemma_doubled(replacement, leaves[0]);
        }
    } else if leaves.len() == 2 {
        if merkle_preimage(changed) == merkle_preimage(leaves) {
            if position == 0 {
                lemma_common_tail(replacement, leaves[0], leaves[1]);
            } else {
                lemma_common_head(leaves[0], replacement, leaves[1]);
            }
        }
    } else {
        let mid = (leaves.len() / 2) as int;
        if position < mid {
            assert(changed.take(mid) =~= leaves.take(mid).update(position, replacement));
            assert(changed.skip(mid) =~= leaves.skip(mid));
            leaf_change_changes_root(leaves.take(mid), position, replacement);
        } else {
            assert(changed.take(mid) =~= leaves.take(mid));
            assert(changed.skip(mid) =~= leaves.skip(mid).update(position - mid, replacement));
            leaf_change_changes_root(leaves.skip(mid), position - mid, replacement);
        }
        if merkle_preimage(changed) == merkle_preimage(leaves) {
            lemma_joined_hashes(
                merkle_root(changed.take(mid)),
                merkle_root(changed.skip(mid)),
                merkle_root(leaves.take(mid)),
                merkle_root(leaves.skip(mid)),
            );
        }
    }
}

/// The root over a chain of one hash is that hash.
pub proof fn lone_hash_is_chain_root(hash: BlockHash)
    ensures
        chain_root(seq![hash]) == hash,
{
}

/// The root over a chain of two hashes is the digest of the first joined
/// to the second.
pub proof fn chain_pair_rule(first: BlockHash, second: BlockHash)
    ensures
        chain_root(seq![first, second]) == sha256_digest(first@ + second@),
{
}

/// Of a chain of three hashes the left part holds the first and the right
/// part the other two.
pub proof fn chain_split_rule(a: BlockHash, b: BlockHash, c: BlockHash)
    ensures
        chain_root(seq![a, b, c]) == sha256_digest(a@ + sha256_digest(b@ + c@)@),
{
    let hashes = seq![a, b, c];
    assert(hashes.take(1) =~= seq![a]);
    assert(hashes.skip(1) =~= seq![b, c]);
    assert(chain_root(seq![a]) == a);
    assert(chain_root(seq![b, c]) == sha256_digest(b@ + c@));
}

/// The root over a chain of two or more hashes is the digest of the roots
/// of its two parts, joined.
pub proof fn chain_root_hashes_preimage(hashes: Seq<BlockHash>)
    requires
        hashes.len() >= 2,
    ensures
        chain_root(hashes) == sha256_digest(chain_preimage(hashes)),
{
    if hashes.len() == 2 {
        assert(chain_root(hashes.take(1)) == hashes[0]);
        assert(chain_root(hashes.skip(1)) == hashes[1]);
    }
}

/// No two corresponding nodes of the hash trees over the chains `a` and
/// `b` hash different messages to the same digest.
pub open spec fn chain_collision_free(a: Seq<BlockHash>, b: Seq<BlockHash>) -> bool
    decreases a.len(),
{
    a.len() >= 2 ==> {
        let mid = a.len() / 2;
        &&& no_collision(chain_preimage(a), chain_preimage(b))
        &&& chain_collision_free(a.take(mid as int), b.take(mid as int))
        &&& chain_collision_free(a.skip(mid as int), b.skip(mid as int))
    }
}

/// Replacing one hash of a chain by another changes the chain's root,
/// unless two nodes of the two trees collide.
pub proof fn chain_hash_change_changes_root(
    hashes: Seq<BlockHash>,
    position: int,
    replacement: BlockHash,
)
    requires
        0 <= position < hashes.len(),
        replacement != hashes[position],
        chain_collision_free(hashes, hashes.update(position, replacement)),
    ensures
        chain_root(hashes.update(position, replacement)) != chain_root(hashes),
    decreases hashes.len(),
{
    let changed = hashes.update(position, replacement);
    if hashes.len() >= 2 {
        let mid = (hashes.len() / 2) as int;
        if position < mid {
            assert(changed.take(mid) =~= hashes.take(mid).update(position, replacement));
            assert(changed.skip(mid) =~= hashes.skip(mid));
            chain_hash_change_changes_root(hashes.take(mid), position, replacement);
        } else {
            assert(changed.take(mid) =~= hashes.take(mid));
            assert(changed.skip(mid) =~= hashes.skip(mid).update(position - mid, replacement));
            chain_hash_change_changes_root(hashes.skip(mid), position - mid, replacement);
        }
        if chain_preimage(changed) == chain_preimage(hashes) {
            lemma_joined_hashes(
                chain_root(changed.take(mid)),
                chain_root(changed.skip(mid)),
                chain_root(hashes.take(mid)),
                chain_root(hashes.skip(mid)),
            );
        }
        chain_root_hashes_preimage(hashes);
        chain_root_hashes_preimage(changed);
    }
}

/// Two blocks built from the same arguments as the newest of the same
/// chain have the same content hash and the same Merkle root.
pub proof fn chain_construction_is_deterministic<'a, T: Byteable>(
    first: BlockchainBlock<'a, T>,
    second: BlockchainBlock<'a, T>,
    prev_hash: Option<BlockHash>,
    data: &'a [T],
    timestamp: u64,
    nonce: u64,
    prior: Seq<BlockHash>,
)
    requires
        first.built_in_chain(prev_hash, data, timestamp, nonce, prior),
        second.built_in_chain(prev_hash, data, timestamp, nonce, prior),
    ensures
        first.merkle_root == second.merkle_root,
        first.curr_hash == second.curr_hash,
{
}

/// Two blocks built from the same arguments have the same content hash and
/// the same Merkle root.
pub proof fn construction_is_deterministic<'a, T: Byteable>(
    first: BlockchainBlock<'a, T>,
    second: BlockchainBlock<'a, T>,
    prev_hash: Option<BlockHash>,
    data: &'a [T],
    timestamp: u64,
    nonce: u64,
)
    requires
        first.built_from(prev_hash, data, timestamp, nonce),
        second.built_from(prev_hash, data, timestamp, nonce),
    ensures
        first.merkle_root == second.merkle_root,
        first.curr_hash == second.curr_hash,
{
    assert(first.merkle_root =~= second.merkle_root);
}

/// The Merkle root of a built block is fixed by the payload alone.
pub proof fn merkle_root_ignores_header<'a, T: Byteable>(
    first: BlockchainBlock<'a, T>,
    second: BlockchainBlock<'a, T>,
)
    requires
        first.wf(),
        second.wf(),
        leaf_bytes(first.data@) == leaf_bytes(second.data@),
    ensures
        first.merkle_root == second.merkle_root,
{
    assert(first.merkle_root =~= second.merkle_root);
}

/// Two header messages that differ in the predecessor's hash alone differ.
pub proof fn header_bytes_tell_links_apart(
    first: Option<BlockHash>,
    second: Option<BlockHash>,
    data_bytes: Seq<u8>,
    timestamp: u64,
    nonce: u64,
    merkle_root: Seq<u8>,
    version: u8,
)
    requires
        first != second,
    ensures
        header_bytes(first, data_bytes, timestamp, nonce, merkle_root, version) != header_bytes(
            second,
            data_bytes,
            timestamp,
            nonce,
            merkle_root,
            version,
        ),
{
    let a = header_bytes(first, data_bytes, timestamp, nonce, merkle_root, version);
    let b = header_bytes(second, data_bytes, timestamp, nonce, merkle_root, version);
    assert(a.len() == link_bytes(first).len() + data_bytes.len() + 16 + merkle_root.len() + 1);
    assert(b.len() == link_bytes(second).len() + data_bytes.len() + 16 + merkle_root.len() + 1);
    match (first, second) {
        (Some(x), Some(y)) => {
            if a == b {
                assert forall|i: int| 0 <= i < 32 implies x[i] == y[i] by {
                    assert(a[i] == x[i]);
                    assert(b[i] == y[i]);
                }
                assert(x =~= y);
            }
        },
        _ => {},
    }
}

/// Changing the predecessor's hash, all else held fixed, changes the
/// content hash, unless the two header messages collide.
pub proof fn previous_hash_changes_hash<'a, T: Byteable>(
    first: BlockchainBlock<'a, T>,
    second: BlockchainBlock<'a, T>,
    data: &'a [T],
    timestamp: u64,
    nonce: u64,
)
    requires
        first.built_from(first.prev_hash, data, timestamp, nonce),
        second.built_from(second.prev_hash, data, timestamp, nonce),
        first.prev_hash != second.prev_hash,
        no_collision(
            header_bytes(
                first.prev_hash,
                data.spec_bytes(),
                timestamp,
                nonce,
                first.merkle_root@,
                first.version,
            ),
            header_bytes(
                second.prev_hash,
                data.spec_bytes(),
                timestamp,
                nonce,
                second.merkle_root@,
                second.version,
            ),
        ),
    ensures
        first.curr_hash != second.curr_hash,
{
    assert(first.merkle_root =~= second.merkle_root);
    header_bytes_tell_links_apart(
        first.prev_hash,
        second.prev_hash,
        data.spec_bytes(),
        timestamp,
        nonce,
        first.merkle_root@,
        first.version,
    );
}

/// The item that a built block holds at a position is found there.
pub proof fn committed_value_is_found<'a, T: Byteable>(block: BlockchainBlock<'a, T>, position: int)
    requires
        block.wf(),
        0 <= position < block.data@.len(),
    ensures
        block.holds_at(block.data@[position].spec_bytes(), position),
{
    let leaves = leaf_bytes(block.data@);
    assert(leaves.update(position, block.data@[position].spec_bytes()) =~= leaves);
}

/// Bytes other than those of the item that a built block holds at a
/// position are not found there, unless two nodes of the two trees collide.
pub proof fn other_value_is_not_found<'a, T: Byteable>(
    block: BlockchainBlock<'a, T>,
    candidate: Seq<u8>,
    position: int,
)
    requires
        block.wf(),
        0 <= position < block.data@.len(),
        candidate != block.data@[position].spec_bytes(),
        tree_collision_free(
            leaf_bytes(block.data@),
            leaf_bytes(block.data@).update(position, candidate),
        ),
    ensures
        !block.holds_at(candidate, position),
{
    leaf_change_changes_root(leaf_bytes(block.data@), position, candidate);
}

/// Nothing is found at a position past the payload's end.
pub proof fn nothing_is_found_out_of_bounds<'a, T: Byteable>(
    block: BlockchainBlock<'a, T>,
    candidate: Seq<u8>,
    position: int,
)
    requires
        position >= block.data@.len(),
    ensures
        !block.holds_at(candidate, position),
{
}

} // verus!
