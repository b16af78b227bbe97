//! One block of a hash-linked chain: header fields, payload, content hash
//! and the Merkle root of the payload.

use vstd::prelude::*;
use crate::{BlockHash, VERSION};
use crate::byteable::{append_bytes, u64_le_bytes, u64_to_bytes, Byteable};
use crate::digest::{hash_bytes, same_hash, sha256_digest};
use crate::hashable::Hashable;
use crate::merkle::{
    chain_root, chain_root_of_hashes, leaf_views, merkle_hash, merkle_root, merkle_root_of_leaves,
};

verus! {

/// One block of the blockchain.
pub struct BlockchainBlock<'a, T> {
    /// hash of the current block
    pub curr_hash: BlockHash,
    /// hash of the previous block; `None` for the first block
    pub prev_hash: Option<BlockHash>,
    /// the payload: the leaves of the block's hash tree
    pub data: &'a [T],
    /// time of block creation in seconds since 1970-01-01T00:00 UTC
    pub timestamp: u64,
    /// field used for giving variability
    pub nonce: u64,
    /// root of a SHA-256 hash tree whose leaves are the payload's items
    pub merkle_root: BlockHash,
    /// version of the protocol used to create the block
    pub version: u8,
}

/// The bytes of each payload item, in order: the leaves of the hash tree.
pub open spec fn leaf_bytes<T: Byteable>(data: Seq<T>) -> Seq<Seq<u8>> {
    data.map_values(|item: T| item.spec_bytes())
}

/// The bytes of an optional predecessor hash: none for the first block.
pub open spec fn link_bytes(prev_hash: Option<BlockHash>) -> Seq<u8> {
    match prev_hash {
        Some(hash) => hash@,
        None => Seq::empty(),
    }
}

/// The message whose digest is a block's content hash: the predecessor's
/// hash if there is one, the payload's bytes, timestamp and nonce in
/// little-endian order, the Merkle root and the version, in this order.
pub open spec fn header_bytes(
    prev_hash: Option<BlockHash>,
    data_bytes: Seq<u8>,
    timestamp: u64,
    nonce: u64,
    merkle_root: Seq<u8>,
    version: u8,
) -> Seq<u8> {
    link_bytes(prev_hash) + data_bytes + u64_le_bytes(timestamp) + u64_le_bytes(nonce)
        + merkle_root + seq![version]
}

/// The bytes of the zero hash, which stands where no Merkle root has been
/// computed: 32 zero bytes.
pub open spec fn zero_root() -> Seq<u8> {
    Seq::new(32, |i: int| 0u8)
}

/// The content hashes of a sequence of blocks, in order.
pub open spec fn chain_hashes<'a, T>(blocks: Seq<BlockchainBlock<'a, T>>) -> Seq<BlockHash> {
    blocks.map_values(|block: BlockchainBlock<'a, T>| block.curr_hash)
}

/// The Merkle root that a block with payload `leaves` stores: that of the
/// leaves, or the zero hash where there are none.
pub open spec fn stored_root_is(root: BlockHash, leaves: Seq<Seq<u8>>) -> bool {
    if leaves.len() > 0 {
        root == merkle_root(leaves)
    } else {
        root@ == zero_root()
    }
}

/// Builds the message whose digest is a block's content hash.
pub fn header_message(
    prev_hash: &Option<BlockHash>,
    data_bytes: &Vec<u8>,
    timestamp: u64,
    nonce: u64,
    merkle_root: &BlockHash,
    version: u8,
) -> (bytes: Vec<u8>)
    ensures
        bytes@ == header_bytes(*prev_hash, data_bytes@, timestamp, nonce, merkle_root@, version),
{
    let mut bytes: Vec<u8> = Vec::new();
    match prev_hash {
        Some(prev_h) => {
            append_bytes(&mut bytes, prev_h.as_slice());
        },
        None => {},
    }
    assert(bytes@ =~= link_bytes(*prev_hash));
    append_bytes(&mut bytes, data_bytes.as_slice());
    let timestamp_bytes = u64_to_bytes(timestamp);
    append_bytes(&mut bytes, timestamp_bytes.as_slice());
    let nonce_bytes = u64_to_bytes(nonce);
    append_bytes(&mut bytes, nonce_bytes.as_slice());
    append_bytes(&mut bytes, merkle_root.as_slice());
    bytes.push(version);
    assert(bytes@ =~= header_bytes(
        *prev_hash,
        data_bytes@,
        timestamp,
        nonce,
        merkle_root@,
        version,
    ));
    bytes
}

/// Collects the bytes of every item of a payload.
pub fn leaves_of<T: Byteable>(blocks: &[T]) -> (leaves: Vec<Vec<u8>>)
    ensures
        leaf_views(leaves@) == leaf_bytes(blocks@),
{
    let mut leaves: Vec<Vec<u8>> = Vec::new();
    let mut i: usize = 0;
    while i < blocks.len()
        invariant
            i <= blocks@.len(),
            leaves@.len() == i,
            leaf_views(leaves@) == leaf_bytes(blocks@.take(i as int)),
        decreases blocks@.len() - i,
    {
        let ghost before = leaves@;
        leaves.push(blocks[i].bytes());
        assert forall|j: int| 0 <= j < i implies leaf_views(leaves@)[j] == leaf_bytes(
            blocks@.take(i + 1),
        )[j] by {
            assert(leaf_views(before)[j] == leaf_bytes(blocks@.take(i as int))[j]);
        }
        assert(leaf_views(leaves@) =~= leaf_bytes(blocks@.take(i + 1)));
        i += 1;
    }
    assert(blocks@.take(i as int) == blocks@);
    leaves
}

impl<'a, T: Byteable> BlockchainBlock<'a, T> {
    /// The content hash of the block as its fields stand: the digest of
    /// the header message.
    pub open spec fn content_hash(&self) -> BlockHash {
        sha256_digest(
            header_bytes(
                self.prev_hash,
                self.data.spec_bytes(),
                self.timestamp,
                self.nonce,
                self.merkle_root@,
                self.version,
            ),
        )
    }

    /// The block is as its constructor leaves it: the Merkle root is that
    /// of the payload, and the content hash is that of the fields.
    pub open spec fn wf(&self) -> bool {
        &&& self.version == VERSION
        &&& stored_root_is(self.merkle_root, leaf_bytes(self.data@))
        &&& self.curr_hash == self.content_hash()
    }

    /// The block is the one that is built from the given arguments.
    pub open spec fn built_from(
        &self,
        prev_hash: Option<BlockHash>,
        data: &'a [T],
        timestamp: u64,
        nonce: u64,
    ) -> bool {
        &&& self.prev_hash == prev_hash
        &&& self.data == data
        &&& self.timestamp == timestamp
        &&& self.nonce == nonce
        &&& self.wf()
    }

    /// The block is the one that is built from the given arguments as the
    /// newest of a chain whose earlier blocks have the hashes `prior`: the
    /// content hash is taken while the Merkle root is still the zero hash,
    /// and the Merkle root is the root over the chain's hashes, this
    /// block's last.
    pub open spec fn built_in_chain(
        &self,
        prev_hash: Option<BlockHash>,
        data: &'a [T],
        timestamp: u64,
        nonce: u64,
        prior: Seq<BlockHash>,
    ) -> bool {
        &&& self.prev_hash == prev_hash
        &&& self.data == data
        &&& self.timestamp == timestamp
        &&& self.nonce == nonce
        &&& self.version == VERSION
        &&& self.curr_hash == sha256_digest(
            header_bytes(prev_hash, data.spec_bytes(), timestamp, nonce, zero_root(), VERSION),
        )
        &&& self.merkle_root == chain_root(prior.push(self.curr_hash))
    }

    /// Whether the payload with `candidate` in place of the item at
    /// `position` has the Merkle root that the block stores.
    pub open spec fn holds_at(&self, candidate: Seq<u8>, position: int) -> bool {
        &&& 0 <= position < self.data@.len()
        &&& merkle_root(leaf_bytes(self.data@).update(position, candidate)) == self.merkle_root
    }

    /// Constructs a new block from its predecessor's hash, its payload, a
    /// timestamp and a nonce.
    pub fn new(prev_hash: Option<BlockHash>, data: &'a [T], timestamp: u64, nonce: u64) -> (block:
        BlockchainBlock<'a, T>)
        ensures
            block.built_from(prev_hash, data, timestamp, nonce),
    {
        let mut block = BlockchainBlock {
            prev_hash,
            data,
            timestamp,
            merkle_root: [0;32],
            nonce,
            version: VERSION,
            curr_hash: [0;32],
        };
        if data.len() > 0 {
            block.merkle_root = block.calculate_merkle_root(data);
        } else {
            assert(block.merkle_root@ =~= zero_root());
        }
        block.calculate_hash();
        block
    }

    /// Constructs a new block as the newest of a chain. Its Merkle root
    /// summarizes the content hashes of `prior_blocks`, in order, and then
    /// its own; with no prior blocks it is the block's own content hash.
    pub fn new_in_chain(
        prev_hash: Option<BlockHash>,
        data: &'a [T],
        timestamp: u64,
        nonce: u64,
        prior_blocks: &[BlockchainBlock<'a, T>],
    ) -> (block: BlockchainBlock<'a, T>)
        ensures
            block.built_in_chain(prev_hash, data, timestamp, nonce, chain_hashes(prior_blocks@)),
            prior_blocks@.len() == 0 ==> block.merkle_root == block.curr_hash,
    {
        let mut block = BlockchainBlock {
            prev_hash,
            data,
            timestamp,
            merkle_root: [0;32],
            nonce,
            version: VERSION,
            curr_hash: [0;32],
        };
        assert(block.merkle_root@ =~= zero_root());
        block.calculate_hash();
        let mut hashes: Vec<BlockHash> = Vec::new();
        let mut i: usize = 0;
        while i < prior_blocks.len()
            invariant
                i <= prior_blocks@.len(),
                hashes@ == chain_hashes(prior_blocks@.take(i as int)),
            decreases prior_blocks@.len() - i,
        {
            hashes.push(prior_blocks[i].curr_hash);
            assert(hashes@ =~= chain_hashes(prior_blocks@.take(i + 1)));
            i += 1;
        }
        assert(prior_blocks@.take(i as int) == prior_blocks@);
        hashes.push(block.curr_hash);
        block.merkle_root = chain_root_of_hashes(hashes.as_slice());
        block
    }

    /// Checks that `data` is the item at `position` of the payload, by
    /// calculating the Merkle root of the payload with `data` at that place.
    pub fn check_value_inblock(&self, data: &T, position: usize) -> (found: bool)
        ensures
            found == self.holds_at(data.spec_bytes(), position as int),
            position >= self.data@.len() ==> !found,
    {
        if position >= self.data.len() {
            return false;
        }
        let mut temp = leaves_of(self.data);
        assert(leaf_views(temp@).len() == self.data@.len());
        temp.set(position, data.bytes());
        assert(leaf_views(temp@) =~= leaf_bytes(self.data@).update(
            position as int,
            data.spec_bytes(),
        ));
        let root = merkle_root_of_leaves(temp.as_slice());
        same_hash(&root, &self.merkle_root)
    }

    /// Hashes the roots of two subtrees into the root of their parent.
    pub fn calculate_merkle_hash(&self, block_left: &BlockHash, block_right: &BlockHash) -> (out:
        BlockHash)
        ensures
            out == sha256_digest(block_left@ + block_right@),
    {
        merkle_hash(block_left, block_right)
    }

    /// Calculates the Merkle root of a non-empty sequence of items.
    pub fn calculate_merkle_root(&self, blocks: &[T]) -> (root: BlockHash)
        requires
            blocks@.len() >= 1,
        ensures
            root == merkle_root(leaf_bytes(blocks@)),
    {
        let leaves = leaves_of(blocks);
        assert(leaf_views(leaves@).len() == blocks@.len());
        merkle_root_of_leaves(leaves.as_slice())
    }
}

impl<'a, T: Byteable> Hashable for BlockchainBlock<'a, T> {
    open spec fn hashed(&self) -> Self {
        BlockchainBlock {
            curr_hash: self.content_hash(),
            prev_hash: self.prev_hash,
            data: self.data,
            timestamp: self.timestamp,
            nonce: self.nonce,
            merkle_root: self.merkle_root,
            version: self.version,
        }
    }

    fn calculate_hash(&mut self) {
        let data_bytes = self.data.bytes();
        let bytes = header_message(
            &self.prev_hash,
            &data_bytes,
            self.timestamp,
            self.nonce,
            &self.merkle_root,
            self.version,
        );
        self.curr_hash = hash_bytes(&bytes);
    }
}

} // verus!
