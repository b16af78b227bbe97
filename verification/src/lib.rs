//! A customizable base for a blockchain: the hash envelope of a single block.

use vstd::prelude::*;

pub mod digest;
pub mod byteable;
pub mod hashable;
pub mod merkle;
pub mod blockchainblock;
pub mod laws;




pub use crate::byteable::Byteable;
pub use crate::hashable::Hashable;
pub use crate::blockchainblock::BlockchainBlock;


verus! {

/// Version of the protocol as it appears in block headers.
pub const VERSION: u8 = 1;

/// Number of bytes in a block hash.
pub const BLOCKHASHLEN: usize = 32;

/// A block hash: the 32 bytes of a SHA-256 digest.
pub type BlockHash = [u8; 32];

} // verus!
