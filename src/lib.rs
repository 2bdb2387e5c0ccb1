//! A filesystem whose metadata and content live at fixed byte offsets inside
//! one backing region.
//!
//! The library lays out and validates that region: the superblock, the block
//! occupancy map, the inline lists that hold every growable collection, and
//! the entities (inodes) reached through them.

use vstd::prelude::*;

pub mod bytes;
pub mod disk;
pub mod flags;
pub mod freemap;
pub mod fs;
pub mod ident;
pub mod ilist;
pub mod names;
pub mod target;

verus! {

/// Bytes in one block.
pub const BLOCK: u64 = 4096;

/// Number of blocks needed to hold `n` bytes, never less than one.
pub open spec fn spec_block_size(n: nat) -> nat {
    if n == 0 {
        1
    } else {
        ((n + 4095) / 4096) as nat
    }
}

/// Number of whole blocks that `len` bytes occupy; an empty input still takes
/// one block.
pub fn block_size(len: u64) -> (r: u64)
    ensures
        r as nat == spec_block_size(len as nat),
        r >= 1,
{
    if len == 0 {
        1
    } else {
        len / BLOCK + if len % BLOCK == 0 { 0 } else { 1 }
    }
}

} // verus!
