//! Batched block-compression core of a tree-structured hash.
//!
//! The library has two layers. The single-block compressor advances one
//! 8-word chaining value by one 64-byte message block, or expands it into a
//! 64-byte output block. The batched compressor folds up to `DEGREE`
//! independent input sequences through the single-block step, one lane per
//! sequence, each lane with its own counter and with boundary flags on its
//! first and last block. The contract of the batched path is bit-for-bit
//! equivalence with the sequential per-lane fold.
use vstd::prelude::*;

pub mod batch;
pub mod compress;
pub mod words;

pub use batch::hash_many;
pub use compress::compress_in_place;
pub use compress::compress_xof;

verus! {

/// Number of bytes in one message block.
pub const BLOCK_LEN: usize = 64;

/// Number of bytes in one standard digest (one chaining value).
pub const OUT_LEN: usize = 32;

/// Greatest number of lanes one batched call may process.
pub const DEGREE: usize = 16;

/// A chaining value: the running 256-bit state, as 8 little-endian words.
pub type CVWords = [u32; 8];

/// Per-lane additions to the base counter of a batched call.
pub type OffsetDeltas = [u64; 17];

} // verus!
