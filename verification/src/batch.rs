//! The batched multi-lane compressor.
//!
//! One call folds up to `DEGREE` independent input sequences through the
//! single-block compression step, each sequence in its own lane with its
//! own counter, and writes one 32-byte chaining value per lane into the
//! output buffer, in lane order. The contract is lane independence: each
//! lane's bytes equal the sequential single-block fold over that lane's
//! input alone.
use crate::compress::compress_in_place;
use crate::compress::spec_compress_chain;
use crate::words::bytes_of_words;
use crate::words::store_words8;
use crate::CVWords;
use crate::OffsetDeltas;
use crate::BLOCK_LEN;
use crate::DEGREE;
use crate::OUT_LEN;
use vstd::pervasive::unreached;
use vstd::prelude::*;

verus! {

/// The flag byte of block `i` out of `nblocks`: the base flags, with the
/// start bit on the first block and the end bit on the last. A lane of one
/// block carries both.
pub open spec fn spec_block_flags(
    flags: u8,
    flags_start: u8,
    flags_end: u8,
    i: int,
    nblocks: int,
) -> u8 {
    let f = if i == 0 {
        flags | flags_start
    } else {
        flags
    };
    if i == nblocks - 1 {
        f | flags_end
    } else {
        f
    }
}

/// The chaining value after the first `b` whole blocks of `input` have
/// been folded through the compression step, starting from `key`, every
/// block with the counter `counter` and with the boundary-flag rule over
/// `nblocks` blocks in all.
pub open spec fn spec_fold_blocks(
    key: Seq<u32>,
    input: Seq<u8>,
    b: int,
    nblocks: int,
    counter: u64,
    flags: u8,
    flags_start: u8,
    flags_end: u8,
) -> Seq<u32>
    recommends
        key.len() == 8,
        input.len() == 64 * nblocks,
        0 <= b <= nblocks,
    decreases b,
{
    if b <= 0 {
        key
    } else {
        spec_compress_chain(
            spec_fold_blocks(key, input, b - 1, nblocks, counter, flags, flags_start, flags_end),
            input.subrange(64 * (b - 1), 64 * b),
            64,
            counter,
            spec_block_flags(flags, flags_start, flags_end, b - 1, nblocks),
        )
    }
}

/// The chaining value of one whole lane: every block of `input` folded
/// through the compression step.
pub open spec fn spec_hash_lane(
    key: Seq<u32>,
    input: Seq<u8>,
    counter: u64,
    flags: u8,
    flags_start: u8,
    flags_end: u8,
) -> Seq<u32>
    recommends
        key.len() == 8,
        input.len() % 64 == 0,
{
    spec_fold_blocks(
        key,
        input,
        input.len() as int / 64,
        input.len() as int / 64,
        counter,
        flags,
        flags_start,
        flags_end,
    )
}

/// In a lane of three blocks, block 0 is compressed with the start flag,
/// block 1 with the base flags alone, and block 2 with the end flag.
pub proof fn lemma_flags_three_blocks(
    key: Seq<u32>,
    input: Seq<u8>,
    counter: u64,
    flags: u8,
    flags_start: u8,
    flags_end: u8,
)
    requires
        key.len() == 8,
        input.len() == 192,
    ensures
        spec_hash_lane(key, input, counter, flags, flags_start, flags_end)
            == spec_compress_chain(
            spec_compress_chain(
                spec_compress_chain(
                    key,
                    input.subrange(0, 64),
                    64,
                    counter,
                    flags | flags_start,
                ),
                input.subrange(64, 128),
                64,
                counter,
                flags,
            ),
            input.subrange(128, 192),
            64,
            counter,
            flags | flags_end,
        ),
{
    reveal_with_fuel(spec_fold_blocks, 4);
}

/// In a lane of a single block, that block is compressed with the start
/// flag and the end flag both set.
pub proof fn lemma_flags_single_block(
    key: Seq<u32>,
    input: Seq<u8>,
    counter: u64,
    flags: u8,
    flags_start: u8,
    flags_end: u8,
)
    requires
        key.len() == 8,
        input.len() == 64,
    ensures
        spec_hash_lane(key, input, counter, flags, flags_start, flags_end)
            == spec_compress_chain(key, input, 64, counter, (flags | flags_start) | flags_end),
{
    reveal_with_fuel(spec_fold_blocks, 2);
    assert(input.subrange(0, 64) =~= input);
}

/// Copy block `b` of a lane's input into a block buffer of its own.
fn load_block<const N: usize>(input: &[u8; N], b: usize) -> (blk: [u8; 64])
    requires
        N % 64 == 0,
        b < N / 64,
    ensures
        blk@ == input@.subrange(64 * b as int, 64 * b as int + 64),
{
    proof {
        assert(64 * (b + 1) <= 64 * (N as int / 64)) by (nonlinear_arith)
            requires
                b + 1 <= N as int / 64,
        ;
        assert(64 * (N as int / 64) <= N);
    }
    let mut blk = [0u8; 64];
    for j in 0..64
        invariant
            N % 64 == 0,
            b < N / 64,
            64 * b + 64 <= N,
            forall|k: int| 0 <= k < j ==> blk@[k] == input@[64 * b + k],
    {
        blk[j] = input[64 * b + j];
    }
    proof {
        assert(blk@ =~= input@.subrange(64 * b as int, 64 * b as int + 64));
    }
    blk
}

/// Compress `inputs.len()` lanes in one call, writing the 32-byte chaining
/// value of lane `i` at offset `32 * i` of `out`. Each lane starts from
/// `key`, uses the counter `offset + offset_deltas[i]` for all its blocks,
/// and places the boundary flags by the block-flag rule. Bytes of `out`
/// past the written lanes are left unchanged.
pub fn hash_many<const N: usize>(
    inputs: &[&[u8; N]],
    key: &CVWords,
    offset: u64,
    offset_deltas: &OffsetDeltas,
    flags: u8,
    flags_start: u8,
    flags_end: u8,
    out: &mut Vec<u8>,
)
    requires
        N >= 64,
        N % 64 == 0,
        inputs@.len() <= DEGREE,
        old(out)@.len() >= inputs@.len() * 32,
        forall|i: int| 0 <= i < inputs@.len() ==> offset + #[trigger] offset_deltas@[i]
            <= u64::MAX,
    ensures
        final(out)@.len() == old(out)@.len(),
        forall|i: int|
            #![trigger inputs@[i]]
            #![trigger final(out)@.subrange(32 * i, 32 * i + 32)]
            0 <= i < inputs@.len() ==> final(out)@.subrange(32 * i, 32 * i + 32) == bytes_of_words(
                spec_hash_lane(
                    key@,
                    inputs@[i]@,
                    (offset + offset_deltas@[i]) as u64,
                    flags,
                    flags_start,
                    flags_end,
                ),
            ),
        forall|j: int|
            inputs@.len() * 32 <= j < final(out)@.len() ==> final(out)@[j] == old(out)@[j],
{
    // An undersized output buffer is a broken caller contract and must be
    // rejected before any byte is written. Verified callers cannot reach
    // this branch; an unverified caller that does stops here at once.
    if out.len() < inputs.len() * OUT_LEN {
        return unreached();
    }
    let num_inputs = inputs.len();
    let blocks = N / BLOCK_LEN;
    let n = out.len();
    for lane in 0..num_inputs
        invariant
            num_inputs == inputs@.len(),
            num_inputs <= 16,
            N >= 64,
            N % 64 == 0,
            blocks == N / 64,
            out@.len() == n,
            out@.len() == old(out)@.len(),
            out@.len() >= num_inputs * 32,
            forall|i: int| 0 <= i < num_inputs ==> offset + #[trigger] offset_deltas@[i]
                <= u64::MAX,
            forall|i: int|
                0 <= i < lane ==> out@.subrange(32 * i, 32 * i + 32) == bytes_of_words(
                    spec_hash_lane(
                        key@,
                        inputs@[i]@,
                        (offset + offset_deltas@[i]) as u64,
                        flags,
                        flags_start,
                        flags_end,
                    ),
                ),
            forall|j: int| 32 * lane <= j < out@.len() ==> out@[j] == old(out)@[j],
    {
        let counter = offset + offset_deltas[lane];
        let input: &[u8; N] = inputs[lane];
        let mut cv: CVWords = *key;
        for b in 0..blocks
            invariant
                N >= 64,
                N % 64 == 0,
                blocks == N / 64,
                input@.len() == N,
                cv@ == spec_fold_blocks(
                    key@,
                    input@,
                    b as int,
                    blocks as int,
                    counter,
                    flags,
                    flags_start,
                    flags_end,
                ),
        {
            let mut f = flags;
            if b == 0 {
                f = f | flags_start;
            }
            if b == blocks - 1 {
                f = f | flags_end;
            }
            assert(f == spec_block_flags(flags, flags_start, flags_end, b as int, blocks as int));
            let blk = load_block(input, b);
            compress_in_place(&mut cv, &blk, 64, counter, f);
        }
        proof {
            assert(input@.len() as int / 64 == blocks as int);
            assert(cv@ == spec_hash_lane(key@, input@, counter, flags, flags_start, flags_end));
        }
        let ghost out_prev = out@;
        let pos = OUT_LEN * lane;
        store_words8(out, pos, &cv);
        proof {
            assert forall|i: int|
                0 <= i < lane + 1 implies out@.subrange(32 * i, 32 * i + 32) == bytes_of_words(
                spec_hash_lane(
                    key@,
                    inputs@[i]@,
                    (offset + offset_deltas@[i]) as u64,
                    flags,
                    flags_start,
                    flags_end,
                ),
            ) by {
                if i < lane {
                    assert(out@.subrange(32 * i, 32 * i + 32) =~= out_prev.subrange(
                        32 * i,
                        32 * i + 32,
                    ));
                } else {
                    assert(out@.subrange(32 * i, 32 * i + 32) =~= out@.subrange(
                        pos as int,
                        pos + 32,
                    ));
                }
            }
        }
    }
}

} // verus!
