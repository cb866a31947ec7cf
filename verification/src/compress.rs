//! The single-block compressor: one compression step over a 16-word state.
//!
//! A step mixes one 64-byte message block into an 8-word chaining value,
//! parameterised by the count of meaningful bytes in the block, a 64-bit
//! counter naming the block's position, and a byte of domain-separation
//! flags. `compress_in_place` keeps the first 8 words of the result as the
//! next chaining value; `compress_xof` returns all 16 words as 64 bytes of
//! extended output, whose first 32 bytes coincide with that chaining value.
use crate::words::block_words;
use crate::words::bytes_of_words;
use crate::words::lemma_bytes_of_words_prefix;
use crate::words::words_of_block;
use crate::words::words_to_bytes16;
use crate::CVWords;
use vstd::prelude::*;

verus! {

/// First word of the initialisation vector.
pub const IV_0: u32 = 0x6A09_E667;

/// Second word of the initialisation vector.
pub const IV_1: u32 = 0xBB67_AE85;

/// Third word of the initialisation vector.
pub const IV_2: u32 = 0x3C6E_F372;

/// Fourth word of the initialisation vector.
pub const IV_3: u32 = 0xA54F_F53A;

/// Fifth word of the initialisation vector.
pub const IV_4: u32 = 0x510E_527F;

/// Sixth word of the initialisation vector.
pub const IV_5: u32 = 0x9B05_688C;

/// Seventh word of the initialisation vector.
pub const IV_6: u32 = 0x1F83_D9AB;

/// Eighth word of the initialisation vector.
pub const IV_7: u32 = 0x5BE0_CD19;

/// Flag for the first block of a chunk.
pub const CHUNK_START: u8 = 1;

/// Flag for the last block of a chunk.
pub const CHUNK_END: u8 = 2;

/// Flag for a parent-node compression.
pub const PARENT: u8 = 4;

/// Flag for the root compression.
pub const ROOT: u8 = 8;

/// Flag for keyed hashing.
pub const KEYED_HASH: u8 = 16;

/// Flag for hashing a key-derivation context string.
pub const DERIVE_KEY_CONTEXT: u8 = 32;

/// Flag for deriving key material.
pub const DERIVE_KEY_MATERIAL: u8 = 64;

/// Addition of two words modulo `2^32`.
pub open spec fn wadd(x: u32, y: u32) -> u32 {
    vstd::wrapping::u32_specs::wrapping_add(x, y)
}

/// Rotation of a word right by `n` bits.
pub open spec fn rotr(x: u32, n: u32) -> u32
    recommends
        0 < n < 32,
{
    (x >> n) | (x << ((32 - n) as u32))
}

/// The quarter-round: mix two message words into four words of the state.
#[verifier::opaque]
pub open spec fn spec_mix(v: Seq<u32>, a: int, b: int, c: int, d: int, mx: u32, my: u32) -> Seq<
    u32,
>
    recommends
        v.len() == 16,
        0 <= a < 16,
        0 <= b < 16,
        0 <= c < 16,
        0 <= d < 16,
{
    let a1 = wadd(wadd(v[a], v[b]), mx);
    let d1 = rotr(v[d] ^ a1, 16);
    let c1 = wadd(v[c], d1);
    let b1 = rotr(v[b] ^ c1, 12);
    let a2 = wadd(wadd(a1, b1), my);
    let d2 = rotr(d1 ^ a2, 8);
    let c2 = wadd(c1, d2);
    let b2 = rotr(b1 ^ c2, 7);
    v.update(a, a2).update(b, b2).update(c, c2).update(d, d2)
}

/// One round: quarter-rounds down the columns, then along the diagonals.
#[verifier::opaque]
pub open spec fn spec_round(v: Seq<u32>, m: Seq<u32>) -> Seq<u32>
    recommends
        v.len() == 16,
        m.len() == 16,
{
    let v = spec_mix(v, 0, 4, 8, 12, m[0], m[1]);
    let v = spec_mix(v, 1, 5, 9, 13, m[2], m[3]);
    let v = spec_mix(v, 2, 6, 10, 14, m[4], m[5]);
    let v = spec_mix(v, 3, 7, 11, 15, m[6], m[7]);
    let v = spec_mix(v, 0, 5, 10, 15, m[8], m[9]);
    let v = spec_mix(v, 1, 6, 11, 12, m[10], m[11]);
    let v = spec_mix(v, 2, 7, 8, 13, m[12], m[13]);
    spec_mix(v, 3, 4, 9, 14, m[14], m[15])
}

/// The message-word schedule applied between rounds.
#[verifier::opaque]
pub open spec fn spec_permute(m: Seq<u32>) -> Seq<u32>
    recommends
        m.len() == 16,
{
    seq![
        m[2],
        m[6],
        m[3],
        m[10],
        m[7],
        m[0],
        m[4],
        m[13],
        m[1],
        m[11],
        m[12],
        m[5],
        m[9],
        m[14],
        m[15],
        m[8],
    ]
}

/// The low 32 bits of the block counter.
pub open spec fn spec_counter_low(counter: u64) -> u32 {
    (counter % 0x1_0000_0000) as u32
}

/// The high 32 bits of the block counter.
pub open spec fn spec_counter_high(counter: u64) -> u32 {
    (counter / 0x1_0000_0000) as u32
}

/// The 16-word state a compression starts from.
pub open spec fn spec_state_init(cv: Seq<u32>, block_len: u8, counter: u64, flags: u8) -> Seq<u32>
    recommends
        cv.len() == 8,
{
    seq![
        cv[0],
        cv[1],
        cv[2],
        cv[3],
        cv[4],
        cv[5],
        cv[6],
        cv[7],
        IV_0,
        IV_1,
        IV_2,
        IV_3,
        spec_counter_low(counter),
        spec_counter_high(counter),
        block_len as u32,
        flags as u32,
    ]
}

/// The full compression: seven rounds over the initial state, then the
/// feed-forward that folds the two halves of the state together.
#[verifier::opaque]
pub open spec fn spec_compress(
    cv: Seq<u32>,
    m: Seq<u32>,
    block_len: u8,
    counter: u64,
    flags: u8,
) -> Seq<u32>
    recommends
        cv.len() == 8,
        m.len() == 16,
{
    let v1 = spec_round(spec_state_init(cv, block_len, counter, flags), m);
    let m1 = spec_permute(m);
    let v2 = spec_round(v1, m1);
    let m2 = spec_permute(m1);
    let v3 = spec_round(v2, m2);
    let m3 = spec_permute(m2);
    let v4 = spec_round(v3, m3);
    let m4 = spec_permute(m3);
    let v5 = spec_round(v4, m4);
    let m5 = spec_permute(m4);
    let v6 = spec_round(v5, m5);
    let m6 = spec_permute(m5);
    let v7 = spec_round(v6, m6);
    Seq::new(
        16,
        |i: int|
            if i < 8 {
                v7[i] ^ v7[i + 8]
            } else {
                v7[i] ^ cv[i - 8]
            },
    )
}

/// The chaining value a compression step leaves behind: the first 8 words
/// of the compressed state, with the block given as bytes.
pub open spec fn spec_compress_chain(
    cv: Seq<u32>,
    block: Seq<u8>,
    block_len: u8,
    counter: u64,
    flags: u8,
) -> Seq<u32>
    recommends
        cv.len() == 8,
        block.len() == 64,
{
    spec_compress(cv, words_of_block(block), block_len, counter, flags).subrange(0, 8)
}

/// The 64 bytes of extended output of a compression step.
pub open spec fn spec_compress_xof(
    cv: Seq<u32>,
    block: Seq<u8>,
    block_len: u8,
    counter: u64,
    flags: u8,
) -> Seq<u8>
    recommends
        cv.len() == 8,
        block.len() == 64,
{
    bytes_of_words(spec_compress(cv, words_of_block(block), block_len, counter, flags))
}

/// The extended output starts with the bytes of the chaining value that an
/// in-place compression of the same inputs would leave behind.
pub proof fn lemma_xof_prefix(cv: Seq<u32>, block: Seq<u8>, block_len: u8, counter: u64, flags: u8)
    ensures
        spec_compress_xof(cv, block, block_len, counter, flags).subrange(0, 32) == bytes_of_words(
            spec_compress_chain(cv, block, block_len, counter, flags),
        ),
{
    reveal(spec_compress);
    lemma_bytes_of_words_prefix(spec_compress(cv, words_of_block(block), block_len, counter, flags));
}

fn rotate_right(x: u32, n: u32) -> (r: u32)
    requires
        0 < n < 32,
    ensures
        r == rotr(x, n),
{
    (x >> n) | (x << (32 - n))
}

fn mix(v: &mut [u32; 16], a: usize, b: usize, c: usize, d: usize, mx: u32, my: u32)
    requires
        a < 16,
        b < 16,
        c < 16,
        d < 16,
        a != b,
        a != c,
        a != d,
        b != c,
        b != d,
        c != d,
    ensures
        final(v)@ == spec_mix(old(v)@, a as int, b as int, c as int, d as int, mx, my),
{
    v[a] = v[a].wrapping_add(v[b]).wrapping_add(mx);
    v[d] = rotate_right(v[d] ^ v[a], 16);
    v[c] = v[c].wrapping_add(v[d]);
    v[b] = rotate_right(v[b] ^ v[c], 12);
    v[a] = v[a].wrapping_add(v[b]).wrapping_add(my);
    v[d] = rotate_right(v[d] ^ v[a], 8);
    v[c] = v[c].wrapping_add(v[d]);
    v[b] = rotate_right(v[b] ^ v[c], 7);
    proof {
        reveal(spec_mix);
        assert(v@ =~= spec_mix(old(v)@, a as int, b as int, c as int, d as int, mx, my));
    }
}

fn round(v: &mut [u32; 16], m: &[u32; 16])
    ensures
        final(v)@ == spec_round(old(v)@, m@),
{
    mix(v, 0, 4, 8, 12, m[0], m[1]);
    mix(v, 1, 5, 9, 13, m[2], m[3]);
    mix(v, 2, 6, 10, 14, m[4], m[5]);
    mix(v, 3, 7, 11, 15, m[6], m[7]);
    mix(v, 0, 5, 10, 15, m[8], m[9]);
    mix(v, 1, 6, 11, 12, m[10], m[11]);
    mix(v, 2, 7, 8, 13, m[12], m[13]);
    mix(v, 3, 4, 9, 14, m[14], m[15]);
    proof {
        reveal(spec_round);
    }
}

fn permute(m: &[u32; 16]) -> (r: [u32; 16])
    ensures
        r@ == spec_permute(m@),
{
    let r: [u32; 16] = [
        m[2],
        m[6],
        m[3],
        m[10],
        m[7],
        m[0],
        m[4],
        m[13],
        m[1],
        m[11],
        m[12],
        m[5],
        m[9],
        m[14],
        m[15],
        m[8],
    ];
    proof {
        reveal(spec_permute);
        assert(r@ =~= spec_permute(m@));
    }
    r
}

fn counter_low(counter: u64) -> (r: u32)
    ensures
        r == spec_counter_low(counter),
{
    (counter % 0x1_0000_0000) as u32
}

fn counter_high(counter: u64) -> (r: u32)
    ensures
        r == spec_counter_high(counter),
{
    (counter / 0x1_0000_0000) as u32
}

fn compress_core(cv: &CVWords, m: &[u32; 16], block_len: u8, counter: u64, flags: u8) -> (out: [u32;
    16])
    ensures
        out@ == spec_compress(cv@, m@, block_len, counter, flags),
{
    let mut v: [u32; 16] = [
        cv[0],
        cv[1],
        cv[2],
        cv[3],
        cv[4],
        cv[5],
        cv[6],
        cv[7],
        IV_0,
        IV_1,
        IV_2,
        IV_3,
        counter_low(counter),
        counter_high(counter),
        block_len as u32,
        flags as u32,
    ];
    proof {
        assert(v@ =~= spec_state_init(cv@, block_len, counter, flags));
    }
    let mut msg: [u32; 16] = *m;
    round(&mut v, &msg);
    msg = permute(&msg);
    round(&mut v, &msg);
    msg = permute(&msg);
    round(&mut v, &msg);
    msg = permute(&msg);
    round(&mut v, &msg);
    msg = permute(&msg);
    round(&mut v, &msg);
    msg = permute(&msg);
    round(&mut v, &msg);
    msg = permute(&msg);
    round(&mut v, &msg);
    let ghost v7 = v@;
    for i in 0..8
        invariant
            v@.len() == 16,
            v7.len() == 16,
            forall|k: int| 0 <= k < i ==> v@[k] == (v7[k] ^ v7[k + 8]),
            forall|k: int| 0 <= k < i ==> v@[k + 8] == (v7[k + 8] ^ cv@[k]),
            forall|k: int| i <= k < 8 ==> v@[k] == v7[k],
            forall|k: int| 8 + i <= k < 16 ==> v@[k] == v7[k],
    {
        let t = v[i] ^ v[i + 8];
        v[i + 8] = v[i + 8] ^ cv[i];
        v[i] = t;
    }
    proof {
        reveal(spec_compress);
        assert(v@ =~= spec_compress(cv@, m@, block_len, counter, flags));
    }
    v
}

/// Advance the chaining value `cv` by one block: overwrite it with the
/// first 8 words of the compressed state.
pub fn compress_in_place(cv: &mut CVWords, block: &[u8; 64], block_len: u8, offset: u64, flags: u8)
    requires
        block_len <= 64,
    ensures
        final(cv)@ == spec_compress_chain(old(cv)@, block@, block_len, offset, flags),
{
    let key: CVWords = *cv;
    let m = block_words(block);
    let out = compress_core(&key, &m, block_len, offset, flags);
    for i in 0..8
        invariant
            forall|k: int| 0 <= k < i ==> cv@[k] == out@[k],
            out@ == spec_compress(key@, m@, block_len, offset, flags),
    {
        cv[i] = out[i];
    }
    proof {
        assert(cv@ =~= spec_compress_chain(key@, block@, block_len, offset, flags));
    }
}

/// Compress without touching `cv`: return all 16 words of the compressed
/// state as 64 bytes of extended output.
pub fn compress_xof(cv: &CVWords, block: &[u8; 64], block_len: u8, offset: u64, flags: u8) -> (out:
    [u8; 64])
    requires
        block_len <= 64,
    ensures
        out@ == spec_compress_xof(cv@, block@, block_len, offset, flags),
{
    let m = block_words(block);
    let state = compress_core(cv, &m, block_len, offset, flags);
    words_to_bytes16(&state)
}

} // verus!
