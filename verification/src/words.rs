//! Little-endian conversions between byte buffers and 32-bit words.
use vstd::prelude::*;

verus! {

/// The little-endian 32-bit word whose bytes start at offset `j` of `b`.
pub open spec fn le_word_at(b: Seq<u8>, j: int) -> u32
    recommends
        0 <= j,
        j + 4 <= b.len(),
{
    (b[j] + b[j + 1] * 0x100 + b[j + 2] * 0x1_0000 + b[j + 3] * 0x100_0000) as u32
}

/// A 64-byte block read as 16 little-endian words.
pub open spec fn words_of_block(b: Seq<u8>) -> Seq<u32>
    recommends
        b.len() == 64,
{
    Seq::new(16, |i: int| le_word_at(b, 4 * i))
}

/// Byte `k` (0 = least significant) of the word `x`.
pub open spec fn le_byte_of_word(x: u32, k: int) -> u8
    recommends
        0 <= k < 4,
{
    if k == 0 {
        (x % 0x100) as u8
    } else if k == 1 {
        ((x / 0x100) % 0x100) as u8
    } else if k == 2 {
        ((x / 0x1_0000) % 0x100) as u8
    } else {
        ((x / 0x100_0000) % 0x100) as u8
    }
}

/// The words of `w` laid out as little-endian bytes, in word order.
pub open spec fn bytes_of_words(w: Seq<u32>) -> Seq<u8> {
    Seq::new(4 * w.len(), |j: int| le_byte_of_word(w[j / 4], j % 4))
}

/// Serialising a 16-word state and serialising its first 8 words agree on
/// the first 32 bytes.
pub proof fn lemma_bytes_of_words_prefix(w: Seq<u32>)
    requires
        w.len() == 16,
    ensures
        bytes_of_words(w.subrange(0, 8)) == bytes_of_words(w).subrange(0, 32),
{
    assert forall|j: int| 0 <= j < 32 implies bytes_of_words(w.subrange(0, 8))[j] == bytes_of_words(
        w,
    ).subrange(0, 32)[j] by {
        assert(0 <= j / 4 < 8);
    }
    assert(bytes_of_words(w.subrange(0, 8)) =~= bytes_of_words(w).subrange(0, 32));
}

/// Read the 16 message words of one 64-byte block.
pub fn block_words(block: &[u8; 64]) -> (m: [u32; 16])
    ensures
        m@ == words_of_block(block@),
{
    let mut m: [u32; 16] = [0u32; 16];
    for i in 0..16
        invariant
            forall|i2: int| 0 <= i2 < i ==> m@[i2] == le_word_at(block@, 4 * i2),
    {
        let j = 4 * i;
        m[i] = block[j] as u32 + (block[j + 1] as u32) * 0x100 + (block[j + 2] as u32) * 0x1_0000
            + (block[j + 3] as u32) * 0x100_0000;
    }
    proof {
        assert(m@ =~= words_of_block(block@));
    }
    m
}

/// Lay 16 words out as 64 little-endian bytes.
pub fn words_to_bytes16(w: &[u32; 16]) -> (out: [u8; 64])
    ensures
        out@ == bytes_of_words(w@),
{
    let mut out: [u8; 64] = [0u8; 64];
    for i in 0..16
        invariant
            forall|j: int| 0 <= j < 4 * i ==> out@[j] == le_byte_of_word(w@[j / 4], j % 4),
    {
        let x = w[i];
        out[4 * i] = (x % 0x100) as u8;
        out[4 * i + 1] = ((x / 0x100) % 0x100) as u8;
        out[4 * i + 2] = ((x / 0x1_0000) % 0x100) as u8;
        out[4 * i + 3] = ((x / 0x100_0000) % 0x100) as u8;
        proof {
            assert forall|j: int| 0 <= j < 4 * (i + 1) implies out@[j] == le_byte_of_word(
                w@[j / 4],
                j % 4,
            ) by {
                if 4 * i <= j {
                    assert(j / 4 == i);
                }
            }
        }
    }
    proof {
        assert(out@ =~= bytes_of_words(w@));
    }
    out
}

/// Write the 8 words of `w` as 32 little-endian bytes into `out` at `pos`,
/// leaving every other byte of `out` unchanged.
pub fn store_words8(out: &mut Vec<u8>, pos: usize, w: &[u32; 8])
    requires
        pos + 32 <= old(out).len(),
    ensures
        final(out)@.len() == old(out)@.len(),
        final(out)@.subrange(pos as int, pos + 32) == bytes_of_words(w@),
        forall|j: int| 0 <= j < pos ==> final(out)@[j] == old(out)@[j],
        forall|j: int| pos + 32 <= j < final(out)@.len() ==> final(out)@[j] == old(out)@[j],
{
    let n = out.len();
    for i in 0..8
        invariant
            out@.len() == n,
            pos + 32 <= out@.len(),
            out@.len() == old(out)@.len(),
            forall|j: int| 0 <= j < pos ==> out@[j] == old(out)@[j],
            forall|j: int| pos + 4 * i <= j < out@.len() ==> out@[j] == old(out)@[j],
            forall|j: int|
                pos <= j < pos + 4 * i ==> out@[j] == le_byte_of_word(
                    w@[(j - pos) / 4],
                    (j - pos) % 4,
                ),
    {
        let x = w[i];
        out[pos + 4 * i] = (x % 0x100) as u8;
        out[pos + 4 * i + 1] = ((x / 0x100) % 0x100) as u8;
        out[pos + 4 * i + 2] = ((x / 0x1_0000) % 0x100) as u8;
        out[pos + 4 * i + 3] = ((x / 0x100_0000) % 0x100) as u8;
        proof {
            assert forall|j: int| pos <= j < pos + 4 * (i + 1) implies out@[j] == le_byte_of_word(
                w@[(j - pos) / 4],
                (j - pos) % 4,
            ) by {
                if pos + 4 * i <= j {
                    assert((j - pos) / 4 == i);
                }
            }
        }
    }
    proof {
        assert(out@.subrange(pos as int, pos + 32) =~= bytes_of_words(w@));
    }
}

} // verus!
