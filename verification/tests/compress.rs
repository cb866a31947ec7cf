use blake3_core::compress::CHUNK_END;
use blake3_core::compress::CHUNK_START;
use blake3_core::compress::IV_0;
use blake3_core::compress::IV_1;
use blake3_core::compress::IV_2;
use blake3_core::compress::IV_3;
use blake3_core::compress::IV_4;
use blake3_core::compress::IV_5;
use blake3_core::compress::IV_6;
use blake3_core::compress::IV_7;
use blake3_core::compress::ROOT;
use blake3_core::compress_in_place;
use blake3_core::compress_xof;

fn iv() -> [u32; 8] {
    [IV_0, IV_1, IV_2, IV_3, IV_4, IV_5, IV_6, IV_7]
}

fn cv_bytes(cv: &[u32; 8]) -> [u8; 32] {
    let mut out = [0u8; 32];
    for i in 0..8 {
        out[4 * i..4 * i + 4].copy_from_slice(&cv[i].to_le_bytes());
    }
    out
}

fn painted_block(seed: u8) -> [u8; 64] {
    let mut block = [0u8; 64];
    for (i, b) in block.iter_mut().enumerate() {
        *b = (seed as usize).wrapping_mul(31).wrapping_add(i.wrapping_mul(7).wrapping_add(3)) as u8;
    }
    block
}

#[test]
fn test_compress() {
    let block = painted_block(9);
    let initial: [u32; 8] = [
        0x0a0b_0c0d,
        0x1a1b_1c1d,
        0x2a2b_2c2d,
        0x3a3b_3c3d,
        0x4a4b_4c4d,
        0x5a5b_5c5d,
        0x6a6b_6c6d,
        0x7a7b_7c7d,
    ];
    let offset: u64 = 99 * (1 << 30);
    let flags: u8 = CHUNK_END | ROOT;

    let mut cv = initial;
    compress_in_place(&mut cv, &block, 64, offset, flags);
    let xof = compress_xof(&initial, &block, 64, offset, flags);

    // The extended output begins with the in-place result.
    assert_eq!(xof[0..32], cv_bytes(&cv)[..]);

    // Both operations are pure: a second run reproduces the first.
    let mut cv2 = initial;
    compress_in_place(&mut cv2, &block, 64, offset, flags);
    assert_eq!(cv, cv2);
    let xof2 = compress_xof(&initial, &block, 64, offset, flags);
    assert_eq!(xof, xof2);
}

#[test]
fn xof_prefix_at_partial_block() {
    // Prefix consistency also with a block that is only partly meaningful.
    let block = painted_block(4);
    let initial = iv();
    let mut cv = initial;
    compress_in_place(&mut cv, &block, 17, 3, CHUNK_START);
    let xof = compress_xof(&initial, &block, 17, 3, CHUNK_START);
    assert_eq!(xof[0..32], cv_bytes(&cv)[..]);
    // The second 32 bytes are extra keystream, not a copy of the first.
    assert_ne!(xof[32..64], xof[0..32]);
}

#[test]
fn known_vector_empty_root() {
    // Hashing no bytes at all: one all-zero block of length 0, counter 0,
    // compressed from the initialisation vector as the first, last and
    // root block of its chunk. The digest is the published one for the
    // empty message.
    let expected: [u8; 32] = [
        0xaf, 0x13, 0x49, 0xb9, 0xf5, 0xf9, 0xa1, 0xa6, 0xa0, 0x40, 0x4d, 0xea, 0x36, 0xdc, 0xc9,
        0x49, 0x9b, 0xcb, 0x25, 0xc9, 0xad, 0xc1, 0x12, 0xb7, 0xcc, 0x9a, 0x93, 0xca, 0xe4, 0x1f,
        0x32, 0x62,
    ];
    let block = [0u8; 64];
    let mut cv = iv();
    compress_in_place(&mut cv, &block, 0, 0, CHUNK_START | CHUNK_END | ROOT);
    assert_eq!(cv_bytes(&cv), expected);

    let xof = compress_xof(&iv(), &block, 0, 0, CHUNK_START | CHUNK_END | ROOT);
    assert_eq!(xof[0..32], expected[..]);
}

#[test]
fn known_vector_one_byte_root() {
    // The reference digest of the one-byte message 0x00: a single block
    // of length 1, counter 0, compressed from the initialisation vector
    // as the first, last and root block of its chunk.
    let expected: [u8; 32] = [
        0x2d, 0x3a, 0xde, 0xdf, 0xf1, 0x1b, 0x61, 0xf1, 0x4c, 0x88, 0x6e, 0x35, 0xaf, 0xa0, 0x36,
        0x73, 0x6d, 0xcd, 0x87, 0xa7, 0x4d, 0x27, 0xb5, 0xc1, 0x51, 0x02, 0x25, 0xd0, 0xf5, 0x92,
        0xe2, 0x13,
    ];
    let block = [0u8; 64];
    let mut cv = iv();
    compress_in_place(&mut cv, &block, 1, 0, CHUNK_START | CHUNK_END | ROOT);
    assert_eq!(cv_bytes(&cv), expected);
}

#[test]
fn counter_sensitivity() {
    let block = painted_block(1);
    let initial = iv();
    let mut outputs: Vec<[u8; 32]> = Vec::new();
    // Adjacent counters, and counters that differ only in the high word.
    for offset in [0u64, 1, 2, 3, 1 << 32, (1 << 32) + 1, u64::MAX] {
        let mut cv = initial;
        compress_in_place(&mut cv, &block, 64, offset, CHUNK_START);
        outputs.push(cv_bytes(&cv));
    }
    for a in 0..outputs.len() {
        for b in 0..a {
            assert_ne!(outputs[a], outputs[b]);
        }
    }
}
