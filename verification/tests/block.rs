use chacha20_ietf::chacha20;

fn key_00_to_1f() -> Vec<u8> {
    let mut key: Vec<u8> = Vec::new();
    let mut b: u8 = 0;
    while b < 32 {
        key.push(b);
        b += 1;
    }
    key
}

const NONCE_BLOCK: [u8; 12] = [0, 0, 0, 0x09, 0, 0, 0, 0x4a, 0, 0, 0, 0];
const NONCE_STREAM: [u8; 12] = [0, 0, 0, 0, 0, 0, 0, 0x4a, 0, 0, 0, 0];

const BLOCK_VECTOR: [u8; 64] = [
    0x10, 0xf1, 0xe7, 0xe4, 0xd1, 0x3b, 0x59, 0x15, 0x50, 0x0f, 0xdd, 0x1f, 0xa3, 0x20, 0x71, 0xc4,
    0xc7, 0xd1, 0xf4, 0xc7, 0x33, 0xc0, 0x68, 0x03, 0x04, 0x22, 0xaa, 0x9a, 0xc3, 0xd4, 0x6c, 0x4e,
    0xd2, 0x82, 0x64, 0x46, 0x07, 0x9f, 0xaa, 0x09, 0x14, 0xc2, 0xd7, 0x05, 0xd9, 0x8b, 0x02, 0xa2,
    0xb5, 0x12, 0x9c, 0xd1, 0xde, 0x16, 0x4e, 0xb9, 0xcb, 0xd0, 0x83, 0xe8, 0xa2, 0x50, 0x3c, 0x4e,
];

const STREAM_BLOCK_1: [u8; 64] = [
    0x22, 0x4f, 0x51, 0xf3, 0x40, 0x1b, 0xd9, 0xe1, 0x2f, 0xde, 0x27, 0x6f, 0xb8, 0x63, 0x1d, 0xed,
    0x8c, 0x13, 0x1f, 0x82, 0x3d, 0x2c, 0x06, 0xe2, 0x7e, 0x4f, 0xca, 0xec, 0x9e, 0xf3, 0xcf, 0x78,
    0x8a, 0x3b, 0x0a, 0xa3, 0x72, 0x60, 0x0a, 0x92, 0xb5, 0x79, 0x74, 0xcd, 0xed, 0x2b, 0x93, 0x34,
    0x79, 0x4c, 0xba, 0x40, 0xc6, 0x3e, 0x34, 0xcd, 0xea, 0x21, 0x2c, 0x4c, 0xf0, 0x7d, 0x41, 0xb7,
];

const STREAM_BLOCK_2: [u8; 64] = [
    0x69, 0xa6, 0x74, 0x9f, 0x3f, 0x63, 0x0f, 0x41, 0x22, 0xca, 0xfe, 0x28, 0xec, 0x4d, 0xc4, 0x7e,
    0x26, 0xd4, 0x34, 0x6d, 0x70, 0xb9, 0x8c, 0x73, 0xf3, 0xe9, 0xc5, 0x3a, 0xc4, 0x0c, 0x59, 0x45,
    0x39, 0x8b, 0x6e, 0xda, 0x1a, 0x83, 0x2c, 0x89, 0xc1, 0x67, 0xea, 0xcd, 0x90, 0x1d, 0x7e, 0x2b,
    0xf3, 0x63, 0x74, 0x03, 0x73, 0x20, 0x1a, 0xa1, 0x88, 0xfb, 0xbc, 0xe8, 0x39, 0x91, 0xc4, 0xed,
];

const ZERO_KEY_BLOCK_0: [u8; 64] = [
    0x76, 0xb8, 0xe0, 0xad, 0xa0, 0xf1, 0x3d, 0x90, 0x40, 0x5d, 0x6a, 0xe5, 0x53, 0x86, 0xbd, 0x28,
    0xbd, 0xd2, 0x19, 0xb8, 0xa0, 0x8d, 0xed, 0x1a, 0xa8, 0x36, 0xef, 0xcc, 0x8b, 0x77, 0x0d, 0xc7,
    0xda, 0x41, 0x59, 0x7c, 0x51, 0x57, 0x48, 0x8d, 0x77, 0x24, 0xe0, 0x3f, 0xb8, 0xd8, 0x4a, 0x37,
    0x6a, 0x43, 0xb8, 0xf4, 0x15, 0x18, 0xa1, 0x1c, 0xc3, 0x87, 0xb6, 0x69, 0xb2, 0xee, 0x65, 0x86,
];

const ZERO_KEY_BLOCK_1: [u8; 64] = [
    0x9f, 0x07, 0xe7, 0xbe, 0x55, 0x51, 0x38, 0x7a, 0x98, 0xba, 0x97, 0x7c, 0x73, 0x2d, 0x08, 0x0d,
    0xcb, 0x0f, 0x29, 0xa0, 0x48, 0xe3, 0x65, 0x69, 0x12, 0xc6, 0x53, 0x3e, 0x32, 0xee, 0x7a, 0xed,
    0x29, 0xb7, 0x21, 0x76, 0x9c, 0xe6, 0x4e, 0x43, 0xd5, 0x71, 0x33, 0xb0, 0x74, 0xd8, 0x39, 0xd5,
    0x31, 0xed, 0x1f, 0x28, 0x51, 0x0a, 0xfb, 0x45, 0xac, 0xe1, 0x0a, 0x1f, 0x4b, 0x79, 0x4d, 0x6f,
];

const LAST_COUNTER_BLOCK: [u8; 64] = [
    0x6d, 0x29, 0xda, 0x5b, 0xd1, 0x6a, 0x47, 0x29, 0x10, 0xe8, 0xc0, 0xbd, 0xb4, 0x7e, 0xdf, 0xc8,
    0x49, 0x9c, 0x32, 0x22, 0xcc, 0x16, 0x8d, 0x37, 0x21, 0x74, 0x7f, 0xc2, 0xb2, 0x12, 0x66, 0xd9,
    0xf1, 0x5c, 0x83, 0x39, 0xf1, 0x0f, 0x35, 0x4d, 0x16, 0xcc, 0x9b, 0x8e, 0x11, 0x8e, 0xb1, 0x82,
    0xbf, 0x85, 0x8c, 0xe5, 0x71, 0x8f, 0xa4, 0xe7, 0x63, 0x89, 0xea, 0x4e, 0xb5, 0x0a, 0x94, 0x75,
];

fn block_of(key: &[u8], nonce: &[u8], n: u32) -> Vec<u8> {
    let mut buf: Vec<u8> = vec![0u8; 64];
    chacha20(key, nonce, n, &mut buf);
    buf
}

#[test]
fn block_single_block_keystream_vector() {
    let key = key_00_to_1f();
    assert_eq!(block_of(&key, &NONCE_BLOCK, 1), BLOCK_VECTOR.to_vec());
}

#[test]
fn block_of_encryption_vector_counter_1() {
    let key = key_00_to_1f();
    assert_eq!(block_of(&key, &NONCE_STREAM, 1), STREAM_BLOCK_1.to_vec());
}

#[test]
fn block_of_encryption_vector_counter_2() {
    let key = key_00_to_1f();
    assert_eq!(block_of(&key, &NONCE_STREAM, 2), STREAM_BLOCK_2.to_vec());
}

#[test]
fn block_of_zero_key_and_nonce() {
    let key = [0u8; 32];
    let nonce = [0u8; 12];
    assert_eq!(block_of(&key, &nonce, 0), ZERO_KEY_BLOCK_0.to_vec());
    assert_eq!(block_of(&key, &nonce, 1), ZERO_KEY_BLOCK_1.to_vec());
}

#[test]
fn block_of_last_counter() {
    let key = key_00_to_1f();
    assert_eq!(block_of(&key, &NONCE_STREAM, u32::MAX), LAST_COUNTER_BLOCK.to_vec());
}

#[test]
fn block_overwrites_what_the_buffer_held() {
    let key = key_00_to_1f();
    let mut buf: Vec<u8> = vec![0xa5u8; 64];
    chacha20(&key, &NONCE_BLOCK, 1, &mut buf);
    assert_eq!(buf, BLOCK_VECTOR.to_vec());
}

#[test]
fn block_leaves_bytes_after_the_first_64() {
    let key = key_00_to_1f();
    let mut buf: Vec<u8> = vec![0x5au8; 80];
    chacha20(&key, &NONCE_BLOCK, 1, &mut buf);
    assert_eq!(buf[..64].to_vec(), BLOCK_VECTOR.to_vec());
    assert_eq!(buf[64..].to_vec(), vec![0x5au8; 16]);
}

#[test]
fn block_is_deterministic() {
    let key = key_00_to_1f();
    let first = block_of(&key, &NONCE_STREAM, 7);
    let second = block_of(&key, &NONCE_STREAM, 7);
    assert_eq!(first, second);
}

#[test]
fn block_depends_on_counter() {
    let key = key_00_to_1f();
    assert_ne!(block_of(&key, &NONCE_STREAM, 1), block_of(&key, &NONCE_STREAM, 2));
    assert_ne!(block_of(&key, &NONCE_STREAM, 0), block_of(&key, &NONCE_STREAM, u32::MAX));
}

#[test]
fn block_reads_words_little_endian() {
    // With key and nonce all zero but for one byte, moving that byte inside
    // its word must give another block than moving it to the next word.
    let nonce = [0u8; 12];
    let mut key_a = [0u8; 32];
    key_a[0] = 1;
    let mut key_b = [0u8; 32];
    key_b[3] = 1;
    let mut key_c = [0u8; 32];
    key_c[4] = 1;
    let a = block_of(&key_a, &nonce, 0);
    let b = block_of(&key_b, &nonce, 0);
    let c = block_of(&key_c, &nonce, 0);
    assert_ne!(a, b);
    assert_ne!(a, c);
    assert_ne!(b, c);
    assert_ne!(a, ZERO_KEY_BLOCK_0.to_vec());
}

#[test]
fn block_changes_with_every_key_bit() {
    let key = key_00_to_1f();
    let base = block_of(&key, &NONCE_STREAM, 1);
    let mut changed: usize = 0;
    let mut bit: usize = 0;
    while bit < 256 {
        let mut flipped = key.clone();
        flipped[bit / 8] ^= 1u8 << (bit % 8);
        if block_of(&flipped, &NONCE_STREAM, 1) != base {
            changed += 1;
        }
        bit += 1;
    }
    assert!(changed * 100 >= 256 * 99);
    assert_eq!(changed, 256);
}

#[test]
fn block_changes_with_every_nonce_bit() {
    let key = key_00_to_1f();
    let base = block_of(&key, &NONCE_STREAM, 1);
    let mut changed: usize = 0;
    let mut bit: usize = 0;
    while bit < 96 {
        let mut flipped = NONCE_STREAM;
        flipped[bit / 8] ^= 1u8 << (bit % 8);
        if block_of(&key, &flipped, 1) != base {
            changed += 1;
        }
        bit += 1;
    }
    assert!(changed * 100 >= 96 * 99);
    assert_eq!(changed, 96);
}

#[test]
fn block_changes_with_key_bits_of_other_inputs() {
    // A second family of inputs: keys and nonces from a small generator.
    let mut seed: u32 = 0x2545_f491;
    let mut trials: usize = 0;
    let mut changed: usize = 0;
    let mut round: usize = 0;
    while round < 16 {
        let mut key = [0u8; 32];
        let mut nonce = [0u8; 12];
        for slot in key.iter_mut() {
            seed = seed.wrapping_mul(1_664_525).wrapping_add(1_013_904_223);
            *slot = (seed >> 24) as u8;
        }
        for slot in nonce.iter_mut() {
            seed = seed.wrapping_mul(1_664_525).wrapping_add(1_013_904_223);
            *slot = (seed >> 24) as u8;
        }
        let base = block_of(&key, &nonce, 0);
        let mut bit: usize = 0;
        while bit < 256 {
            let mut flipped = key;
            flipped[bit / 8] ^= 1u8 << (bit % 8);
            trials += 1;
            if block_of(&flipped, &nonce, 0) != base {
                changed += 1;
            }
            bit += 1;
        }
        let mut bit: usize = 0;
        while bit < 96 {
            let mut flipped = nonce;
            flipped[bit / 8] ^= 1u8 << (bit % 8);
            trials += 1;
            if block_of(&key, &flipped, 0) != base {
                changed += 1;
            }
            bit += 1;
        }
        round += 1;
    }
    assert_eq!(trials, 16 * 352);
    assert!(changed * 100 >= trials * 99);
}
