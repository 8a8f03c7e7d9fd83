//! The block function: one 64-byte keystream block from key, nonce and block
//! counter.
use crate::model::{
    add32, block, block_words, constants, double_round, double_rounds, initial_state, le_byte,
    le_bytes, le_words, quarter_round, quarter_round_at, rotl32, word_from_le, BLOCK_LEN,
    DOUBLE_ROUNDS, KEY_LEN, NONCE_LEN,
};
use vstd::prelude::*;

verus! {

/// Reads the little-endian word at `bytes[offset..offset + 4]`.
fn read32_le(bytes: &[u8], offset: usize) -> (w: u32)
    requires
        offset + 4 <= bytes@.len(),
    ensures
        w == word_from_le(
            bytes@[offset as int],
            bytes@[offset + 1],
            bytes@[offset + 2],
            bytes@[offset + 3],
        ),
{
    let b0: u32 = bytes[offset] as u32;
    let b1: u32 = bytes[offset + 1] as u32;
    let b2: u32 = bytes[offset + 2] as u32;
    let b3: u32 = bytes[offset + 3] as u32;
    assert((b0 | (b1 << 8) | (b2 << 16) | (b3 << 24)) == b0 + 0x100 * b1 + 0x1_0000 * b2
        + 0x100_0000 * b3) by (bit_vector)
        requires
            b0 < 0x100,
            b1 < 0x100,
            b2 < 0x100,
            b3 < 0x100,
    ;
    b0 | (b1 << 8) | (b2 << 16) | (b3 << 24)
}

/// Writes `w` in little-endian order to `buf[offset..offset + 4]`.
fn write32_le(w: u32, buf: &mut [u8], offset: usize)
    requires
        offset + 4 <= old(buf)@.len(),
    ensures
        final(buf)@.len() == old(buf)@.len(),
        forall|j: int|
            0 <= j < old(buf)@.len() ==> final(buf)@[j] == if offset <= j < offset + 4 {
                le_byte(w, j - offset)
            } else {
                old(buf)@[j]
            },
{
    assert(w & 0xff == w % 0x100 && (w >> 8) & 0xff == w / 0x100 % 0x100 && (w >> 16) & 0xff == w
        / 0x1_0000 % 0x100 && (w >> 24) & 0xff == w / 0x100_0000 % 0x100) by (bit_vector);
    buf[offset] = (w & 0xff) as u8;
    buf[offset + 1] = ((w >> 8) & 0xff) as u8;
    buf[offset + 2] = ((w >> 16) & 0xff) as u8;
    buf[offset + 3] = ((w >> 24) & 0xff) as u8;
}

/// Rotates `x` to the left by `r` bits.
fn rotate_left(x: u32, r: u32) -> (y: u32)
    requires
        0 < r < 32,
    ensures
        y == rotl32(x, r),
{
    (x << r) | (x >> (32 - r))
}

/// Adds two words modulo 2^32.
fn add_words(x: u32, y: u32) -> (z: u32)
    ensures
        z == add32(x, y),
{
    x.wrapping_add(y)
}

/// The quarter-round on four words.
fn quarter_round_words(a: u32, b: u32, c: u32, d: u32) -> (q: (u32, u32, u32, u32))
    ensures
        q == quarter_round(a, b, c, d),
{
    let a = add_words(a, b);
    let d = rotate_left(d ^ a, 16);
    let c = add_words(c, d);
    let b = rotate_left(b ^ c, 12);
    let a = add_words(a, b);
    let d = rotate_left(d ^ a, 8);
    let c = add_words(c, d);
    let b = rotate_left(b ^ c, 7);
    (a, b, c, d)
}

/// The quarter-round on the words of `state` at four distinct indices.
fn quarter_round_in_place(state: &mut [u32; 16], a: usize, b: usize, c: usize, d: usize)
    requires
        a < 16,
        b < 16,
        c < 16,
        d < 16,
        a != b,
        a != c,
        a != d,
        b != c,
        b != d,
        c != d,
    ensures
        final(state)@ == quarter_round_at(old(state)@, a as int, b as int, c as int, d as int),
{
    let q = quarter_round_words(state[a], state[b], state[c], state[d]);
    state[a] = q.0;
    state[b] = q.1;
    state[c] = q.2;
    state[d] = q.3;
}

/// One double-round on `state`: four column rounds, then four diagonal rounds.
fn double_round_in_place(state: &mut [u32; 16])
    ensures
        final(state)@ == double_round(old(state)@),
{
    proof {
        reveal(double_round);
    }
    quarter_round_in_place(state, 0, 4, 8, 12);
    quarter_round_in_place(state, 1, 5, 9, 13);
    quarter_round_in_place(state, 2, 6, 10, 14);
    quarter_round_in_place(state, 3, 7, 11, 15);
    quarter_round_in_place(state, 0, 5, 10, 15);
    quarter_round_in_place(state, 1, 6, 11, 12);
    quarter_round_in_place(state, 2, 7, 8, 13);
    quarter_round_in_place(state, 3, 4, 9, 14);
}

/// The state that the block function starts from: constants, key, block
/// counter, nonce.
fn load_state(key: &[u8], nonce: &[u8], n: u32) -> (state: [u32; 16])
    requires
        key@.len() == KEY_LEN,
        nonce@.len() == NONCE_LEN,
    ensures
        state@ == initial_state(key@, nonce@, n),
{
    let mut state: [u32; 16] = [0; 16];
    // ChaCha20 constants
    state[0] = 0x61707865;
    state[1] = 0x3320646e;
    state[2] = 0x79622d32;
    state[3] = 0x6b206574;
    // Read key and nonce
    let mut i: usize = 0;
    while i < 8
        invariant
            i <= 8,
            key@.len() == KEY_LEN,
            forall|k: int| 0 <= k < 4 ==> state@[k] == constants()[k],
            forall|k: int| 0 <= k < i ==> state@[4 + k] == le_words(key@)[k],
        decreases 8 - i,
    {
        state[4 + i] = read32_le(key, 4 * i);
        i += 1;
    }
    state[12] = n;
    let mut i: usize = 0;
    while i < 3
        invariant
            i <= 3,
            nonce@.len() == NONCE_LEN,
            forall|k: int| 0 <= k < 4 ==> state@[k] == constants()[k],
            forall|k: int| 0 <= k < 8 ==> state@[4 + k] == le_words(key@)[k],
            state@[12] == n,
            forall|k: int| 0 <= k < i ==> state@[13 + k] == le_words(nonce@)[k],
        decreases 3 - i,
    {
        state[13 + i] = read32_le(nonce, 4 * i);
        i += 1;
    }
    assert(state@ =~= initial_state(key@, nonce@, n));
    state
}

/// Computes the `n`th ChaCha20 block with `key` and `nonce` into the first 64
/// bytes of `buf`; the bytes after them stay as they are.
pub fn chacha20(key: &[u8], nonce: &[u8], n: u32, buf: &mut [u8])
    requires
        key@.len() == KEY_LEN,
        nonce@.len() == NONCE_LEN,
        old(buf)@.len() >= BLOCK_LEN,
    ensures
        final(buf)@ == block(key@, nonce@, n) + old(buf)@.skip(BLOCK_LEN as int),
{
    let initial = load_state(key, nonce, n);
    let mut state = initial;

    // Compute double-rounds
    let mut round: usize = 0;
    while round < DOUBLE_ROUNDS
        invariant
            round <= DOUBLE_ROUNDS,
            state@ == double_rounds(initial@, round as nat),
        decreases DOUBLE_ROUNDS - round,
    {
        double_round_in_place(&mut state);
        round += 1;
    }

    // Finalize block
    let ghost words = block_words(key@, nonce@, n);
    let mut i: usize = 0;
    while i < 16
        invariant
            i <= 16,
            buf@.len() == old(buf)@.len(),
            buf@.len() >= BLOCK_LEN,
            words.len() == 16,
            forall|k: int| 0 <= k < 16 ==> words[k] == add32(state@[k], initial@[k]),
            forall|k: int, t: int|
                0 <= k < i && 0 <= t < 4 ==> buf@[4 * k + t] == #[trigger] le_byte(words[k], t),
            forall|j: int| 4 * i <= j < buf@.len() ==> buf@[j] == old(buf)@[j],
        decreases 16 - i,
    {
        let word = add_words(state[i], initial[i]);
        write32_le(word, buf, 4 * i);
        i += 1;
    }
    proof {
        reveal(block);
        assert forall|j: int| 0 <= j < BLOCK_LEN implies buf@[j] == le_bytes(words)[j] by {
            let k = j / 4;
            let t = j % 4;
            assert(buf@[4 * k + t] == le_byte(words[k], t));
        }
        assert(buf@ =~= block(key@, nonce@, n) + old(buf)@.skip(BLOCK_LEN as int));
    }
}

} // verus!
