//! The mathematical definition of the ChaCha20 keystream in its IETF variant:
//! 32-bit word arithmetic, the quarter-round, the block function on a
//! 32-byte key, a 12-byte nonce and a 32-bit block counter, and the keystream
//! that the blocks form in counter order.
//!
//! Everything here is ghost code; the executable code elsewhere in the crate
//! is proved to compute exactly these functions.
use vstd::prelude::*;

verus! {

/// Number of bytes in a key.
pub const KEY_LEN: usize = 32;

/// Number of bytes in a nonce.
pub const NONCE_LEN: usize = 12;

/// Number of bytes in one keystream block.
pub const BLOCK_LEN: usize = 64;

/// Number of double-rounds in the block function (20 rounds).
pub const DOUBLE_ROUNDS: usize = 10;

/// The four constant words that open the state: the ASCII string
/// "expand 32-byte k", read as little-endian words.
pub open spec fn constants() -> Seq<u32> {
    seq![0x61707865u32, 0x3320646eu32, 0x79622d32u32, 0x6b206574u32]
}

/// Addition modulo 2^32.
pub open spec fn add32(x: u32, y: u32) -> u32 {
    ((x + y) % 0x1_0000_0000) as u32
}

/// Rotation of a 32-bit word to the left by `r` bits, for `0 < r < 32`.
pub open spec fn rotl32(x: u32, r: u32) -> u32 {
    (x << r) | (x >> ((32 - r) as u32))
}

/// The quarter-round on four words.
pub open spec fn quarter_round(a: u32, b: u32, c: u32, d: u32) -> (u32, u32, u32, u32) {
    let a = add32(a, b);
    let d = rotl32(d ^ a, 16);
    let c = add32(c, d);
    let b = rotl32(b ^ c, 12);
    let a = add32(a, b);
    let d = rotl32(d ^ a, 8);
    let c = add32(c, d);
    let b = rotl32(b ^ c, 7);
    (a, b, c, d)
}

/// The quarter-round applied to the words of `s` at the indices `a`, `b`, `c`
/// and `d`; every other word stays.
pub open spec fn quarter_round_at(s: Seq<u32>, a: int, b: int, c: int, d: int) -> Seq<u32> {
    let q = quarter_round(s[a], s[b], s[c], s[d]);
    s.update(a, q.0).update(b, q.1).update(c, q.2).update(d, q.3)
}

/// One double-round: the four column rounds, then the four diagonal rounds.
///
/// Opaque, to keep the eight quarter-rounds out of proofs that do not look
/// inside: `reveal(double_round)` brings the definition in.
#[verifier::opaque]
pub open spec fn double_round(s: Seq<u32>) -> Seq<u32> {
    let s = quarter_round_at(s, 0, 4, 8, 12);
    let s = quarter_round_at(s, 1, 5, 9, 13);
    let s = quarter_round_at(s, 2, 6, 10, 14);
    let s = quarter_round_at(s, 3, 7, 11, 15);
    let s = quarter_round_at(s, 0, 5, 10, 15);
    let s = quarter_round_at(s, 1, 6, 11, 12);
    let s = quarter_round_at(s, 2, 7, 8, 13);
    let s = quarter_round_at(s, 3, 4, 9, 14);
    s
}

/// `n` double-rounds in a row.
pub open spec fn double_rounds(s: Seq<u32>, n: nat) -> Seq<u32>
    decreases n,
{
    if n == 0 {
        s
    } else {
        double_round(double_rounds(s, (n - 1) as nat))
    }
}

/// The word that four bytes spell in little-endian order.
pub open spec fn word_from_le(b0: u8, b1: u8, b2: u8, b3: u8) -> u32 {
    (b0 + 0x100 * b1 + 0x1_0000 * b2 + 0x100_0000 * b3) as u32
}

/// The little-endian words of a byte string: word `i` is spelled by the bytes
/// `4 * i` to `4 * i + 3`. Bytes beyond the last full word are left out.
pub open spec fn le_words(bytes: Seq<u8>) -> Seq<u32> {
    Seq::new(
        bytes.len() / 4,
        |i: int| word_from_le(bytes[4 * i], bytes[4 * i + 1], bytes[4 * i + 2], bytes[4 * i + 3]),
    )
}

/// Byte `k` of a word in little-endian order, for `0 <= k < 4`.
pub open spec fn le_byte(w: u32, k: int) -> u8 {
    if k == 0 {
        (w % 0x100) as u8
    } else if k == 1 {
        (w / 0x100 % 0x100) as u8
    } else if k == 2 {
        (w / 0x1_0000 % 0x100) as u8
    } else {
        (w / 0x100_0000 % 0x100) as u8
    }
}

/// The bytes of a sequence of words, each word in little-endian order.
pub open spec fn le_bytes(words: Seq<u32>) -> Seq<u8> {
    Seq::new(4 * words.len(), |j: int| le_byte(words[j / 4], j % 4))
}

/// The state that the block function starts from: the constants, the eight
/// words of the key, the block counter, the three words of the nonce.
pub open spec fn initial_state(key: Seq<u8>, nonce: Seq<u8>, counter: u32) -> Seq<u32> {
    constants() + le_words(key) + seq![counter] + le_words(nonce)
}

/// The sixteen words of a keystream block: the initial state after twenty
/// rounds, with the initial state added to it word by word.
pub open spec fn block_words(key: Seq<u8>, nonce: Seq<u8>, counter: u32) -> Seq<u32> {
    let initial = initial_state(key, nonce, counter);
    let mixed = double_rounds(initial, DOUBLE_ROUNDS as nat);
    Seq::new(16, |i: int| add32(mixed[i], initial[i]))
}

/// The 64-byte keystream block of a 32-byte key, a 12-byte nonce and a block
/// counter: the words of `block_words`, each in little-endian order.
///
/// Opaque, since most proofs about the keystream need no more of a block than
/// its name: `reveal(block)` brings the definition in.
#[verifier::opaque]
pub open spec fn block(key: Seq<u8>, nonce: Seq<u8>, counter: u32) -> Seq<u8> {
    le_bytes(block_words(key, nonce, counter))
}

/// Whether a run of `len` bytes that starts at block `start` ends before the
/// block counter leaves its 32 bits: from block `start` on there are
/// `2^32 - start` blocks of 64 bytes.
pub open spec fn counter_fits(start: u32, len: nat) -> bool {
    len <= 64 * (0x1_0000_0000 - start)
}

/// Byte `i` of the keystream that starts at block `start`: the blocks follow
/// each other in counter order, byte `i` lying in block `start + i / 64`. It
/// means something only while that counter fits in 32 bits.
pub open spec fn keystream_byte(key: Seq<u8>, nonce: Seq<u8>, start: u32, i: int) -> u8 {
    block(key, nonce, (start + i / 64) as u32)[i % 64]
}

/// `data` with the keystream that starts at block `start` XORed onto it byte
/// by byte.
pub open spec fn xor_keystream(key: Seq<u8>, nonce: Seq<u8>, start: u32, data: Seq<u8>) -> Seq<
    u8,
> {
    Seq::new(data.len(), |i: int| data[i] ^ keystream_byte(key, nonce, start, i))
}

/// A block has 64 bytes.
pub proof fn lemma_block_len(key: Seq<u8>, nonce: Seq<u8>, counter: u32)
    ensures
        block(key, nonce, counter).len() == BLOCK_LEN,
{
    reveal(block);
}

/// Byte `i` of the block that lies `blocks` blocks after `start` is byte
/// `64 * blocks + i` of the keystream that starts at `start`.
pub proof fn lemma_keystream_byte_of_block(
    key: Seq<u8>,
    nonce: Seq<u8>,
    start: u32,
    blocks: nat,
    i: int,
)
    requires
        0 <= i < 64,
        start + blocks <= u32::MAX,
    ensures
        keystream_byte(key, nonce, start, 64 * blocks + i) == block(
            key,
            nonce,
            (start + blocks) as u32,
        )[i],
{
    let at = 64 * blocks + i;
    assert(at / 64 == blocks && at % 64 == i);
}

} // verus!
