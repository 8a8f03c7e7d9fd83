//! Laws of the keystream XOR, proved of the functions that the contracts of
//! the cipher are stated in.
use crate::cipher::processed_in_place;
use crate::model::{block, keystream_byte, xor_keystream};
use vstd::prelude::*;

verus! {

/// Involution: XORing the same keystream onto data twice gives the data
/// back, so decrypting is encrypting.
pub proof fn lemma_xor_involution(key: Seq<u8>, nonce: Seq<u8>, counter: u32, data: Seq<u8>)
    ensures
        xor_keystream(key, nonce, counter, xor_keystream(key, nonce, counter, data)) == data,
{
    let once = xor_keystream(key, nonce, counter, data);
    let twice = xor_keystream(key, nonce, counter, once);
    assert forall|i: int| 0 <= i < data.len() implies twice[i] == data[i] by {
        let d = data[i];
        let k = keystream_byte(key, nonce, counter, i);
        assert((d ^ k) ^ k == d) by (bit_vector);
    }
    assert(twice =~= data);
}

/// Decrypting in place what was encrypted in place, with the same key, nonce
/// and length, gives the buffer back as it was.
pub proof fn lemma_decrypt_inverts_encrypt(key: Seq<u8>, nonce: Seq<u8>, buf: Seq<u8>, len: int)
    requires
        0 <= len <= buf.len(),
    ensures
        processed_in_place(key, nonce, processed_in_place(key, nonce, buf, len), len) == buf,
{
    let encrypted = processed_in_place(key, nonce, buf, len);
    assert(encrypted.take(len) =~= xor_keystream(key, nonce, 0, buf.take(len)));
    assert(encrypted.skip(len) =~= buf.skip(len));
    lemma_xor_involution(key, nonce, 0, buf.take(len));
    assert(processed_in_place(key, nonce, encrypted, len) =~= buf);
}

/// Length preservation: the output is as long as the input.
pub proof fn lemma_xor_preserves_length(
    key: Seq<u8>,
    nonce: Seq<u8>,
    counter: u32,
    data: Seq<u8>,
)
    ensures
        xor_keystream(key, nonce, counter, data).len() == data.len(),
{
}

/// Counter linearity: data may be cut after any whole number of blocks, and
/// the second part processed on its own with the counter moved on by that
/// number. For 128 bytes from counter 0 this is: the first 64 bytes with
/// counter 0, followed by the last 64 bytes with counter 1.
pub proof fn lemma_xor_splits_at_block(
    key: Seq<u8>,
    nonce: Seq<u8>,
    counter: u32,
    data: Seq<u8>,
    blocks: nat,
)
    requires
        64 * blocks <= data.len(),
        counter + blocks <= u32::MAX,
    ensures
        xor_keystream(key, nonce, counter, data) == xor_keystream(
            key,
            nonce,
            counter,
            data.take((64 * blocks) as int),
        ) + xor_keystream(key, nonce, (counter + blocks) as u32, data.skip((64 * blocks) as int)),
{
    let cut = (64 * blocks) as int;
    let later = (counter + blocks) as u32;
    let whole = xor_keystream(key, nonce, counter, data);
    let head = xor_keystream(key, nonce, counter, data.take(cut));
    let tail = xor_keystream(key, nonce, later, data.skip(cut));
    assert forall|i: int| 0 <= i < data.len() implies whole[i] == (head + tail)[i] by {
        if i >= cut {
            let j = i - cut;
            assert(j / 64 == i / 64 - blocks && j % 64 == i % 64);
            assert(later + j / 64 == counter + i / 64);
            assert(keystream_byte(key, nonce, later, j) == keystream_byte(key, nonce, counter, i));
        }
    }
    assert(whole =~= head + tail);
}

/// Determinism: the output is a function of the bytes of the key, the bytes
/// of the nonce, the counter and the bytes of the input, and of nothing else.
pub proof fn lemma_xor_deterministic(
    key_a: Seq<u8>,
    nonce_a: Seq<u8>,
    counter_a: u32,
    data_a: Seq<u8>,
    key_b: Seq<u8>,
    nonce_b: Seq<u8>,
    counter_b: u32,
    data_b: Seq<u8>,
)
    requires
        key_a.len() == key_b.len(),
        forall|i: int| 0 <= i < key_a.len() ==> key_a[i] == key_b[i],
        nonce_a.len() == nonce_b.len(),
        forall|i: int| 0 <= i < nonce_a.len() ==> nonce_a[i] == nonce_b[i],
        counter_a == counter_b,
        data_a.len() == data_b.len(),
        forall|i: int| 0 <= i < data_a.len() ==> data_a[i] == data_b[i],
    ensures
        xor_keystream(key_a, nonce_a, counter_a, data_a) == xor_keystream(
            key_b,
            nonce_b,
            counter_b,
            data_b,
        ),
{
    assert(key_a =~= key_b);
    assert(nonce_a =~= nonce_b);
    assert(data_a =~= data_b);
}

/// On data that is all zero the output is the keystream itself: up to 64
/// bytes give the start of the block at `counter`, and byte 64 is the first
/// byte of the block after it.
pub proof fn lemma_xor_of_zeros_is_keystream(
    key: Seq<u8>,
    nonce: Seq<u8>,
    counter: u32,
    data: Seq<u8>,
)
    requires
        forall|i: int| 0 <= i < data.len() ==> data[i] == 0,
    ensures
        forall|i: int|
            0 <= i < data.len() ==> #[trigger] xor_keystream(key, nonce, counter, data)[i]
                == keystream_byte(key, nonce, counter, i),
        forall|i: int|
            0 <= i < data.len() && i < 64 ==> #[trigger] xor_keystream(key, nonce, counter, data)[i]
                == block(key, nonce, counter)[i],
        data.len() > 64 && counter < u32::MAX ==> xor_keystream(key, nonce, counter, data)[64]
            == block(key, nonce, (counter + 1) as u32)[0],
{
    assert forall|i: int| 0 <= i < data.len() implies #[trigger] xor_keystream(
        key,
        nonce,
        counter,
        data,
    )[i] == keystream_byte(key, nonce, counter, i) by {
        let k = keystream_byte(key, nonce, counter, i);
        assert(0u8 ^ k == k) by (bit_vector);
    }
}

} // verus!
