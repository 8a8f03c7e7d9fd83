//! The cipher: the keystream XORed onto a buffer, and the one-shot encrypt
//! and decrypt operations with their checks.
use crate::block::chacha20;
use crate::error::{ChachaPolyError, KeyGenError};
use crate::model::{
    block, counter_fits, keystream_byte, lemma_block_len, lemma_keystream_byte_of_block,
    xor_keystream, BLOCK_LEN, KEY_LEN, NONCE_LEN,
};
use std::ops::Range;
use vstd::prelude::*;

verus! {

/// The maximum amount of bytes that can be processed with one key/nonce
/// combination: 2^32 blocks of 64 bytes.
pub const CHACHA20_MAX: u64 = 0x40_0000_0000;

/// Information about a cipher implementation.
#[derive(Debug, PartialEq, Eq)]
pub struct CipherInfo {
    /// The name
    pub name: &'static str,
    /// Indicates if this cipher is a one time cipher (= requires a unique
    /// key/nonce combination for each message)
    pub is_otc: bool,
    /// The supported key lengths
    pub key_len_r: Range<usize>,
    /// The supported nonce lengths
    pub nonce_len_r: Range<usize>,
    /// The supported AEAD tag lengths (is `0..0` if the cipher is not an AEAD
    /// cipher)
    pub aead_tag_len_r: Range<usize>,
}

impl Clone for CipherInfo {
    fn clone(&self) -> (copy: Self)
        ensures
            copy == *self,
    {
        CipherInfo {
            name: self.name,
            is_otc: self.is_otc,
            key_len_r: self.key_len_r.start..self.key_len_r.end,
            nonce_len_r: self.nonce_len_r.start..self.nonce_len_r.end,
            aead_tag_len_r: self.aead_tag_len_r.start..self.aead_tag_len_r.end,
        }
    }
}

/// Why a call to encrypt or decrypt `payload_len` bytes in a buffer of
/// `buf_len` bytes is refused, if it is: the first of the four checks that
/// fails, in the order key, nonce, amount of data, size of the buffer.
pub open spec fn misuse(buf_len: nat, payload_len: nat, key_len: nat, nonce_len: nat) -> Option<
    ChachaPolyError,
> {
    if key_len != KEY_LEN {
        Some(ChachaPolyError::ApiMisuse("Invalid key length"))
    } else if nonce_len != NONCE_LEN {
        Some(ChachaPolyError::ApiMisuse("Invalid nonce length"))
    } else if payload_len > CHACHA20_MAX {
        Some(ChachaPolyError::ApiMisuse("Too much data"))
    } else if payload_len > buf_len {
        Some(ChachaPolyError::ApiMisuse("Buffer is too small"))
    } else {
        None
    }
}

/// What encrypting or decrypting `len` bytes in place leaves in a buffer that
/// held `buf`: the first `len` bytes with the keystream from block 0 XORed
/// onto them, and the rest as it was.
pub open spec fn processed_in_place(key: Seq<u8>, nonce: Seq<u8>, buf: Seq<u8>, len: int) -> Seq<
    u8,
> {
    xor_keystream(key, nonce, 0, buf.take(len)) + buf.skip(len)
}

/// An implementation of ChaCha20 (IETF-version).
pub struct ChaCha20Ietf;

impl ChaCha20Ietf {
    /// XORs the bytes in `data` with the ChaCha20-keystream for `key` and
    /// `nonce` starting at the `n`th block.
    ///
    /// Nothing is checked here: the key has 32 bytes, the nonce 12, and the
    /// data ends before the block counter leaves its 32 bits, which the
    /// counter never does silently. `encrypt` and `decrypt` check first.
    pub fn xor(key: &[u8], nonce: &[u8], n: u32, data: &mut [u8])
        requires
            key@.len() == KEY_LEN,
            nonce@.len() == NONCE_LEN,
            counter_fits(n, old(data)@.len()),
        ensures
            final(data)@ == xor_keystream(key@, nonce@, n, old(data)@),
            final(data)@.len() == old(data)@.len(),
    {
        let len: usize = data.len();
        let mut buf: Vec<u8> = vec![0u8; 64];
        let mut counter: u32 = n;
        let mut done: usize = 0;
        let ghost mut blocks: nat = 0;
        while done < len
            invariant
                key@.len() == KEY_LEN,
                nonce@.len() == NONCE_LEN,
                counter_fits(n, len as nat),
                len == old(data)@.len(),
                data@.len() == len,
                buf@.len() == BLOCK_LEN,
                done <= len,
                done < len ==> done == 64 * blocks && counter == n + blocks,
                forall|j: int|
                    0 <= j < done ==> data@[j] == old(data)@[j] ^ keystream_byte(
                        key@,
                        nonce@,
                        n,
                        j,
                    ),
                forall|j: int| done <= j < len ==> data@[j] == old(data)@[j],
            decreases len - done,
        {
            // Compute next block
            chacha20(key, nonce, counter, buf.as_mut_slice());
            proof {
                lemma_block_len(key@, nonce@, counter);
            }
            assert(buf@ =~= block(key@, nonce@, counter));

            // Xor block
            let to_xor: usize = if len - done < 64 {
                len - done
            } else {
                64
            };
            let mut i: usize = 0;
            while i < to_xor
                invariant
                    len == old(data)@.len(),
                    data@.len() == len,
                    done + to_xor <= len,
                    to_xor <= 64,
                    i <= to_xor,
                    done == 64 * blocks,
                    counter == n + blocks,
                    buf@ == block(key@, nonce@, counter),
                    buf@.len() == BLOCK_LEN,
                    forall|j: int|
                        0 <= j < done + i ==> data@[j] == old(data)@[j] ^ keystream_byte(
                            key@,
                            nonce@,
                            n,
                            j,
                        ),
                    forall|j: int| done + i <= j < len ==> data@[j] == old(data)@[j],
                decreases to_xor - i,
            {
                proof {
                    lemma_keystream_byte_of_block(key@, nonce@, n, blocks, i as int);
                }
                data[done + i] = data[done + i] ^ buf[i];
                i += 1;
            }
            done += to_xor;
            if done < len {
                counter += 1;
                proof {
                    blocks = blocks + 1;
                }
            }
        }
        assert(data@ =~= xor_keystream(key@, nonce@, n, old(data)@));
    }

    /// Generates a new secret key into the first 32 bytes of `buf` from the
    /// 32 bytes that `random` gives, and returns the length of the key.
    ///
    /// A buffer that cannot hold a key is refused before `random` is asked.
    /// Where `random` fails, its error is handed on. In both cases `buf`
    /// stays as it is.
    pub fn new_sec_key<E, F>(&self, buf: &mut [u8], random: F) -> (r: Result<
        usize,
        KeyGenError<E>,
    >) where F: FnOnce() -> Result<[u8; 32], E>
        requires
            call_requires(random, ()),
        ensures
            old(buf)@.len() < KEY_LEN ==> r == Err::<usize, KeyGenError<E>>(
                KeyGenError::ApiMisuse("Buffer is too small"),
            ) && final(buf)@ == old(buf)@,
            old(buf)@.len() >= KEY_LEN ==> match r {
                Ok(len) => len == KEY_LEN && exists|key: [u8; 32]|
                    #[trigger] call_ensures(random, (), Ok::<[u8; 32], E>(key)) && final(buf)@
                        == key@ + old(buf)@.skip(KEY_LEN as int),
                Err(KeyGenError::Rng(e)) => call_ensures(random, (), Err::<[u8; 32], E>(e))
                    && final(buf)@ == old(buf)@,
                Err(KeyGenError::ApiMisuse(_)) => false,
            },
    {
        // Validate buffer and generate key
        if buf.len() < 32 {
            return Err(KeyGenError::ApiMisuse("Buffer is too small"));
        }
        match random() {
            Ok(key) => {
                let (head, _rest) = buf.split_at_mut(32);
                copy_bytes(head, key.as_slice());
                Ok(32)
            },
            Err(e) => Err(KeyGenError::Rng(e)),
        }
    }

    /// Returns information about the cipher.
    pub fn info(&self) -> (info: CipherInfo)
        ensures
            info.name@ == "ChaCha20Ietf"@,
            info.is_otc,
            info.key_len_r.start == KEY_LEN && info.key_len_r.end == KEY_LEN,
            info.nonce_len_r.start == NONCE_LEN && info.nonce_len_r.end == NONCE_LEN,
            info.aead_tag_len_r.start == 0 && info.aead_tag_len_r.end == 0,
    {
        CipherInfo {
            name: "ChaCha20Ietf",
            is_otc: true,
            key_len_r: 32..32,
            nonce_len_r: 12..12,
            aead_tag_len_r: 0..0,
        }
    }

    /// Predicts the maximum encrypted length for `plaintext_len` bytes: the
    /// cipher adds nothing.
    pub fn encrypted_len_max(&self, plaintext_len: usize) -> (len: usize)
        ensures
            len == plaintext_len,
    {
        plaintext_len
    }

    /// Encrypts `plaintext_len` bytes in-place in `buf` using `key` and
    /// `nonce` and returns the ciphertext length. The keystream starts at
    /// block 0. A refused call leaves `buf` as it is.
    pub fn encrypt(&self, buf: &mut [u8], plaintext_len: usize, key: &[u8], nonce: &[u8]) -> (r:
        Result<usize, ChachaPolyError>)
        ensures
            match misuse(old(buf)@.len(), plaintext_len as nat, key@.len(), nonce@.len()) {
                Some(e) => r == Err::<usize, ChachaPolyError>(e) && final(buf)@ == old(buf)@,
                None => r == Ok::<usize, ChachaPolyError>(plaintext_len) && final(buf)@
                    == processed_in_place(key@, nonce@, old(buf)@, plaintext_len as int),
            },
    {
        // Check input
        if key.len() != 32 {
            return Err(ChachaPolyError::ApiMisuse("Invalid key length"));
        }
        if nonce.len() != 12 {
            return Err(ChachaPolyError::ApiMisuse("Invalid nonce length"));
        }
        if plaintext_len as u64 > CHACHA20_MAX {
            return Err(ChachaPolyError::ApiMisuse("Too much data"));
        }
        if plaintext_len > buf.len() {
            return Err(ChachaPolyError::ApiMisuse("Buffer is too small"));
        }
        // Encrypt the data
        let (payload, _rest) = buf.split_at_mut(plaintext_len);
        Self::xor(key, nonce, 0, payload);
        Ok(plaintext_len)
    }

    /// Encrypts `plaintext` into `buf` using `key` and `nonce` and returns
    /// the ciphertext length. The keystream starts at block 0. A refused call
    /// leaves `buf` as it is.
    pub fn encrypt_to(&self, buf: &mut [u8], plaintext: &[u8], key: &[u8], nonce: &[u8]) -> (r:
        Result<usize, ChachaPolyError>)
        ensures
            match misuse(old(buf)@.len(), plaintext@.len(), key@.len(), nonce@.len()) {
                Some(e) => r == Err::<usize, ChachaPolyError>(e) && final(buf)@ == old(buf)@,
                None => r == Ok::<usize, ChachaPolyError>(plaintext.len()) && final(buf)@
                    == xor_keystream(key@, nonce@, 0, plaintext@) + old(buf)@.skip(
                    plaintext@.len() as int,
                ),
            },
    {
        // Check input
        if key.len() != 32 {
            return Err(ChachaPolyError::ApiMisuse("Invalid key length"));
        }
        if nonce.len() != 12 {
            return Err(ChachaPolyError::ApiMisuse("Invalid nonce length"));
        }
        if plaintext.len() as u64 > CHACHA20_MAX {
            return Err(ChachaPolyError::ApiMisuse("Too much data"));
        }
        if plaintext.len() > buf.len() {
            return Err(ChachaPolyError::ApiMisuse("Buffer is too small"));
        }
        // Fill `buf` and encrypt the data in place
        let (payload, _rest) = buf.split_at_mut(plaintext.len());
        copy_bytes(payload, plaintext);
        Self::xor(key, nonce, 0, payload);
        Ok(plaintext.len())
    }

    /// Decrypts `ciphertext_len` bytes in-place in `buf` using `key` and
    /// `nonce` and returns the plaintext length: the cipher is its own
    /// inverse, so this is `encrypt`.
    pub fn decrypt(&self, buf: &mut [u8], ciphertext_len: usize, key: &[u8], nonce: &[u8]) -> (r:
        Result<usize, ChachaPolyError>)
        ensures
            match misuse(old(buf)@.len(), ciphertext_len as nat, key@.len(), nonce@.len()) {
                Some(e) => r == Err::<usize, ChachaPolyError>(e) && final(buf)@ == old(buf)@,
                None => r == Ok::<usize, ChachaPolyError>(ciphertext_len) && final(buf)@
                    == processed_in_place(key@, nonce@, old(buf)@, ciphertext_len as int),
            },
    {
        self.encrypt(buf, ciphertext_len, key, nonce)
    }

    /// Decrypts `ciphertext` into `buf` using `key` and `nonce` and returns
    /// the plaintext length: this is `encrypt_to`.
    pub fn decrypt_to(&self, buf: &mut [u8], ciphertext: &[u8], key: &[u8], nonce: &[u8]) -> (r:
        Result<usize, ChachaPolyError>)
        ensures
            match misuse(old(buf)@.len(), ciphertext@.len(), key@.len(), nonce@.len()) {
                Some(e) => r == Err::<usize, ChachaPolyError>(e) && final(buf)@ == old(buf)@,
                None => r == Ok::<usize, ChachaPolyError>(ciphertext.len()) && final(buf)@
                    == xor_keystream(key@, nonce@, 0, ciphertext@) + old(buf)@.skip(
                    ciphertext@.len() as int,
                ),
            },
    {
        self.encrypt_to(buf, ciphertext, key, nonce)
    }
}

/// Copies `src` over `dst`, which has the same length.
fn copy_bytes(dst: &mut [u8], src: &[u8])
    requires
        old(dst)@.len() == src@.len(),
    ensures
        final(dst)@ == src@,
{
    let mut i: usize = 0;
    while i < src.len()
        invariant
            i <= src@.len(),
            dst@.len() == src@.len(),
            forall|j: int| 0 <= j < i ==> dst@[j] == src@[j],
        decreases src@.len() - i,
    {
        dst[i] = src[i];
        i += 1;
    }
    assert(dst@ =~= src@);
}

} // verus!
