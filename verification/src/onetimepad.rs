//! The one-time pad: XOR the plaintext with a key stream.

use vstd::prelude::*;
use crate::cipher::{Cipher, CipherDecrypt, CipherEncrypt};

verus! {

/// Error indicating that the key stream ended before the data did.
#[derive(Debug, Clone, Copy, PartialEq, Eq)]
pub struct KeyTooShort;

/// The XOR of `data` with the first `data.len()` bytes of `key`.
pub open spec fn spec_xor_bytes(data: Seq<u8>, key: Seq<u8>) -> Seq<u8> {
    Seq::new(data.len(), |i: int| data[i] ^ key[i])
}

/// XOR cancels itself, so applying the same pad twice gives the data back.
pub proof fn lemma_xor_bytes_involution(data: Seq<u8>, key: Seq<u8>)
    requires
        key.len() >= data.len(),
    ensures
        spec_xor_bytes(spec_xor_bytes(data, key), key) == data,
{
    let once = spec_xor_bytes(data, key);
    let twice = spec_xor_bytes(once, key);
    assert forall|i: int| 0 <= i < data.len() implies twice[i] == data[i] by {
        let d = data[i];
        let k = key[i];
        assert((d ^ k) ^ k == d) by (bit_vector);
    }
    assert(twice =~= data);
}

/// The one-time pad is a simple cipher which XORs the input plaintext with the
/// key.
///
/// The key must be at least as long as the plaintext. The key determines which
/// bits of the plaintext are flipped. Because the XOR operation cancels
/// itself, the decryption process is exactly the same as encryption.
///
/// If the key is kept secret and uniformly random, the one-time pad can be
/// mathematically proven to be a perfect cipher, meaning that the ciphertext
/// reveals absolutely nothing about the plaintext.
#[derive(Debug, Clone, Copy, PartialEq, Eq)]
pub struct OneTimePad;

impl Default for OneTimePad {
    fn default() -> (r: Self)
        ensures
            r == OneTimePad,
    {
        OneTimePad
    }
}

/// XOR each byte of `data` with the corresponding byte of `key`; fails when
/// the key is shorter than the data.
#[verifier::loop_isolation(false)]
fn xor_with_key(data: Vec<u8>, key: &[u8]) -> (r: Result<Vec<u8>, KeyTooShort>)
    ensures
        match r {
            Ok(c) => key@.len() >= data@.len() && c@ == spec_xor_bytes(data@, key@),
            Err(_) => key@.len() < data@.len(),
        },
{
    let mut data = data;
    let ghost orig = data@;
    if key.len() < data.len() {
        return Err(KeyTooShort);
    }
    let n = data.len();
    let mut i: usize = 0;
    while i < n
        invariant
            i <= n,
            n == data@.len() == orig.len(),
            key@.len() >= n,
            forall|j: int| 0 <= j < i ==> data@[j] == orig[j] ^ key@[j],
            forall|j: int| i <= j < n ==> data@[j] == orig[j],
        decreases n - i,
    {
        let b = data[i] ^ key[i];
        data[i] = b;
        i = i + 1;
    }
    assert(data@ =~= spec_xor_bytes(orig, key@));
    Ok(data)
}

impl CipherEncrypt for OneTimePad {
    type EncryptionErr = KeyTooShort;

    open spec fn enc_key_req(&self, key: Seq<u8>) -> bool {
        true
    }

    open spec fn spec_encrypt(&self, data: Seq<u8>, key: Seq<u8>) -> Option<Seq<u8>> {
        if key.len() >= data.len() {
            Some(spec_xor_bytes(data, key))
        } else {
            None
        }
    }

    fn encrypt(&self, data: Vec<u8>, key: &[u8]) -> (r: Result<Vec<u8>, KeyTooShort>) {
        xor_with_key(data, key)
    }
}

impl CipherDecrypt for OneTimePad {
    type DecryptionErr = KeyTooShort;

    open spec fn dec_key_req(&self, key: Seq<u8>) -> bool {
        true
    }

    open spec fn spec_decrypt(&self, data: Seq<u8>, key: Seq<u8>) -> Option<Seq<u8>> {
        if key.len() >= data.len() {
            Some(spec_xor_bytes(data, key))
        } else {
            None
        }
    }

    fn decrypt(&self, data: Vec<u8>, key: &[u8]) -> (r: Result<Vec<u8>, KeyTooShort>) {
        // Because XOR is symmetric, the decryption process is equivalent to
        // encryption.
        xor_with_key(data, key)
    }
}

impl Cipher for OneTimePad {
    proof fn lemma_round_trip(&self, data: Seq<u8>, key: Seq<u8>) {
        if key.len() >= data.len() {
            lemma_xor_bytes_involution(data, key);
        }
    }
}

} // verus!
