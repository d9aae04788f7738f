//! Core cipher interfaces.
//!
//! A cipher encrypts and decrypts data of arbitrary length with a symmetric
//! key; a block cipher handles exactly one block at a time and is extended to
//! arbitrary lengths by a block mode.

use vstd::prelude::*;

verus! {

/// The encryption half of a [cipher](Cipher).
pub trait CipherEncrypt: Sized {
    type EncryptionErr;

    /// Which keys this cipher accepts.
    spec fn enc_key_req(&self, key: Seq<u8>) -> bool;

    /// The ciphertext for the given plaintext and key, or `None` when the
    /// input is rejected.
    spec fn spec_encrypt(&self, data: Seq<u8>, key: Seq<u8>) -> Option<Seq<u8>>;

    /// Encrypt the plaintext.
    fn encrypt(&self, data: Vec<u8>, key: &[u8]) -> (r: Result<Vec<u8>, Self::EncryptionErr>)
        requires
            self.enc_key_req(key@),
        ensures
            match r {
                Ok(c) => self.spec_encrypt(data@, key@) == Some(c@),
                Err(_) => self.spec_encrypt(data@, key@) is None,
            },
    ;
}

/// The decryption half of a [cipher](Cipher).
pub trait CipherDecrypt: Sized {
    type DecryptionErr;

    /// Which keys this cipher accepts.
    spec fn dec_key_req(&self, key: Seq<u8>) -> bool;

    /// The plaintext for the given ciphertext and key, or `None` when the
    /// ciphertext is rejected.
    spec fn spec_decrypt(&self, data: Seq<u8>, key: Seq<u8>) -> Option<Seq<u8>>;

    /// Decrypt the ciphertext. This operation can fail, for example, if the
    /// ciphertext was not created by this cipher.
    fn decrypt(&self, data: Vec<u8>, key: &[u8]) -> (r: Result<Vec<u8>, Self::DecryptionErr>)
        requires
            self.dec_key_req(key@),
        ensures
            match r {
                Ok(p) => self.spec_decrypt(data@, key@) == Some(p@),
                Err(_) => self.spec_decrypt(data@, key@) is None,
            },
    ;
}

/// A cipher encrypts and decrypts data of arbitrary length using a symmetric
/// key.
///
/// The law every cipher obeys: decrypting an encryption under the same key
/// gives back the plaintext.
pub trait Cipher: CipherEncrypt + CipherDecrypt {
    /// `decrypt(encrypt(p, k), k) == p` for every plaintext `p` and key `k`.
    proof fn lemma_round_trip(&self, data: Seq<u8>, key: Seq<u8>)
        requires
            self.enc_key_req(key),
            self.dec_key_req(key),
        ensures
            match self.spec_encrypt(data, key) {
                Some(c) => self.spec_decrypt(c, key) == Some(data),
                None => true,
            },
    ;
}

/// The encryption half of a [block cipher](BlockCipher).
///
/// Works on single blocks of a fixed size; a [block mode](BlockMode) extends
/// it to arbitrary lengths.
pub trait BlockEncrypt: Sized {
    /// The block size in bytes.
    spec fn spec_block_size(&self) -> nat;

    /// The key size in bytes.
    spec fn spec_key_size(&self) -> nat;

    /// The block size in bytes.
    fn block_size(&self) -> (r: usize)
        ensures
            r == self.spec_block_size(),
    ;

    /// The key size in bytes.
    fn key_size(&self) -> (r: usize)
        ensures
            r == self.spec_key_size(),
    ;

    /// The ciphertext block for the given plaintext block and key.
    spec fn spec_encrypt_block(&self, block: Seq<u8>, key: Seq<u8>) -> Seq<u8>;

    /// Encryption maps blocks to blocks.
    proof fn lemma_encrypt_len(&self, block: Seq<u8>, key: Seq<u8>)
        requires
            block.len() == self.spec_block_size(),
            key.len() == self.spec_key_size(),
        ensures
            self.spec_encrypt_block(block, key).len() == self.spec_block_size(),
    ;

    /// Encrypt one block.
    fn encrypt_block(&self, block: &[u8], key: &[u8]) -> (r: Vec<u8>)
        requires
            block@.len() == self.spec_block_size(),
            key@.len() == self.spec_key_size(),
        ensures
            r@ == self.spec_encrypt_block(block@, key@),
            r@.len() == self.spec_block_size(),
    ;
}

/// The decryption half of a [block cipher](BlockCipher).
pub trait BlockDecrypt: BlockEncrypt {
    /// The plaintext block for the given ciphertext block and key.
    spec fn spec_decrypt_block(&self, block: Seq<u8>, key: Seq<u8>) -> Seq<u8>;

    /// Decryption maps blocks to blocks.
    proof fn lemma_decrypt_len(&self, block: Seq<u8>, key: Seq<u8>)
        requires
            block.len() == self.spec_block_size(),
            key.len() == self.spec_key_size(),
        ensures
            self.spec_decrypt_block(block, key).len() == self.spec_block_size(),
    ;

    /// Decrypt one block.
    fn decrypt_block(&self, block: &[u8], key: &[u8]) -> (r: Vec<u8>)
        requires
            block@.len() == self.spec_block_size(),
            key@.len() == self.spec_key_size(),
        ensures
            r@ == self.spec_decrypt_block(block@, key@),
            r@.len() == self.spec_block_size(),
    ;
}

/// A block cipher encrypts and decrypts data in blocks of fixed size.
///
/// Note that a block cipher alone does not fulfill the definition of a
/// [cipher](Cipher), because it cannot handle inputs of arbitrary length.
/// To be a cipher, a block cipher must be used with a [block mode](BlockMode).
pub trait BlockCipher: BlockDecrypt {
    /// Block decryption inverts block encryption under the same key.
    proof fn lemma_block_round_trip(&self, block: Seq<u8>, key: Seq<u8>)
        requires
            block.len() == self.spec_block_size(),
            key.len() == self.spec_key_size(),
        ensures
            self.spec_decrypt_block(self.spec_encrypt_block(block, key), key) == block,
    ;
}

/// A way to execute a [block cipher](BlockCipher) on data of arbitrary length.
///
/// A block cipher can only encrypt or decrypt one block at a time. In order to
/// encrypt arbitrary amounts of data, there needs to be a way to ensure that
/// the data is a multiple of the block size ([padding](crate::Padding)) and a
/// way to map input blocks of plaintext to output blocks of ciphertext. The
/// "mode of operation" usually refers to the combination of these two
/// requirements.
pub trait BlockMode: Cipher {

}

} // verus!
