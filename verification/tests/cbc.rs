//! The CBC mode chaining, checked with a transparent XOR block cipher.

use cryptolib::{
    BlockCipher,
    BlockDecrypt,
    BlockEncrypt,
    Cbc,
    CipherDecrypt,
    CipherEncrypt,
    Padding,
};

/// Test block cipher which XORs the data with the key.
struct TestCipher;

impl BlockEncrypt for TestCipher {
    // The ghost items of the trait never run; a test-only implementation
    // stubs them out.
    fn spec_block_size(&self) -> vstd::prelude::nat {
        panic!()
    }

    fn spec_key_size(&self) -> vstd::prelude::nat {
        panic!()
    }

    fn spec_encrypt_block(&self, _block: vstd::seq::Seq<u8>, _key: vstd::seq::Seq<u8>) -> vstd::seq::Seq<u8> {
        panic!()
    }

    fn lemma_encrypt_len(&self, _block: vstd::seq::Seq<u8>, _key: vstd::seq::Seq<u8>) {
        panic!()
    }

    fn block_size(&self) -> usize {
        2
    }

    fn key_size(&self) -> usize {
        2
    }

    fn encrypt_block(&self, block: &[u8], key: &[u8]) -> Vec<u8> {
        vec![block[0] ^ key[0], block[1] ^ key[1]]
    }
}

impl BlockDecrypt for TestCipher {
    fn spec_decrypt_block(&self, _block: vstd::seq::Seq<u8>, _key: vstd::seq::Seq<u8>) -> vstd::seq::Seq<u8> {
        panic!()
    }

    fn lemma_decrypt_len(&self, _block: vstd::seq::Seq<u8>, _key: vstd::seq::Seq<u8>) {
        panic!()
    }

    fn decrypt_block(&self, block: &[u8], key: &[u8]) -> Vec<u8> {
        vec![block[0] ^ key[0], block[1] ^ key[1]]
    }
}

impl BlockCipher for TestCipher {
    fn lemma_block_round_trip(&self, _block: vstd::seq::Seq<u8>, _key: vstd::seq::Seq<u8>) {
        panic!()
    }
}

/// Test padding which does nothing.
struct NoPadding;

impl Padding for NoPadding {
    fn spec_pad(&self, _data: vstd::seq::Seq<u8>, _n: vstd::prelude::nat) -> vstd::seq::Seq<u8> {
        panic!()
    }

    fn spec_unpad(
        &self,
        _data: vstd::seq::Seq<u8>,
        _n: vstd::prelude::nat,
    ) -> Option<vstd::seq::Seq<u8>> {
        panic!()
    }

    fn lemma_pad_multiple(&self, _data: vstd::seq::Seq<u8>, _n: vstd::prelude::nat) {
        panic!()
    }

    fn lemma_unpad_pad(&self, _data: vstd::seq::Seq<u8>, _n: vstd::prelude::nat) {
        panic!()
    }

    fn pad(&self, data: Vec<u8>, n: usize) -> Vec<u8> {
        if data.len() % n != 0 {
            panic!("invalid test setup: data length not a multiple of block size");
        }
        data
    }

    fn unpad(&self, data: Vec<u8>, n: usize) -> Result<Vec<u8>, cryptolib::InvalidPadding> {
        if data.len() % n != 0 {
            panic!("invalid test setup: data length not a multiple of block size");
        }
        Ok(data)
    }
}

#[test]
fn cbc() {
    let iv = vec![1, 2];
    let cip = Cbc::new(TestCipher, NoPadding, iv);
    let data = [1, 2, 3, 4, 5, 6].to_vec();
    let key = [7, 8];

    let ciphertext = cip.encrypt(data.clone(), &key).unwrap();
    #[allow(clippy::identity_op)]
    let expected = [
        1 ^ 1 ^ 7,
        2 ^ 2 ^ 8,
        1 ^ 1 ^ 7 ^ 3 ^ 7,
        2 ^ 2 ^ 8 ^ 4 ^ 8,
        1 ^ 1 ^ 7 ^ 3 ^ 7 ^ 5 ^ 7,
        2 ^ 2 ^ 8 ^ 4 ^ 8 ^ 6 ^ 8,
    ];
    assert_eq!(
        ciphertext, expected,
        "invalid cbc encryption\nexpected: {expected:?}\nciphertext: {ciphertext:?}"
    );

    let plaintext = cip.decrypt(ciphertext, &key).unwrap();
    assert_eq!(
        plaintext, data,
        "invalid cbc decryption\nexpected: {data:?}\nplaintext: {plaintext:?}"
    );
}
