//! Ciphers: `decrypt(encrypt(plaintext, key)) == plaintext` for random
//! plaintexts and keys, and the AES block cipher against the FIPS 197
//! vectors.

use cryptolib::{
    aes,
    Aes128,
    Aes192,
    Aes256,
    Cbc,
    CipherDecrypt,
    CipherEncrypt,
    Ecb,
    Pkcs7,
};
use rand::Rng;

fn round_trip<C: CipherEncrypt + CipherDecrypt>(cip: C, key_size: usize, data_size: usize)
where
    <C as CipherEncrypt>::EncryptionErr: std::fmt::Debug,
    <C as CipherDecrypt>::DecryptionErr: std::fmt::Debug,
{
    let data: Vec<u8> = (0..data_size).map(|_| rand::thread_rng().gen()).collect();
    let key: Vec<u8> = (0..key_size).map(|_| rand::thread_rng().gen()).collect();

    let ciphertext = cip.encrypt(data.clone(), &key).unwrap();
    let plaintext = cip.decrypt(ciphertext.clone(), &key).unwrap();

    assert_eq!(
        data, plaintext,
        "decrypted plaintext did not match for cipher\ndata: {data:?}\nkey: {key:?}\nciphertext: \
         {ciphertext:?}\nplaintext: {plaintext:?}"
    );
}

#[test]
fn aes_128_ecb_pkcs7() {
    round_trip(Ecb::new(Aes128::default(), Pkcs7::default()), 16, 10);
    round_trip(Ecb::new(Aes128::default(), Pkcs7::default()), 16, 20);
    round_trip(Ecb::new(Aes128::default(), Pkcs7::default()), 16, 30);
    round_trip(Ecb::new(Aes128::default(), Pkcs7::default()), 16, 16);
}

#[test]
fn aes_192_ecb_pkcs7() {
    round_trip(Ecb::new(Aes192::default(), Pkcs7::default()), 24, 10);
    round_trip(Ecb::new(Aes192::default(), Pkcs7::default()), 24, 20);
    round_trip(Ecb::new(Aes192::default(), Pkcs7::default()), 24, 30);
    round_trip(Ecb::new(Aes192::default(), Pkcs7::default()), 24, 16);
}

#[test]
fn aes_256_ecb_pkcs7() {
    round_trip(Ecb::new(Aes256::default(), Pkcs7::default()), 32, 10);
    round_trip(Ecb::new(Aes256::default(), Pkcs7::default()), 32, 20);
    round_trip(Ecb::new(Aes256::default(), Pkcs7::default()), 32, 30);
    round_trip(Ecb::new(Aes256::default(), Pkcs7::default()), 32, 16);
}

#[test]
fn aes_128_cbc_pkcs7() {
    let iv = vec![1, 2, 3, 4, 5, 6, 7, 8, 9, 10, 11, 12, 13, 14, 15, 16];
    round_trip(Cbc::new(Aes128::default(), Pkcs7::default(), iv.clone()), 16, 10);
    round_trip(Cbc::new(Aes128::default(), Pkcs7::default(), iv.clone()), 16, 20);
    round_trip(Cbc::new(Aes128::default(), Pkcs7::default(), iv.clone()), 16, 30);
    round_trip(Cbc::new(Aes128::default(), Pkcs7::default(), iv), 16, 16);
}

#[test]
fn aes_192_cbc_pkcs7() {
    let iv = vec![1, 2, 3, 4, 5, 6, 7, 8, 9, 10, 11, 12, 13, 14, 15, 16];
    round_trip(Cbc::new(Aes192::default(), Pkcs7::default(), iv.clone()), 24, 10);
    round_trip(Cbc::new(Aes192::default(), Pkcs7::default(), iv.clone()), 24, 20);
    round_trip(Cbc::new(Aes192::default(), Pkcs7::default(), iv.clone()), 24, 30);
    round_trip(Cbc::new(Aes192::default(), Pkcs7::default(), iv), 24, 16);
}

#[test]
fn aes_256_cbc_pkcs7() {
    let iv = vec![1, 2, 3, 4, 5, 6, 7, 8, 9, 10, 11, 12, 13, 14, 15, 16];
    round_trip(Cbc::new(Aes256::default(), Pkcs7::default(), iv.clone()), 32, 10);
    round_trip(Cbc::new(Aes256::default(), Pkcs7::default(), iv.clone()), 32, 20);
    round_trip(Cbc::new(Aes256::default(), Pkcs7::default(), iv.clone()), 32, 30);
    round_trip(Cbc::new(Aes256::default(), Pkcs7::default(), iv), 32, 16);
}

#[test]
fn aes_256_ctr() {
    round_trip(cryptolib::Ctr::new(Aes256::default(), rand::thread_rng().gen()).unwrap(), 32, 10);
    round_trip(cryptolib::Ctr::new(Aes256::default(), rand::thread_rng().gen()).unwrap(), 32, 20);
    round_trip(cryptolib::Ctr::new(Aes256::default(), rand::thread_rng().gen()).unwrap(), 32, 30);
    round_trip(cryptolib::Ctr::new(Aes256::default(), rand::thread_rng().gen()).unwrap(), 32, 16);
}

/// The AES-128 example vector from the FIPS 197 appendix.
#[test]
fn aes_128_block_vector() {
    let block = [
        0x32, 0x43, 0xf6, 0xa8, 0x88, 0x5a, 0x30, 0x8d, 0x31, 0x31, 0x98, 0xa2, 0xe0, 0x37, 0x07,
        0x34,
    ];
    let key = [
        0x2b, 0x7e, 0x15, 0x16, 0x28, 0xae, 0xd2, 0xa6, 0xab, 0xf7, 0x15, 0x88, 0x09, 0xcf, 0x4f,
        0x3c,
    ];
    let out = aes::encrypt(&block, &key);
    assert_eq!(
        out,
        vec![
            0x39, 0x25, 0x84, 0x1d, 0x02, 0xdc, 0x09, 0xfb, 0xdc, 0x11, 0x85, 0x97, 0x19, 0x6a,
            0x0b, 0x32
        ]
    );
    assert_eq!(aes::decrypt(&out, &key), block.to_vec());
}

/// The AES-256 example vector from the FIPS 197 appendix.
#[test]
fn aes_256_block_vector() {
    let block = [
        0x00, 0x11, 0x22, 0x33, 0x44, 0x55, 0x66, 0x77, 0x88, 0x99, 0xaa, 0xbb, 0xcc, 0xdd, 0xee,
        0xff,
    ];
    let key = [
        0x00, 0x01, 0x02, 0x03, 0x04, 0x05, 0x06, 0x07, 0x08, 0x09, 0x0a, 0x0b, 0x0c, 0x0d, 0x0e,
        0x0f, 0x10, 0x11, 0x12, 0x13, 0x14, 0x15, 0x16, 0x17, 0x18, 0x19, 0x1a, 0x1b, 0x1c, 0x1d,
        0x1e, 0x1f,
    ];
    let out = aes::encrypt(&block, &key);
    assert_eq!(
        out,
        vec![
            0x8e, 0xa2, 0xb7, 0xca, 0x51, 0x67, 0x45, 0xbf, 0xea, 0xfc, 0x49, 0x90, 0x4b, 0x49,
            0x60, 0x89
        ]
    );
    assert_eq!(aes::decrypt(&out, &key), block.to_vec());
}

/// A 16-byte message under AES-128-ECB grows by one full padding block.
#[test]
fn aes_128_ecb_adds_full_block() {
    let cip = Ecb::new(Aes128::default(), Pkcs7::default());
    let data: Vec<u8> = (1..=16).collect();
    let key = vec![0u8; 16];
    let ciphertext = cip.encrypt(data.clone(), &key).unwrap();
    assert_eq!(ciphertext.len(), 32);
    assert_eq!(cip.decrypt(ciphertext, &key).unwrap(), data);
}
