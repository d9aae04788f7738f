//! Padding schemes: `len(pad(data)) % N == 0` and `unpad(pad(data)) == data`
//! for random data.

use cryptolib::{Padding, Pkcs7};
use rand::Rng;

#[test]
fn pkcs7() {
    pkcs7_case(16, 13);
    pkcs7_case(16, 16);
    pkcs7_case(16, 17);
    pkcs7_case(16, 18);
}

fn pkcs7_case(n: usize, data_len: usize) {
    let pad = Pkcs7::default();
    let data: Vec<u8> = (0..data_len).map(|_| rand::thread_rng().gen()).collect();

    let padded = pad.pad(data.clone(), n);
    assert!(
        padded.len() % n == 0,
        "padding does not align to block size\ndata: {data:?}\npadded: {padded:?}\nblock size: {n}",
    );

    let unpadded = pad.unpad(padded.clone(), n).unwrap();
    assert_eq!(
        unpadded, data,
        "unpadded data does not match original\ndata: {data:?}\npadded: {padded:?}\nunpadded: \
         {unpadded:?}"
    );
}

/// The padding byte must not be zero.
#[test]
fn pkcs7_rejects_zero_padding_byte() {
    let pad = Pkcs7::default();
    assert!(pad.unpad(vec![1, 2, 3, 0], 4).is_err());
}

/// The padding byte must not exceed the block size.
#[test]
fn pkcs7_rejects_oversized_padding_byte() {
    let pad = Pkcs7::default();
    assert!(pad.unpad(vec![1, 2, 3, 9], 4).is_err());
}

/// The trailing bytes must all carry the padding value.
#[test]
fn pkcs7_rejects_mixed_padding() {
    let pad = Pkcs7::default();
    assert!(pad.unpad(vec![1, 7, 2, 2, 1, 3], 6).is_err());
}

/// Empty input holds no padding at all.
#[test]
fn pkcs7_rejects_empty_input() {
    let pad = Pkcs7::default();
    assert!(pad.unpad(Vec::new(), 8).is_err());
}

/// A message already a whole number of blocks gains one full block.
#[test]
fn pkcs7_full_block() {
    let pad = Pkcs7::default();
    let padded = pad.pad(vec![7; 8], 8);
    assert_eq!(padded, vec![7, 7, 7, 7, 7, 7, 7, 7, 8, 8, 8, 8, 8, 8, 8, 8]);
}
