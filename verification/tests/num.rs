//! The 256-bit arithmetic engine on concrete values.

use cryptolib::{Num, OneTimePad, CipherEncrypt, CipherDecrypt, Secp256k1};

/// Bytes round-trip through the little-endian encoding.
#[test]
fn num_byte_round_trip() {
    let n = Num::from_le_words([1, 2, 3, 4]);
    let bytes = n.to_le_bytes();
    assert_eq!(bytes.len(), 32);
    assert_eq!(Num::from_le_bytes(&bytes), n);
}

/// Modular addition wraps around the modulus.
#[test]
fn num_add_wraps() {
    let p = Num::from_le_words([11, 0, 0, 0]);
    let a = Num::from_le_words([9, 0, 0, 0]);
    let b = Num::from_le_words([5, 0, 0, 0]);
    assert_eq!(a.add(b, p), Num::from_le_words([3, 0, 0, 0]));
}

/// Modular subtraction borrows the modulus when it would go negative.
#[test]
fn num_sub_borrows() {
    let p = Num::from_le_words([11, 0, 0, 0]);
    let a = Num::from_le_words([2, 0, 0, 0]);
    let b = Num::from_le_words([5, 0, 0, 0]);
    assert_eq!(a.sub(b, p), Num::from_le_words([8, 0, 0, 0]));
}

/// Multiplication reduces the double-width product.
#[test]
fn num_mul_reduces() {
    let p = Num::from_le_words([0, 1, 0, 0]);
    let a = Num::from_le_words([0x8000000000000000, 0, 0, 0]);
    let b = Num::from_le_words([4, 0, 0, 0]);
    // 2^63 * 4 = 2^65, which is zero modulo 2^64.
    assert_eq!(a.mul(b, p), Num::zero());
}

/// The inverse of a small number modulo a small prime.
#[test]
fn num_inv_small() {
    let p = Num::from_le_words([17, 0, 0, 0]);
    let a = Num::from_le_words([3, 0, 0, 0]);
    let inv = a.inv(p).unwrap();
    assert_eq!(a.mul(inv, p), Num::one());
    assert_eq!(inv, Num::from_le_words([6, 0, 0, 0]));
}

/// Zero has no inverse.
#[test]
fn num_inv_zero() {
    assert!(Num::zero().inv(Secp256k1::p()).is_none());
}

/// Congruent values are equal modulo the modulus.
#[test]
fn num_modular_eq() {
    let p = Num::from_le_words([7, 0, 0, 0]);
    let a = Num::from_le_words([16, 0, 0, 0]);
    let b = Num::from_le_words([9, 0, 0, 0]);
    assert!(a.eq(b, p));
    assert!(!a.eq(Num::one(), p));
}

/// Bits read least-significant first.
#[test]
fn num_get_bit() {
    let n = Num::from_le_words([0b1010, 0, 0, 1]);
    assert!(!n.get_bit(0));
    assert!(n.get_bit(1));
    assert!(!n.get_bit(2));
    assert!(n.get_bit(3));
    assert!(n.get_bit(192));
    assert!(!n.get_bit(193));
}

/// The one-time pad errs exactly when the pad is shorter than the data.
#[test]
fn one_time_pad_round_trip() {
    let pad = OneTimePad::default();
    let data = vec![1u8, 2, 3, 4];
    let key = vec![9u8, 8, 7, 6, 5];
    let c = pad.encrypt(data.clone(), &key).unwrap();
    assert_eq!(c, vec![1 ^ 9, 2 ^ 8, 3 ^ 7, 4 ^ 6]);
    assert_eq!(pad.decrypt(c, &key).unwrap(), data);
    assert!(pad.encrypt(vec![0; 6], &key).is_err());
}

/// The range scaling hits both endpoints and the exact midpoint value.
#[test]
fn uniform_scale_values() {
    assert_eq!(cryptolib::uniform_scale(0, 10, 20), 10);
    assert_eq!(cryptolib::uniform_scale(u32::MAX, 10, 20), 20);
    assert_eq!(cryptolib::uniform_scale(u32::MAX / 2, 0, 100), 49);
}
