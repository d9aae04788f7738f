//! The Fortuna generator.

use cryptolib::{Aes256, Csprng, Fortuna, NoEntropy, Sha256};

/// Test that fortuna generates bytes. Don't test the values of those bytes,
/// as they are pseudo-random.
#[test]
fn fortuna_generates_bytes() {
    let mut fortuna = Fortuna::new(NoEntropy, Aes256::default(), Sha256::default()).unwrap();
    let bytes = fortuna.gen_bytes(4086);
    assert!((0..=u8::MAX).all(|x| bytes.contains(&x)));
}

/// Sequential draws continue the stream rather than restarting it.
#[test]
fn fortuna_draws_are_sequential() {
    let mut a = Fortuna::new(NoEntropy, Aes256::default(), Sha256::default()).unwrap();
    let mut b = Fortuna::new(NoEntropy, Aes256::default(), Sha256::default()).unwrap();
    let whole = a.gen_bytes(64);
    let first = b.gen_bytes(32);
    let second = b.gen_bytes(32);
    assert_eq!(whole[..32], first[..]);
    assert_eq!(whole[32..], second[..]);
}
