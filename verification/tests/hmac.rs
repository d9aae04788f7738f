//! HMAC against the RFC 2202 test vectors.

use cryptolib::{Hmac, Mac, Sha1, Sha256};

#[test]
fn hmac_sha1() {
    let mut hmac = Hmac::new(Sha1::default());
    let tag = hmac.mac(b"The quick brown fox jumps over the lazy dog", b"key");
    assert_eq!(
        tag,
        vec![
            0xde, 0x7c, 0x9b, 0x85, 0xb8, 0xb7, 0x8a, 0xa6, 0xbc, 0x8a, 0x7a, 0x36, 0xf7, 0x0a,
            0x90, 0x70, 0x1c, 0x9d, 0xb4, 0xd9,
        ],
    );
}

/// The first RFC 2202 test case: a twenty-byte key of 0x0b bytes.
#[test]
fn hmac_sha1_rfc_case_one() {
    let mut hmac = Hmac::new(Sha1::default());
    let tag = hmac.mac(b"Hi There", &[0x0b; 20]);
    assert_eq!(
        tag,
        vec![
            0xb6, 0x17, 0x31, 0x86, 0x55, 0x05, 0x72, 0x64, 0xe2, 0x8b, 0xc0, 0xb6, 0xfb, 0x37,
            0x8c, 0x8e, 0xf1, 0x46, 0xbe, 0x00,
        ],
    );
}

/// The second RFC 2202 test case: a short printable key.
#[test]
fn hmac_sha1_rfc_case_two() {
    let mut hmac = Hmac::new(Sha1::default());
    let tag = hmac.mac(b"what do ya want for nothing?", b"Jefe");
    assert_eq!(
        tag,
        vec![
            0xef, 0xfc, 0xdf, 0x6a, 0xe5, 0xeb, 0x2f, 0xa2, 0xd2, 0x74, 0x16, 0xd5, 0xf1, 0x84,
            0xdf, 0x9c, 0x25, 0x9a, 0x7c, 0x79,
        ],
    );
}

/// HMAC composes with any hash of the library.
#[test]
fn hmac_sha256_vector() {
    let mut hmac = Hmac::new(Sha256::default());
    let tag = hmac.mac(b"The quick brown fox jumps over the lazy dog", b"key");
    assert_eq!(
        tag,
        vec![
            0xf7, 0xbc, 0x83, 0xf4, 0x30, 0x53, 0x84, 0x24, 0xb1, 0x32, 0x98, 0xe6, 0xaa, 0x6f,
            0xb1, 0x43, 0xef, 0x4d, 0x59, 0xa1, 0x49, 0x46, 0x17, 0x59, 0x97, 0x47, 0x9d, 0xbc,
            0x2d, 0x1a, 0x3c, 0xd8,
        ],
    );
}

/// The MAC is deterministic: the same message and key give the same tag.
#[test]
fn hmac_is_deterministic() {
    let mut a = Hmac::new(Sha1::default());
    let mut b = Hmac::new(Sha1::default());
    assert_eq!(a.mac(b"message", b"key"), b.mac(b"message", b"key"));
}
