//! Hash functions against their published test vectors.

use cryptolib::{Sha1, Sha224, Sha256, Sha3_224, Sha3_256, Sha3_384, Sha3_512};

fn digest_of<H: cryptolib::hash::Hash>(h: &H, preimage: &[u8]) -> Vec<u8> {
    cryptolib::hash::Hash::hash(h, preimage)
}

#[test]
fn sha1() {
    let hash = Sha1::default();

    assert_eq!(
        digest_of(&hash, b"abc"),
        vec![
            0xa9, 0x99, 0x3e, 0x36, 0x47, 0x06, 0x81, 0x6a, 0xba, 0x3e, 0x25, 0x71, 0x78, 0x50,
            0xc2, 0x6c, 0x9c, 0xd0, 0xd8, 0x9d,
        ],
    );

    assert_eq!(
        digest_of(&hash, b"abcdbcdecdefdefgefghfghighijhijkijkljklmklmnlmnomnopnopq"),
        vec![
            0x84, 0x98, 0x3e, 0x44, 0x1c, 0x3b, 0xd2, 0x6e, 0xba, 0xae, 0x4a, 0xa1, 0xf9, 0x51,
            0x29, 0xe5, 0xe5, 0x46, 0x70, 0xf1,
        ],
    );

    assert_eq!(
        digest_of(&hash, b"abcdbcdecdefdefgefghfghighijhijkijkljklmklmnlmnomnopnop"),
        vec![
            0x47, 0xb1, 0x72, 0x81, 0x07, 0x95, 0x69, 0x9f, 0xe7, 0x39, 0x19, 0x7d, 0x1a, 0x1f,
            0x59, 0x60, 0x70, 0x02, 0x42, 0xf1,
        ],
    );
}

#[test]
fn sha256() {
    let hash = Sha256::default();

    assert_eq!(
        digest_of(&hash, b"abc"),
        vec![
            0xba, 0x78, 0x16, 0xbf, 0x8f, 0x01, 0xcf, 0xea, 0x41, 0x41, 0x40, 0xde, 0x5d, 0xae,
            0x22, 0x23, 0xb0, 0x03, 0x61, 0xa3, 0x96, 0x17, 0x7a, 0x9c, 0xb4, 0x10, 0xff, 0x61,
            0xf2, 0x00, 0x15, 0xad,
        ],
    );

    assert_eq!(
        digest_of(&hash, b"abcdbcdecdefdefgefghfghighijhijkijkljklmklmnlmnomnopnopq"),
        vec![
            0x24, 0x8d, 0x6a, 0x61, 0xd2, 0x06, 0x38, 0xb8, 0xe5, 0xc0, 0x26, 0x93, 0x0c, 0x3e,
            0x60, 0x39, 0xa3, 0x3c, 0xe4, 0x59, 0x64, 0xff, 0x21, 0x67, 0xf6, 0xec, 0xed, 0xd4,
            0x19, 0xdb, 0x06, 0xc1,
        ],
    );

    assert_eq!(
        digest_of(&hash, b"abcdbcdecdefdefgefghfghighijhijkijkljklmklmnlmnomnopnop"),
        vec![
            0xaa, 0x35, 0x3e, 0x00, 0x9e, 0xdb, 0xae, 0xbf, 0xc6, 0xe4, 0x94, 0xc8, 0xd8, 0x47,
            0x69, 0x68, 0x96, 0xcb, 0x8b, 0x39, 0x8e, 0x01, 0x73, 0xa4, 0xb5, 0xc1, 0xb6, 0x36,
            0x29, 0x2d, 0x87, 0xc7,
        ],
    );
}

#[test]
fn sha224() {
    let hash = Sha224::default();

    assert_eq!(
        digest_of(&hash, b"abc"),
        vec![
            0x23, 0x09, 0x7d, 0x22, 0x34, 0x05, 0xd8, 0x22, 0x86, 0x42, 0xa4, 0x77, 0xbd, 0xa2,
            0x55, 0xb3, 0x2a, 0xad, 0xbc, 0xe4, 0xbd, 0xa0, 0xb3, 0xf7, 0xe3, 0x6c, 0x9d, 0xa7,
        ],
    );

    assert_eq!(
        digest_of(&hash, b"abcdbcdecdefdefgefghfghighijhijkijkljklmklmnlmnomnopnopq"),
        vec![
            0x75, 0x38, 0x8b, 0x16, 0x51, 0x27, 0x76, 0xcc, 0x5d, 0xba, 0x5d, 0xa1, 0xfd, 0x89,
            0x01, 0x50, 0xb0, 0xc6, 0x45, 0x5c, 0xb4, 0xf5, 0x8b, 0x19, 0x52, 0x52, 0x25, 0x25,
        ],
    );

    assert_eq!(
        digest_of(&hash, b"abcdbcdecdefdefgefghfghighijhijkijkljklmklmnlmnomnopnop"),
        vec![
            0x7a, 0x02, 0x7d, 0x88, 0xe3, 0x94, 0xd2, 0x89, 0xed, 0x7a, 0x10, 0xa9, 0x18, 0xb9,
            0x3d, 0x1f, 0x21, 0x0b, 0x47, 0x41, 0xd4, 0x45, 0x34, 0xce, 0x64, 0x27, 0x5a, 0xb9,
        ],
    );
}

#[test]
fn sha3_224() {
    let hash = Sha3_224::default();

    assert_eq!(
        digest_of(&hash, b"abc"),
        vec![
            0xe6, 0x42, 0x82, 0x4c, 0x3f, 0x8c, 0xf2, 0x4a, 0xd0, 0x92, 0x34, 0xee, 0x7d, 0x3c,
            0x76, 0x6f, 0xc9, 0xa3, 0xa5, 0x16, 0x8d, 0x0c, 0x94, 0xad, 0x73, 0xb4, 0x6f, 0xdf,
        ],
    );

    assert_eq!(
        digest_of(&hash, b""),
        vec![
            0x6b, 0x4e, 0x03, 0x42, 0x36, 0x67, 0xdb, 0xb7, 0x3b, 0x6e, 0x15, 0x45, 0x4f, 0x0e,
            0xb1, 0xab, 0xd4, 0x59, 0x7f, 0x9a, 0x1b, 0x07, 0x8e, 0x3f, 0x5b, 0x5a, 0x6b, 0xc7,
        ],
    );

    assert_eq!(
        digest_of(&hash, b"The quick brown fox jumps over the lazy dog"),
        vec![
            0xd1, 0x5d, 0xad, 0xce, 0xaa, 0x4d, 0x5d, 0x7b, 0xb3, 0xb4, 0x8f, 0x44, 0x64, 0x21,
            0xd5, 0x42, 0xe0, 0x8a, 0xd8, 0x88, 0x73, 0x05, 0xe2, 0x8d, 0x58, 0x33, 0x57, 0x95,
        ],
    );
}

#[test]
fn sha3_256() {
    let hash = Sha3_256::default();

    assert_eq!(
        digest_of(&hash, b"abc"),
        vec![
            0x3a, 0x98, 0x5d, 0xa7, 0x4f, 0xe2, 0x25, 0xb2, 0x04, 0x5c, 0x17, 0x2d, 0x6b, 0xd3,
            0x90, 0xbd, 0x85, 0x5f, 0x08, 0x6e, 0x3e, 0x9d, 0x52, 0x5b, 0x46, 0xbf, 0xe2, 0x45,
            0x11, 0x43, 0x15, 0x32,
        ],
    );

    assert_eq!(
        digest_of(&hash, b""),
        vec![
            0xa7, 0xff, 0xc6, 0xf8, 0xbf, 0x1e, 0xd7, 0x66, 0x51, 0xc1, 0x47, 0x56, 0xa0, 0x61,
            0xd6, 0x62, 0xf5, 0x80, 0xff, 0x4d, 0xe4, 0x3b, 0x49, 0xfa, 0x82, 0xd8, 0x0a, 0x4b,
            0x80, 0xf8, 0x43, 0x4a,
        ],
    );

    assert_eq!(
        digest_of(&hash, b"The quick brown fox jumps over the lazy dog"),
        vec![
            0x69, 0x07, 0x0d, 0xda, 0x01, 0x97, 0x5c, 0x8c, 0x12, 0x0c, 0x3a, 0xad, 0xa1, 0xb2,
            0x82, 0x39, 0x4e, 0x7f, 0x03, 0x2f, 0xa9, 0xcf, 0x32, 0xf4, 0xcb, 0x22, 0x59, 0xa0,
            0x89, 0x7d, 0xfc, 0x04,
        ],
    );
}

#[test]
fn sha3_384() {
    let hash = Sha3_384::default();

    assert_eq!(
        digest_of(&hash, b"abc"),
        vec![
            0xec, 0x01, 0x49, 0x82, 0x88, 0x51, 0x6f, 0xc9, 0x26, 0x45, 0x9f, 0x58, 0xe2, 0xc6,
            0xad, 0x8d, 0xf9, 0xb4, 0x73, 0xcb, 0x0f, 0xc0, 0x8c, 0x25, 0x96, 0xda, 0x7c, 0xf0,
            0xe4, 0x9b, 0xe4, 0xb2, 0x98, 0xd8, 0x8c, 0xea, 0x92, 0x7a, 0xc7, 0xf5, 0x39, 0xf1,
            0xed, 0xf2, 0x28, 0x37, 0x6d, 0x25,
        ],
    );

    assert_eq!(
        digest_of(&hash, b""),
        vec![
            0x0c, 0x63, 0xa7, 0x5b, 0x84, 0x5e, 0x4f, 0x7d, 0x01, 0x10, 0x7d, 0x85, 0x2e, 0x4c,
            0x24, 0x85, 0xc5, 0x1a, 0x50, 0xaa, 0xaa, 0x94, 0xfc, 0x61, 0x99, 0x5e, 0x71, 0xbb,
            0xee, 0x98, 0x3a, 0x2a, 0xc3, 0x71, 0x38, 0x31, 0x26, 0x4a, 0xdb, 0x47, 0xfb, 0x6b,
            0xd1, 0xe0, 0x58, 0xd5, 0xf0, 0x04,
        ],
    );

    assert_eq!(
        digest_of(&hash, b"The quick brown fox jumps over the lazy dog"),
        vec![
            0x70, 0x63, 0x46, 0x5e, 0x08, 0xa9, 0x3b, 0xce, 0x31, 0xcd, 0x89, 0xd2, 0xe3, 0xca,
            0x8f, 0x60, 0x24, 0x98, 0x69, 0x6e, 0x25, 0x35, 0x92, 0xed, 0x26, 0xf0, 0x7b, 0xf7,
            0xe7, 0x03, 0xcf, 0x32, 0x85, 0x81, 0xe1, 0x47, 0x1a, 0x7b, 0xa7, 0xab, 0x11, 0x9b,
            0x1a, 0x9e, 0xbd, 0xf8, 0xbe, 0x41,
        ],
    );
}

#[test]
fn sha3_512() {
    let hash = Sha3_512::default();

    assert_eq!(
        digest_of(&hash, b"abc"),
        vec![
            0xb7, 0x51, 0x85, 0x0b, 0x1a, 0x57, 0x16, 0x8a, 0x56, 0x93, 0xcd, 0x92, 0x4b, 0x6b,
            0x09, 0x6e, 0x08, 0xf6, 0x21, 0x82, 0x74, 0x44, 0xf7, 0x0d, 0x88, 0x4f, 0x5d, 0x02,
            0x40, 0xd2, 0x71, 0x2e, 0x10, 0xe1, 0x16, 0xe9, 0x19, 0x2a, 0xf3, 0xc9, 0x1a, 0x7e,
            0xc5, 0x76, 0x47, 0xe3, 0x93, 0x40, 0x57, 0x34, 0x0b, 0x4c, 0xf4, 0x08, 0xd5, 0xa5,
            0x65, 0x92, 0xf8, 0x27, 0x4e, 0xec, 0x53, 0xf0,
        ],
    );

    assert_eq!(
        digest_of(&hash, b""),
        vec![
            0xa6, 0x9f, 0x73, 0xcc, 0xa2, 0x3a, 0x9a, 0xc5, 0xc8, 0xb5, 0x67, 0xdc, 0x18, 0x5a,
            0x75, 0x6e, 0x97, 0xc9, 0x82, 0x16, 0x4f, 0xe2, 0x58, 0x59, 0xe0, 0xd1, 0xdc, 0xc1,
            0x47, 0x5c, 0x80, 0xa6, 0x15, 0xb2, 0x12, 0x3a, 0xf1, 0xf5, 0xf9, 0x4c, 0x11, 0xe3,
            0xe9, 0x40, 0x2c, 0x3a, 0xc5, 0x58, 0xf5, 0x00, 0x19, 0x9d, 0x95, 0xb6, 0xd3, 0xe3,
            0x01, 0x75, 0x85, 0x86, 0x28, 0x1d, 0xcd, 0x26,
        ],
    );

    assert_eq!(
        digest_of(&hash, b"The quick brown fox jumps over the lazy dog"),
        vec![
            0x01, 0xde, 0xdd, 0x5d, 0xe4, 0xef, 0x14, 0x64, 0x24, 0x45, 0xba, 0x5f, 0x5b, 0x97,
            0xc1, 0x5e, 0x47, 0xb9, 0xad, 0x93, 0x13, 0x26, 0xe4, 0xb0, 0x72, 0x7c, 0xd9, 0x4c,
            0xef, 0xc4, 0x4f, 0xff, 0x23, 0xf0, 0x7b, 0xf5, 0x43, 0x13, 0x99, 0x39, 0xb4, 0x91,
            0x28, 0xca, 0xf4, 0x36, 0xdc, 0x1b, 0xde, 0xe5, 0x4f, 0xcb, 0x24, 0x02, 0x3a, 0x08,
            0xd9, 0x40, 0x3f, 0x9b, 0x4b, 0xf0, 0xd4, 0x50,
        ],
    );
}

/// Hashing is deterministic: the same preimage gives the same digest.
#[test]
fn hashing_is_deterministic() {
    let preimage = b"a deterministic function of its input";
    assert_eq!(
        digest_of(&Sha1::default(), preimage),
        digest_of(&Sha1::default(), preimage),
    );
    assert_eq!(
        digest_of(&Sha256::default(), preimage),
        digest_of(&Sha256::default(), preimage),
    );
    assert_eq!(
        digest_of(&Sha3_256::default(), preimage),
        digest_of(&Sha3_256::default(), preimage),
    );
}

/// The round constants the reference register derivation generates match
/// the tabled ones the permutation uses.
#[test]
fn rctable_matches_table() {
    let table = cryptolib::rctable();
    assert_eq!(table.len(), 24);
    assert_eq!(table[0], 0x0000000000000001);
    assert_eq!(table[1], 0x0000000000008082);
    assert_eq!(table[23], 0x8000000080008008);
}
