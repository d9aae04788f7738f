//! A pedagogical, verified library of cryptographic primitives built from
//! first principles and composed through a small set of contracts:
//!
//! - [Ciphers](Cipher): the [one-time pad](OneTimePad), the
//!   [AES block cipher](aes) and the [block modes](BlockMode)
//!   [ECB](Ecb), [CBC](Cbc) and [CTR](Ctr) over [PKCS #7 padding](Pkcs7).
//! - [Hashing](hash::Hash): SHA-1 and SHA-2 via [Merkle-Damgard](MerkleDamgard) over
//!   [Davies-Meyer](DaviesMeyer), and SHA-3 via the Keccak sponge.
//! - [Message authentication](Mac) with [HMAC](Hmac).
//! - 256-bit modular arithmetic ([`Num`]) and the secp256k1 curve, carrying
//!   the [ECDSA](Ecdsa) and Schnorr signature schemes, including a two-round
//!   Schnorr multisig.
//! - A [CSPRNG](Csprng): [Fortuna], built from AES-CTR and SHA-256.

pub mod aes;
mod cbc;
mod curve;
mod ctr;
mod cipher;
pub mod hash;
mod key;
mod mac;
mod merkledamgard;
mod util;
mod ecb;
mod ecdsa;
mod ecc;
mod fortuna;
mod multisig;
mod num;
mod onetimepad;
mod schnorr;
mod sha2;
mod sig;
mod sha3;
mod text;
mod padding;
mod random;

pub use cipher::{
    BlockCipher,
    BlockDecrypt,
    BlockEncrypt,
    BlockMode,
    Cipher,
    CipherDecrypt,
    CipherEncrypt,
};
pub use aes::{Aes128, Aes192, Aes256};
pub use cbc::{spec_cbc_decrypt_blocks, spec_cbc_encrypt_blocks, Cbc};
pub use curve::{spec_on_curve, spec_point_add, spec_point_scale, Coordinates, InvalidPoint, Point, PointValue, Secp256k1};
pub use ctr::{BlockSizeTooSmall, Ctr};
pub use ecb::{spec_ecb_decrypt_blocks, spec_ecb_encrypt_blocks, Ecb};
pub use key::Key;
pub use mac::{spec_hmac, Hmac, Mac};
pub use merkledamgard::{spec_md_fold, CompressionFn, DaviesMeyer, DaviesMeyerStep, MerkleDamgard, MerkleDamgardPad};
pub use random::{uniform_random, uniform_scale, Csprng, Entropy, NoEntropy};
pub use util::resize;
pub use ecdsa::{spec_ecdsa_sign_ok, spec_ecdsa_verify, Ecdsa, EcdsaSignature};
pub use ecc::{InvalidPrivateKey, InvalidPublicKey, InvalidSignature, PrivateKey, PublicKey};
pub use fortuna::Fortuna;
pub use multisig::{spec_combine, spec_h_agg, spec_h_sig, InvalidSchnorrRandomness, MultiSchnorr, SchnorrRandomness};
pub use num::{lemma_num_inv_bezout, nat_of_le_bytes, nat_of_words, pow64, spec_gcd, spec_num_inv, spec_sub_mod, Num};
pub use onetimepad::{spec_xor_bytes, KeyTooShort, OneTimePad};
pub use schnorr::{spec_schnorr_sign_ok, spec_schnorr_verify, Schnorr, SchnorrSignature};
pub use sig::SignatureScheme;
pub use sha2::{ch, ft, kt, kt_256, lowercase_sigma_0, lowercase_sigma_1, maj, parity, uppercase_sigma_0, uppercase_sigma_1, LengthPadding, ModularAddition, Sha1, Sha224, Sha256, Shacal1, Shacal2};
pub use sha3::{chi, iota, keccak_p, pad10star1, pi, rctable, rho, sponge, theta, Sha3_224, Sha3_256, Sha3_384, Sha3_512};
pub use text::{Ciphertext, Plaintext};
pub use padding::{InvalidPadding, Padding, Pkcs7};
