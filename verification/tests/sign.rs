//! Signature schemes: signing, verifying, and rejecting tampered inputs.

use cryptolib::{
    Aes256,
    Ecdsa,
    EcdsaSignature,
    Fortuna,
    MultiSchnorr,
    NoEntropy,
    Num,
    PrivateKey,
    PublicKey,
    Schnorr,
    SchnorrRandomness,
    SchnorrSignature,
    Secp256k1,
    Sha256,
    Sha3_256,
};

fn rand_num() -> Num {
    Num::from_le_words([rand::random(), rand::random(), rand::random(), rand::random()])
}

fn rand_privkey() -> PrivateKey {
    loop {
        match PrivateKey::new(rand_num()) {
            Ok(key) => return key,
            Err(_) => continue,
        }
    }
}

/// Generate a random pubkey quickly.
fn rand_pubkey() -> PublicKey {
    let n: u64 = rand::Rng::gen_range(&mut rand::thread_rng(), 1..100);
    let n = Num::from_le_words([n, 0, 0, 0]);
    PublicKey::new(Secp256k1::g().scale(n)).unwrap()
}

struct EcdsaSetup {
    pubkey: PublicKey,
    sig: EcdsaSignature,
    data: Vec<u8>,
    ecdsa: Ecdsa<Sha3_256>,
}

fn ecdsa_setup() -> EcdsaSetup {
    let ecdsa = Ecdsa::new(Secp256k1::default(), Sha3_256::default());
    let data: Vec<u8> = (0u8..100).collect();
    let privkey = rand_privkey();
    let pubkey = privkey.derive();
    let sig = ecdsa.sign(privkey, &data).unwrap();
    EcdsaSetup { pubkey, sig, data, ecdsa }
}

/// Assert that valid ECDSA signatures verify successfully.
#[test]
fn ecdsa_valid() {
    let EcdsaSetup { pubkey, sig, data, ecdsa } = ecdsa_setup();

    assert!(ecdsa.verify(pubkey, &data, &sig).is_ok());
}

/// Assert that invalid ECDSA signatures fail to verify.
#[test]
fn ecdsa_invalid_signature() {
    let EcdsaSetup { pubkey, sig, data, ecdsa } = ecdsa_setup();

    // Invalidate the signature by adding random numbers to r and s.
    let order = Secp256k1::n();
    let sig = EcdsaSignature::new(
        sig.r().add(rand_num(), order),
        sig.s().add(rand_num(), order),
    )
    .unwrap();

    assert!(ecdsa.verify(pubkey, &data, &sig).is_err());
}

/// Assert that valid ECDSA signatures fail to verify with an incorrect
/// pubkey.
#[test]
fn ecdsa_invalid_pubkey() {
    let EcdsaSetup { sig, data, ecdsa, .. } = ecdsa_setup();

    assert!(ecdsa.verify(rand_pubkey(), &data, &sig).is_err());
}

/// Perturbing `s` by one makes verification fail.
#[test]
fn ecdsa_perturbed_s_fails() {
    let EcdsaSetup { pubkey, sig, data, ecdsa } = ecdsa_setup();
    let order = Secp256k1::n();
    let sig = EcdsaSignature::new(sig.r(), sig.s().add(Num::one(), order)).unwrap();
    assert!(ecdsa.verify(pubkey, &data, &sig).is_err());
}

type TestRng = Fortuna<NoEntropy, Aes256, Sha256>;

fn test_rng() -> TestRng {
    Fortuna::new(NoEntropy, Aes256::default(), Sha256::default()).unwrap()
}

struct SchnorrSetup {
    pubkey: PublicKey,
    sig: SchnorrSignature,
    data: Vec<u8>,
    schnorr: Schnorr<Sha256, TestRng>,
}

/// Create a Schnorr signature.
fn schnorr_setup() -> SchnorrSetup {
    let mut schnorr = Schnorr::new(Secp256k1::default(), Sha256::default(), test_rng());
    let data: Vec<u8> = (0u8..100).collect();
    let privkey = rand_privkey();
    let pubkey = privkey.derive();
    let sig = schnorr.sign(privkey, &data).unwrap();
    SchnorrSetup { pubkey, sig, data, schnorr }
}

/// Assert that valid Schnorr signatures verify successfully.
#[test]
fn schnorr_valid() {
    let SchnorrSetup { pubkey, sig, data, schnorr } = schnorr_setup();

    assert!(schnorr.verify(pubkey, &data, &sig).is_ok());

    // Invalidate the signature by adding random numbers to r and s.
    let order = Secp256k1::n();
    let sig = SchnorrSignature::new(
        sig.s().add(rand_num(), order),
        sig.e().add(rand_num(), order),
    )
    .unwrap();
    // An invalid signature should fail to verify.
    assert!(schnorr.verify(pubkey, &data, &sig).is_err());
}

/// Assert that valid Schnorr signatures fail to verify with an incorrect
/// pubkey.
#[test]
fn schnorr_invalid_pubkey() {
    let SchnorrSetup { sig, data, schnorr, .. } = schnorr_setup();

    assert!(schnorr.verify(rand_pubkey(), &data, &sig).is_err());
}

/// Assert that invalid Schnorr signatures fail to verify.
#[test]
fn schnorr_invalid_signature() {
    let SchnorrSetup { pubkey, sig, data, schnorr } = schnorr_setup();

    // Invalidate the signature by adding random numbers to r and s.
    let order = Secp256k1::n();
    let sig = SchnorrSignature::new(
        sig.s().add(rand_num(), order),
        sig.e().add(rand_num(), order),
    )
    .unwrap();

    assert!(schnorr.verify(pubkey, &data, &sig).is_err());
}

struct MultiSchnorrSetup {
    pubkey1: PublicKey,
    pubkey2: PublicKey,
    sig: SchnorrSignature,
    data: Vec<u8>,
    schnorr: MultiSchnorr<Sha256, TestRng>,
}

/// Create a multisig of two keys.
fn multi_schnorr_setup() -> MultiSchnorrSetup {
    let schnorr = MultiSchnorr::new(Secp256k1::default(), Sha256::default(), test_rng());

    let r1 = rand_num();
    let r2 = rand_num();

    let privkey1 = rand_privkey();
    let pubkey1 = privkey1.derive();

    let privkey2 = rand_privkey();
    let pubkey2 = privkey2.derive();

    let data: Vec<u8> = (0u8..100).collect();

    // Sign by 1st signer.
    let sig = schnorr
        .sign(
            (
                privkey1,
                vec![pubkey1, pubkey2],
                SchnorrRandomness::new(r1, &vec![Secp256k1::g().scale(r2)]).unwrap(),
            ),
            &data,
            SchnorrSignature::empty(),
        )
        .unwrap();

    // Sign by 2nd signer.
    let sig = schnorr
        .sign(
            (
                privkey2,
                vec![pubkey1, pubkey2],
                SchnorrRandomness::new(r2, &vec![Secp256k1::g().scale(r1)]).unwrap(),
            ),
            &data,
            sig,
        )
        .unwrap();

    MultiSchnorrSetup { pubkey1, pubkey2, sig, data, schnorr }
}

/// Assert that valid Schnorr multisigs verify successfully.
#[test]
fn multi_schnorr_valid() {
    let MultiSchnorrSetup { pubkey1, pubkey2, sig, data, schnorr, .. } = multi_schnorr_setup();

    assert!(schnorr.verify(&vec![pubkey1, pubkey2], &data, &sig).is_ok());
}

/// Assert that valid Schnorr multisigs fail to verify if the pubkeys used
/// for verification are incorrect.
#[test]
fn multi_schnorr_invalid_pubkeys() {
    let MultiSchnorrSetup { pubkey1, sig, data, schnorr, .. } = multi_schnorr_setup();

    assert!(schnorr.verify(&vec![pubkey1], &data, &sig).is_err());
    assert!(schnorr.verify(&vec![pubkey1, rand_pubkey()], &data, &sig).is_err());
}

/// Assert that invalid Schnorr multisigs fail to verify.
#[test]
fn multi_schnorr_invalid_sig() {
    let MultiSchnorrSetup { pubkey1, pubkey2, sig, data, schnorr, .. } = multi_schnorr_setup();

    // Invalidate the signature by adding random numbers to r and s.
    let order = Secp256k1::n();
    let sig = SchnorrSignature::new(
        sig.s().add(rand_num(), order),
        sig.e().add(rand_num(), order),
    )
    .unwrap();

    assert!(schnorr.verify(&vec![pubkey1, pubkey2], &data, &sig).is_err());
}

/// A signature must not carry zero components.
#[test]
fn ecdsa_signature_rejects_zero_components() {
    assert!(EcdsaSignature::new(Num::zero(), Num::one()).is_err());
    assert!(EcdsaSignature::new(Num::one(), Num::zero()).is_err());
    assert!(EcdsaSignature::new(Num::one(), Num::one()).is_ok());
}

/// The deterministic nonce chain makes ECDSA signing a function of the key
/// and message.
#[test]
fn ecdsa_sign_is_deterministic() {
    let ecdsa = Ecdsa::new(Secp256k1::default(), Sha3_256::default());
    let data: Vec<u8> = (0u8..50).collect();
    let privkey = rand_privkey();
    let a = ecdsa.sign(privkey, &data).unwrap();
    let b = ecdsa.sign(privkey, &data).unwrap();
    assert_eq!(a, b);
}
