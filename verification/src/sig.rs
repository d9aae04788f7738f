//! The common face of the signature schemes.

use vstd::prelude::*;
use crate::ecc::InvalidSignature;

verus! {

/// A digital signature scheme: a private key signs a message, and anyone
/// holding the matching public key can check the signature. Signing may
/// retry internally and reports failure only when its nonce draws are
/// exhausted, which a working generator never reaches.
pub trait SignatureScheme: Sized {
    type PublicKey;

    type PrivateKey;

    type Signature;

    /// Which keys and messages signing accepts.
    spec fn sign_req(&self, key: Self::PrivateKey, msg: Seq<u8>) -> bool;

    /// What a returned signature says about the key and message.
    spec fn spec_sign_ok(&self, key: Self::PrivateKey, msg: Seq<u8>, sig: Self::Signature) -> bool;

    /// Which keys, messages and signatures verification accepts.
    spec fn verify_req(&self, key: Self::PublicKey, msg: Seq<u8>, sig: Self::Signature) -> bool;

    /// Whether a signature verifies for a key and message.
    spec fn spec_verify(&self, key: Self::PublicKey, msg: Seq<u8>, sig: Self::Signature) -> bool;

    /// Sign a message.
    fn sign(&mut self, key: Self::PrivateKey, msg: &[u8]) -> (r: Result<
        Self::Signature,
        InvalidSignature,
    >)
        requires
            old(self).sign_req(key, msg@),
        ensures
            match r {
                Ok(sig) => old(self).spec_sign_ok(key, msg@, sig),
                Err(_) => true,
            },
    ;

    /// Verify a signature.
    fn verify(&mut self, key: Self::PublicKey, msg: &[u8], sig: &Self::Signature) -> (r: Result<
        (),
        InvalidSignature,
    >)
        requires
            old(self).verify_req(key, msg@, *sig),
        ensures
            r is Ok <==> old(self).spec_verify(key, msg@, *sig),
    ;
}

impl<H: crate::hash::Hash> SignatureScheme for crate::ecdsa::Ecdsa<H> {
    type PublicKey = crate::ecc::PublicKey;

    type PrivateKey = crate::ecc::PrivateKey;

    type Signature = crate::ecdsa::EcdsaSignature;

    open spec fn sign_req(&self, key: Self::PrivateKey, msg: Seq<u8>) -> bool {
        &&& self.hash.wf()
        &&& self.hash.spec_digest_size() >= 32
        &&& msg.len() < 0x1000000000000000
    }

    open spec fn spec_sign_ok(
        &self,
        key: Self::PrivateKey,
        msg: Seq<u8>,
        sig: Self::Signature,
    ) -> bool {
        crate::ecdsa::spec_ecdsa_signed(self.hash, key.0@, msg, sig.r@, sig.s@)
    }

    open spec fn verify_req(&self, key: Self::PublicKey, msg: Seq<u8>, sig: Self::Signature) -> bool {
        &&& self.hash.wf()
        &&& self.hash.spec_digest_size() >= 32
        &&& msg.len() < 0x1000000000000000
        &&& sig.s@ != 0
    }

    open spec fn spec_verify(
        &self,
        key: Self::PublicKey,
        msg: Seq<u8>,
        sig: Self::Signature,
    ) -> bool {
        crate::ecdsa::spec_ecdsa_verify(self.hash, key, msg, sig.r@, sig.s@)
    }

    fn sign(&mut self, key: Self::PrivateKey, msg: &[u8]) -> (r: Result<
        Self::Signature,
        InvalidSignature,
    >) {
        crate::ecdsa::Ecdsa::sign(self, key, msg)
    }

    fn verify(&mut self, key: Self::PublicKey, msg: &[u8], sig: &Self::Signature) -> (r: Result<
        (),
        InvalidSignature,
    >) {
        crate::ecdsa::Ecdsa::verify(self, key, msg, sig)
    }
}

impl<H: crate::hash::Hash, R: crate::random::Csprng> SignatureScheme for crate::schnorr::Schnorr<
    H,
    R,
> {
    type PublicKey = crate::ecc::PublicKey;

    type PrivateKey = crate::ecc::PrivateKey;

    type Signature = crate::schnorr::SchnorrSignature;

    open spec fn sign_req(&self, key: Self::PrivateKey, msg: Seq<u8>) -> bool {
        &&& self.hash.wf()
        &&& self.hash.spec_digest_size() >= 32
        &&& self.rng.wf()
        &&& msg.len() < 0x1000000000000000
        &&& crate::curve::spec_point_scale(crate::curve::spec_secp_g(), key.0@) is Finite
    }

    open spec fn spec_sign_ok(
        &self,
        key: Self::PrivateKey,
        msg: Seq<u8>,
        sig: Self::Signature,
    ) -> bool {
        crate::schnorr::spec_schnorr_signed(self.hash, key.0@, msg, sig.s@, sig.e@)
    }

    open spec fn verify_req(&self, key: Self::PublicKey, msg: Seq<u8>, sig: Self::Signature) -> bool {
        &&& self.hash.wf()
        &&& self.hash.spec_digest_size() >= 32
        &&& msg.len() < 0x1000000000000000
    }

    open spec fn spec_verify(
        &self,
        key: Self::PublicKey,
        msg: Seq<u8>,
        sig: Self::Signature,
    ) -> bool {
        crate::schnorr::spec_schnorr_verify(self.hash, key.x@, key.y@, msg, sig.s@, sig.e@)
    }

    fn sign(&mut self, key: Self::PrivateKey, msg: &[u8]) -> (r: Result<
        Self::Signature,
        InvalidSignature,
    >) {
        crate::schnorr::Schnorr::sign(self, key, msg)
    }

    fn verify(&mut self, key: Self::PublicKey, msg: &[u8], sig: &Self::Signature) -> (r: Result<
        (),
        InvalidSignature,
    >) {
        crate::schnorr::Schnorr::verify(self, key, msg, sig)
    }
}

} // verus!
