//! The elliptic-curve digital signature algorithm over secp256k1.
//!
//! ECDSA rests on the elliptic-curve discrete-logarithm assumption: given
//! the generator `G` and `Q = kG` it is computationally infeasible to find
//! `k`. Signing hashes the message, derives a nonce deterministically from
//! the message and the private key, and folds the nonce point's x coordinate
//! with the private key into the signature pair `(r, s)`; verification
//! recomputes the nonce point from the public key alone and compares its x
//! coordinate with `r`.

use vstd::prelude::*;
use crate::curve::{
    spec_point_add,
    spec_point_scale,
    spec_secp_g,
    spec_secp_n,
    Coordinates,
    Point,
    PointValue,
    Secp256k1,
};
use crate::ecc::{InvalidSignature, PrivateKey, PublicKey};
use crate::num::{nat_of_le_bytes, spec_nat_bytes32, spec_num_inv, Num};
use crate::util::{resize, spec_resize};

verus! {

/// The message digest interpreted as a scalar: the hash truncated or
/// zero-extended to the 32-byte field size, read little-endian.
pub open spec fn spec_digest_scalar<H: crate::hash::Hash>(h: H, msg: Seq<u8>) -> nat {
    nat_of_le_bytes(spec_resize(h.spec_hash(msg), 32))
}

/// The outcome of one ECDSA signing attempt with nonce `k`: `r` is the
/// nonce point's x coordinate reduced modulo the group order, and `s` folds
/// the digest and the key by the inverse of the nonce. The attempt fails,
/// asking for the next nonce, when the nonce is zero, the nonce point is at
/// infinity, or either signature half comes out zero.
pub open spec fn spec_ecdsa_attempt<H: crate::hash::Hash>(
    h: H,
    key: nat,
    msg: Seq<u8>,
    k: nat,
) -> Option<(nat, nat)> {
    let nn = spec_secp_n();
    if k == 0 {
        None
    } else {
        match spec_point_scale(spec_secp_g(), k) {
            PointValue::Infinity => None,
            PointValue::Finite(x, y) => {
                let e = spec_digest_scalar(h, msg);
                let r = x as int % nn as int;
                let s0 = (e + (r * key) % nn as int) % nn as int;
                let s = (spec_num_inv(k, nn) as int * s0) % nn as int;
                if r == 0 || s == 0 {
                    None
                } else {
                    Some((r as nat, s as nat))
                }
            },
        }
    }
}

/// What it means for `(r, s)` to be the ECDSA signature of `msg` under
/// private scalar `key` with nonce `k`.
pub open spec fn spec_ecdsa_sign_ok<H: crate::hash::Hash>(
    h: H,
    key: nat,
    msg: Seq<u8>,
    k: nat,
    sig_r: nat,
    sig_s: nat,
) -> bool {
    spec_ecdsa_attempt(h, key, msg, k) == Some((sig_r, sig_s))
}

/// Nonce `i` of the deterministic chain: the chain is seeded by hashing the
/// message and the key, and each retry rehashes the previous nonce.
pub open spec fn spec_ecdsa_nonce<H: crate::hash::Hash>(
    h: H,
    key: nat,
    msg: Seq<u8>,
    i: nat,
) -> nat
    decreases i,
{
    if i == 0 {
        spec_digest_scalar(h, msg + spec_nat_bytes32(key))
    } else {
        spec_digest_scalar(h, spec_nat_bytes32(spec_ecdsa_nonce(h, key, msg, (i - 1) as nat)))
    }
}

/// Whether `(r, s)` is the signature the deterministic nonce chain
/// produces for `msg` under `key`: some nonce of the chain yields it, and
/// every earlier nonce fails. Together with the attempt equations this
/// makes the signature a function of the key and the message alone.
pub open spec fn spec_ecdsa_signed<H: crate::hash::Hash>(
    h: H,
    key: nat,
    msg: Seq<u8>,
    sig_r: nat,
    sig_s: nat,
) -> bool {
    exists|i: int|
        {
            &&& 1 <= i <= 64
            &&& spec_ecdsa_sign_ok(
                h,
                key,
                msg,
                #[trigger] spec_ecdsa_nonce(h, key, msg, i as nat),
                sig_r,
                sig_s,
            )
            &&& forall|j: int|
                1 <= j < i ==> spec_ecdsa_attempt(
                    h,
                    key,
                    msg,
                    #[trigger] spec_ecdsa_nonce(h, key, msg, j as nat),
                ) is None
        }
}

/// Whether the signature `(r, s)` verifies for `msg` under public key
/// `key`: the recomputed point `u G + v P` is finite and its x coordinate
/// is congruent to `r` modulo the group order.
pub open spec fn spec_ecdsa_verify<H: crate::hash::Hash>(
    h: H,
    key: PublicKey,
    msg: Seq<u8>,
    sig_r: nat,
    sig_s: nat,
) -> bool {
    let nn = spec_secp_n();
    let e = spec_digest_scalar(h, msg);
    let i = spec_num_inv(sig_s, nn);
    let u = (e * i) as int % nn as int;
    let v = (sig_r * i) as int % nn as int;
    let keypoint = if crate::curve::spec_on_curve(key.x@, key.y@) && key.x@
        < crate::curve::spec_secp_p() && key.y@ < crate::curve::spec_secp_p() {
        PointValue::Finite(key.x@, key.y@)
    } else {
        PointValue::Infinity
    };
    match spec_point_add(
        spec_point_scale(spec_secp_g(), u as nat),
        spec_point_scale(keypoint, v as nat),
    ) {
        PointValue::Finite(x, y) => x as int % nn as int == sig_r as int % nn as int,
        PointValue::Infinity => false,
    }
}

/// The [ECDSA](self) signature scheme, generic in the hash.
pub struct Ecdsa<H> {
    pub curve: Secp256k1,
    pub hash: H,
}

/// An ECDSA signature: the pair `(r, s)`.
#[derive(Debug, Clone, Copy, PartialEq, Eq)]
pub struct EcdsaSignature {
    pub r: Num,
    pub s: Num,
}

impl EcdsaSignature {
    /// A pair of scalars makes a signature when both are non-zero and
    /// reduced modulo the group order.
    pub fn new(r: Num, s: Num) -> (res: Result<EcdsaSignature, InvalidSignature>)
        ensures
            match res {
                Ok(sig) => 0 < r@ < spec_secp_n() && 0 < s@ < spec_secp_n() && sig.r == r
                    && sig.s == s,
                Err(_) => !(0 < r@ < spec_secp_n() && 0 < s@ < spec_secp_n()),
            },
    {
        // Verify that r and s are non-zero and reduced modulo N.
        let order = Secp256k1::n();
        if r < order && s < order && !r.is_zero() && !s.is_zero() {
            Ok(EcdsaSignature { r, s })
        } else {
            Err(InvalidSignature)
        }
    }

    /// The `r` half of the signature.
    pub fn r(&self) -> (res: Num)
        ensures
            res == self.r,
    {
        self.r
    }

    /// The `s` half of the signature.
    pub fn s(&self) -> (res: Num)
        ensures
            res == self.s,
    {
        self.s
    }
}

impl<H: crate::hash::Hash> Ecdsa<H> {
    /// A curve and a hash make a signature scheme.
    pub fn new(curve: Secp256k1, hash: H) -> (r: Self)
        ensures
            r.hash == hash,
    {
        Ecdsa { curve, hash }
    }

    /// Hash a message into a scalar.
    fn digest_scalar(&self, msg: &[u8]) -> (r: Num)
        requires
            self.hash.wf(),
            msg@.len() < 0x2000000000000000,
        ensures
            r@ == spec_digest_scalar(self.hash, msg@),
    {
        let digest = self.hash.hash(msg);
        let padded = resize(digest.as_slice(), 32);
        Num::from_le_bytes(padded.as_slice())
    }

    /// One signing attempt with nonce `k`: succeeds exactly when the nonce
    /// is non-zero, its point is finite, and neither signature half comes
    /// out zero.
    fn sign_attempt(
        &self,
        Ghost(msg): Ghost<Seq<u8>>,
        key: PrivateKey,
        e: Num,
        k: Num,
    ) -> (r: Option<EcdsaSignature>)
        requires
            self.hash.wf(),
            e@ == spec_digest_scalar(self.hash, msg),
        ensures
            match r {
                Some(sig) => spec_ecdsa_attempt(self.hash, key.0@, msg, k@) == Some(
                    (sig.r@, sig.s@),
                ),
                None => spec_ecdsa_attempt(self.hash, key.0@, msg, k@) is None,
            },
    {
        if k.is_zero() {
            return None;
        }
        let order = Secp256k1::n();
        let kg = Secp256k1::g().scale(k);
        match kg.coordinates() {
            Coordinates::Infinity => None,
            Coordinates::Finite(x, y) => {
                let r = x.reduce(order);
                let s0 = e.add(r.mul(key.0, order), order);
                // k G is finite, so k is not zero and has an inverse.
                let inv = match k.inv(order) {
                    Some(v) => v,
                    None => {
                        proof {
                            assert(false);
                        }
                        return None;
                    },
                };
                let s = inv.mul(s0, order);
                if !r.is_zero() && !s.is_zero() {
                    Some(EcdsaSignature { r, s })
                } else {
                    None
                }
            },
        }
    }

    /// Sign a message. The nonce is derived deterministically by hashing
    /// the message and the private key, and rehashed on each retry, so
    /// equal inputs always give equal signatures; the retry count is
    /// bounded because every function here terminates, but the bound is
    /// beyond what a working hash can reach, and an error reports that the
    /// whole chain failed.
    #[verifier::loop_isolation(false)]
    #[verifier::rlimit(100)]
    #[verifier::spinoff_prover]
    pub fn sign(&self, key: PrivateKey, msg: &[u8]) -> (r: Result<
        EcdsaSignature,
        InvalidSignature,
    >)
        requires
            self.hash.wf(),
            self.hash.spec_digest_size() >= 32,
            msg@.len() < 0x1000000000000000,
        ensures
            match r {
                Ok(sig) => spec_ecdsa_signed(self.hash, key.0@, msg@, sig.r@, sig.s@),
                Err(_) => forall|i: int|
                    1 <= i <= 64 ==> spec_ecdsa_attempt(
                        self.hash,
                        key.0@,
                        msg@,
                        #[trigger] spec_ecdsa_nonce(self.hash, key.0@, msg@, i as nat),
                    ) is None,
            },
    {
        let e = self.digest_scalar(msg);
        // Seed the nonce chain with the message and the private key.
        let mut preimage: Vec<u8> = Vec::new();
        let mut i: usize = 0;
        while i < msg.len()
            invariant
                i <= msg@.len(),
                preimage@ == msg@.take(i as int),
            decreases msg@.len() - i,
        {
            preimage.push(msg[i]);
            assert(preimage@ =~= msg@.take(i + 1));
            i = i + 1;
        }
        assert(preimage@ =~= msg@);
        let key_bytes = key.0.to_le_bytes_canonical();
        let mut j: usize = 0;
        while j < 32
            invariant
                j <= 32,
                key_bytes@.len() == 32,
                preimage@ == msg@ + key_bytes@.take(j as int),
            decreases 32 - j,
        {
            preimage.push(key_bytes[j]);
            assert(preimage@ =~= msg@ + key_bytes@.take(j + 1));
            j = j + 1;
        }
        assert(preimage@ =~= msg@ + spec_nat_bytes32(key.0@));
        let mut k = self.digest_scalar(preimage.as_slice());
        let mut tries: usize = 0;
        while tries < 64
            invariant
                self.hash.wf(),
                tries <= 64,
                k@ == spec_ecdsa_nonce(self.hash, key.0@, msg@, tries as nat),
                forall|j2: int|
                    1 <= j2 <= tries ==> spec_ecdsa_attempt(
                        self.hash,
                        key.0@,
                        msg@,
                        #[trigger] spec_ecdsa_nonce(self.hash, key.0@, msg@, j2 as nat),
                    ) is None,
            decreases 64 - tries,
        {
            // Rehash to get the next nonce in the chain.
            let kb = k.to_le_bytes_canonical();
            k = self.digest_scalar(kb.as_slice());
            proof {
                assert(k@ == spec_ecdsa_nonce(self.hash, key.0@, msg@, (tries + 1) as nat));
            }
            match self.sign_attempt(Ghost(msg@), key, e, k) {
                Some(sig) => {
                    proof {
                        assert(spec_ecdsa_signed(self.hash, key.0@, msg@, sig.r@, sig.s@)) by {
                            let wi: int = tries + 1;
                            assert({
                                &&& 1 <= wi <= 64
                                &&& spec_ecdsa_sign_ok(
                                    self.hash,
                                    key.0@,
                                    msg@,
                                    spec_ecdsa_nonce(self.hash, key.0@, msg@, wi as nat),
                                    sig.r@,
                                    sig.s@,
                                )
                                &&& forall|j2: int|
                                    1 <= j2 < wi ==> spec_ecdsa_attempt(
                                        self.hash,
                                        key.0@,
                                        msg@,
                                        #[trigger] spec_ecdsa_nonce(
                                            self.hash,
                                            key.0@,
                                            msg@,
                                            j2 as nat,
                                        ),
                                    ) is None
                            });
                        }
                    }
                    return Ok(sig);
                },
                None => {},
            }
            tries = tries + 1;
        }
        Err(InvalidSignature)
    }

    /// Verify a signature against a public key. Rejects exactly when the
    /// recomputed nonce point is at infinity or its x coordinate differs
    /// from `r` modulo the group order.
    pub fn verify(&self, key: PublicKey, msg: &[u8], sig: &EcdsaSignature) -> (r: Result<
        (),
        InvalidSignature,
    >)
        requires
            self.hash.wf(),
            self.hash.spec_digest_size() >= 32,
            msg@.len() < 0x2000000000000000,
            sig.s@ != 0,
        ensures
            r is Ok <==> spec_ecdsa_verify(self.hash, key, msg@, sig.r@, sig.s@),
    {
        let order = Secp256k1::n();
        let e = self.digest_scalar(msg);
        let i = match sig.s.inv(order) {
            Some(v) => v,
            None => {
                proof {
                    assert(false);
                }
                return Err(InvalidSignature);
            },
        };
        let u = e.mul(i, order);
        let v = sig.r.mul(i, order);
        let q = Secp256k1::g().scale(u).add(key.point().scale(v));
        match q.coordinates() {
            Coordinates::Finite(x, y) => {
                if x.eq(sig.r, order) {
                    Ok(())
                } else {
                    Err(InvalidSignature)
                }
            },
            Coordinates::Infinity => Err(InvalidSignature),
        }
    }
}

} // verus!
