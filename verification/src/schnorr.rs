//! Schnorr signatures over secp256k1.
//!
//! Schnorr is a simple and efficient signature scheme, provably secure
//! under the discrete-logarithm assumption. Signing draws a random nonce
//! `k`, publishes `r` as the x coordinate of `kG`, binds the public key,
//! `r` and the message together in a hash `e`, and closes the signature
//! with `s = k - p e`; verification recomputes `sG + eP`, whose x
//! coordinate must hash back to `e`.

use vstd::prelude::*;
use crate::curve::{
    spec_point_add,
    spec_point_scale,
    spec_secp_g,
    spec_secp_n,
    Coordinates,
    Point,
    PointValue,
    Secp256k1,
};
use crate::ecc::{InvalidSignature, PrivateKey, PublicKey};
use crate::num::{nat_of_le_bytes, spec_nat_bytes32, spec_sub_mod, Num};
use crate::random::Csprng;
use crate::util::{resize, spec_resize};

verus! {

/// A digest read as a scalar: truncated or zero-extended to 32 bytes,
/// little-endian.
pub open spec fn spec_scalar_of_digest(d: Seq<u8>) -> nat {
    nat_of_le_bytes(spec_resize(d, 32))
}

/// The point a public key with coordinates `(kx, ky)` stands for: finite
/// when the coordinates check out, infinity otherwise.
pub open spec fn spec_pubkey_point(kx: nat, ky: nat) -> PointValue {
    if crate::curve::spec_on_curve(kx, ky) && kx < crate::curve::spec_secp_p() && ky
        < crate::curve::spec_secp_p() {
        PointValue::Finite(kx, ky)
    } else {
        PointValue::Infinity
    }
}

/// The Schnorr challenge: the hash of the public key's x coordinate, the
/// nonce point's x coordinate and the message, reduced modulo the group
/// order.
pub open spec fn spec_schnorr_e<H: crate::hash::Hash>(h: H, px: nat, rx: nat, msg: Seq<u8>) -> nat {
    (spec_scalar_of_digest(
        h.spec_hash(spec_nat_bytes32(px) + spec_nat_bytes32(rx) + msg),
    ) as int % spec_secp_n() as int) as nat
}

/// What it means for `(s, e)` to be the Schnorr signature of `msg` under
/// private scalar `key` with nonce `k`.
pub open spec fn spec_schnorr_sign_ok<H: crate::hash::Hash>(
    h: H,
    key: nat,
    msg: Seq<u8>,
    k: nat,
    sig_s: nat,
    sig_e: nat,
) -> bool {
    let nn = spec_secp_n();
    match spec_point_scale(spec_secp_g(), key) {
        PointValue::Finite(px, py) => match spec_point_scale(spec_secp_g(), k) {
            PointValue::Finite(rx, ry) => {
                &&& sig_e == spec_schnorr_e(h, px, rx, msg)
                &&& sig_s == spec_sub_mod(k, ((key * sig_e) as int % nn as int) as nat, nn)
            },
            PointValue::Infinity => false,
        },
        PointValue::Infinity => false,
    }
}

/// Whether some nonce makes `(s, e)` the Schnorr signature of `msg` under
/// private scalar `key`.
pub open spec fn spec_schnorr_signed<H: crate::hash::Hash>(
    h: H,
    key: nat,
    msg: Seq<u8>,
    sig_s: nat,
    sig_e: nat,
) -> bool {
    exists|k: nat| spec_schnorr_sign_ok(h, key, msg, k, sig_s, sig_e)
}

/// Whether the signature `(s, e)` verifies for `msg` under public key
/// `key`: the point `sG + eP` is finite and hashing its x coordinate with
/// the key and message gives `e` back modulo the group order.
pub open spec fn spec_schnorr_verify<H: crate::hash::Hash>(
    h: H,
    kx: nat,
    ky: nat,
    msg: Seq<u8>,
    sig_s: nat,
    sig_e: nat,
) -> bool {
    let nn = spec_secp_n();
    match spec_point_add(
        spec_point_scale(spec_secp_g(), sig_s),
        spec_point_scale(spec_pubkey_point(kx, ky), sig_e),
    ) {
        PointValue::Infinity => false,
        PointValue::Finite(rx, ry) => {
            let e2 = spec_scalar_of_digest(
                h.spec_hash(spec_nat_bytes32(kx) + spec_nat_bytes32(rx) + msg),
            );
            e2 as int % nn as int == sig_e as int % nn as int
        },
    }
}

/// A Schnorr signature: the pair `(s, e)`.
#[derive(Debug, Clone, Copy, PartialEq, Eq)]
pub struct SchnorrSignature {
    pub s: Num,
    pub e: Num,
}

impl SchnorrSignature {
    /// A pair of scalars makes a signature when both are reduced modulo the
    /// group order.
    pub fn new(s: Num, e: Num) -> (res: Result<SchnorrSignature, InvalidSignature>)
        ensures
            match res {
                Ok(sig) => s@ < spec_secp_n() && e@ < spec_secp_n() && sig.s == s && sig.e == e,
                Err(_) => !(s@ < spec_secp_n() && e@ < spec_secp_n()),
            },
    {
        // Verify that s and e are reduced modulo N.
        let order = Secp256k1::n();
        if s < order && e < order {
            Ok(SchnorrSignature { s, e })
        } else {
            Err(InvalidSignature)
        }
    }

    /// The zero signature, the identity for multisig accumulation.
    pub fn empty() -> (res: SchnorrSignature)
        ensures
            res.s@ == 0,
            res.e@ == 0,
    {
        SchnorrSignature { s: Num::zero(), e: Num::zero() }
    }

    /// The `s` half of the signature.
    pub fn s(&self) -> (res: Num)
        ensures
            res == self.s,
    {
        self.s
    }

    /// The `e` half of the signature.
    pub fn e(&self) -> (res: Num)
        ensures
            res == self.e,
    {
        self.e
    }
}

/// The [Schnorr](self) signature scheme, generic in the hash and in the
/// random generator that draws the nonces.
pub struct Schnorr<H, R> {
    pub curve: Secp256k1,
    pub hash: H,
    pub rng: R,
}

impl<H: crate::hash::Hash, R: Csprng> Schnorr<H, R> {
    /// A curve, a hash and a nonce generator make a signature scheme.
    pub fn new(curve: Secp256k1, hash: H, rng: R) -> (r: Self)
        ensures
            r.hash == hash,
            r.rng == rng,
    {
        Schnorr { curve, hash, rng }
    }

    /// Hash the public key's x coordinate, a nonce x coordinate and the
    /// message into the challenge scalar, reduced modulo the group order.
    #[verifier::loop_isolation(false)]
    fn challenge(&self, px: Num, rx: Num, msg: &[u8]) -> (r: Num)
        requires
            self.hash.wf(),
            msg@.len() < 0x1000000000000000,
        ensures
            r@ == spec_schnorr_e(self.hash, px@, rx@, msg@),
    {
        let order = Secp256k1::n();
        let pb = px.to_le_bytes_canonical();
        let rb = rx.to_le_bytes_canonical();
        let mut preimage = pb;
        let mut i: usize = 0;
        while i < 32
            invariant
                i <= 32,
                rb@.len() == 32,
                preimage@ == spec_nat_bytes32(px@) + rb@.take(i as int),
            decreases 32 - i,
        {
            preimage.push(rb[i]);
            assert(preimage@ =~= spec_nat_bytes32(px@) + rb@.take(i + 1));
            i = i + 1;
        }
        assert(preimage@ =~= spec_nat_bytes32(px@) + spec_nat_bytes32(rx@));
        let ghost mid = preimage@;
        let mut j: usize = 0;
        while j < msg.len()
            invariant
                j <= msg@.len(),
                preimage@ == mid + msg@.take(j as int),
            decreases msg@.len() - j,
        {
            preimage.push(msg[j]);
            assert(preimage@ =~= mid + msg@.take(j + 1));
            j = j + 1;
        }
        assert(preimage@ =~= spec_nat_bytes32(px@) + spec_nat_bytes32(rx@) + msg@);
        let digest = self.hash.hash(preimage.as_slice());
        let padded = resize(digest.as_slice(), 32);
        Num::from_le_bytes(padded.as_slice()).reduce(order)
    }

    /// One signing attempt with nonce `k`: succeeds exactly when the
    /// public nonce point is finite.
    fn sign_attempt(
        &self,
        Ghost(msg_view): Ghost<Seq<u8>>,
        key: PrivateKey,
        pubkey: PublicKey,
        msg: &[u8],
        k: Num,
    ) -> (r: Option<SchnorrSignature>)
        requires
            self.hash.wf(),
            msg@.len() < 0x1000000000000000,
            msg@ == msg_view,
            match spec_point_scale(spec_secp_g(), key.0@) {
                PointValue::Finite(px, py) => pubkey.x@ == px,
                PointValue::Infinity => false,
            },
        ensures
            match r {
                Some(sig) => spec_schnorr_sign_ok(
                    self.hash,
                    key.0@,
                    msg_view,
                    k@,
                    sig.s@,
                    sig.e@,
                ),
                None => spec_point_scale(spec_secp_g(), k@) is Infinity,
            },
    {
        let order = Secp256k1::n();
        let kg = Secp256k1::g().scale(k);
        match kg.coordinates() {
            Coordinates::Infinity => None,
            Coordinates::Finite(rx, ry) => {
                let e = self.challenge(pubkey.x, rx, msg);
                proof {
                    vstd::arithmetic::div_mod::lemma_mod_bound(
                        (key.0@ * e@) as int,
                        spec_secp_n() as int,
                    );
                }
                let s = k.sub(key.0.mul(e, order), order);
                Some(SchnorrSignature { s, e })
            },
        }
    }

    /// Sign a message with a freshly drawn random nonce. The retry count is
    /// bounded because every function here terminates, but with a working
    /// generator the first attempt all but surely succeeds.
    #[verifier::loop_isolation(false)]
    pub fn sign(&mut self, key: PrivateKey, msg: &[u8]) -> (r: Result<
        SchnorrSignature,
        InvalidSignature,
    >)
        requires
            old(self).hash.wf(),
            old(self).hash.spec_digest_size() >= 32,
            old(self).rng.wf(),
            msg@.len() < 0x1000000000000000,
            spec_point_scale(spec_secp_g(), key.0@) is Finite,
        ensures
            final(self).hash == old(self).hash,
            final(self).rng.wf(),
            match r {
                Ok(sig) => spec_schnorr_signed(old(self).hash, key.0@, msg@, sig.s@, sig.e@),
                Err(_) => true,
            },
    {
        let pubkey = key.derive();
        let mut tries: usize = 0;
        while tries < 64
            invariant
                self.hash.wf(),
                self.rng.wf(),
                self.hash == old(self).hash,
                self.curve == old(self).curve,
                tries <= 64,
            decreases 64 - tries,
        {
            let kb = self.rng.gen_bytes(32);
            let k = Num::from_le_bytes(kb.as_slice());
            match self.sign_attempt(Ghost(msg@), key, pubkey, msg, k) {
                Some(sig) => {
                    proof {
                        assert(spec_schnorr_signed(
                            old(self).hash,
                            key.0@,
                            msg@,
                            sig.s@,
                            sig.e@,
                        )) by {
                            assert(spec_schnorr_sign_ok(
                                old(self).hash,
                                key.0@,
                                msg@,
                                k@,
                                sig.s@,
                                sig.e@,
                            ));
                        }
                    }
                    return Ok(sig);
                },
                None => {},
            }
            tries = tries + 1;
        }
        Err(InvalidSignature)
    }

    /// Verify a signature against a public key: accept exactly when the
    /// recomputed nonce point hashes back to the challenge.
    #[verifier::rlimit(100)]
    #[verifier::spinoff_prover]
    pub fn verify(&self, key: PublicKey, msg: &[u8], sig: &SchnorrSignature) -> (r: Result<
        (),
        InvalidSignature,
    >)
        requires
            self.hash.wf(),
            self.hash.spec_digest_size() >= 32,
            msg@.len() < 0x1000000000000000,
        ensures
            r is Ok <==> spec_schnorr_verify(self.hash, key.x@, key.y@, msg@, sig.s@, sig.e@),
    {
        let order = Secp256k1::n();
        let q = Secp256k1::g().scale(sig.s).add(key.point().scale(sig.e));
        match q.coordinates() {
            Coordinates::Infinity => Err(InvalidSignature),
            Coordinates::Finite(rx, ry) => {
                let pb = key.x().to_le_bytes_canonical();
                let rb = rx.to_le_bytes_canonical();
                let mut preimage = pb;
                let mut i: usize = 0;
                #[verifier::loop_isolation(false)]
                while i < 32
                    invariant
                        i <= 32,
                        rb@.len() == 32,
                        preimage@ == spec_nat_bytes32(key.x@) + rb@.take(i as int),
                    decreases 32 - i,
                {
                    preimage.push(rb[i]);
                    assert(preimage@ =~= spec_nat_bytes32(key.x@) + rb@.take(i + 1));
                    i = i + 1;
                }
                assert(preimage@ =~= spec_nat_bytes32(key.x@) + spec_nat_bytes32(rx@));
                let ghost mid = preimage@;
                let mut j: usize = 0;
                #[verifier::loop_isolation(false)]
                while j < msg.len()
                    invariant
                        j <= msg@.len(),
                        preimage@ == mid + msg@.take(j as int),
                    decreases msg@.len() - j,
                {
                    preimage.push(msg[j]);
                    assert(preimage@ =~= mid + msg@.take(j + 1));
                    j = j + 1;
                }
                assert(preimage@ =~= spec_nat_bytes32(key.x@) + spec_nat_bytes32(rx@) + msg@);
                let digest = self.hash.hash(preimage.as_slice());
                let padded = resize(digest.as_slice(), 32);
                let e2 = Num::from_le_bytes(padded.as_slice());
                if e2.eq(sig.e, order) {
                    Ok(())
                } else {
                    Err(InvalidSignature)
                }
            },
        }
    }
}

} // verus!
