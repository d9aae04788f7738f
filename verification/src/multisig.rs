//! A MuSig-style Schnorr multisig.
//!
//! With `n` signers each holding a private key, the scheme produces one
//! ordinary [Schnorr signature](crate::Schnorr) verifiable against an
//! aggregate public key. Before signing, the signers run a two-round
//! commit-reveal exchange of per-signer nonces (see [`SchnorrRandomness`]).
//! Each signer's partial signature folds its key in, weighted by a hash of
//! the whole key set and its own key, so that no signer can cancel the
//! others' keys out of the aggregate; the partial signatures simply add up.

use vstd::prelude::*;
use crate::curve::{
    spec_point_add,
    spec_point_scale,
    spec_secp_g,
    spec_secp_n,
    Coordinates,
    Point,
    PointValue,
    Secp256k1,
};
use crate::ecc::{InvalidSignature, PrivateKey, PublicKey};
use crate::num::{spec_nat_bytes32, spec_sub_mod, Num};
use crate::random::Csprng;
use crate::schnorr::{spec_pubkey_point, spec_scalar_of_digest, Schnorr, SchnorrSignature};
use crate::util::resize;

verus! {

/// Error indicating that the combined multisig nonce degenerated to the
/// point at infinity; the signers must draw fresh local nonces.
#[derive(Debug, Clone, Copy, PartialEq, Eq)]
pub struct InvalidSchnorrRandomness;

/// A sequence of points folded onto an accumulator.
pub open spec fn spec_fold_points(acc: PointValue, pts: Seq<PointValue>) -> PointValue
    decreases pts.len(),
{
    if pts.len() == 0 {
        acc
    } else {
        spec_fold_points(spec_point_add(acc, pts.first()), pts.drop_first())
    }
}

/// The x coordinates of a key set summed modulo the group order, the
/// canonical encoding seed of the set.
pub open spec fn spec_fold_keys_x(acc: nat, keys: Seq<PublicKey>) -> nat
    decreases keys.len(),
{
    if keys.len() == 0 {
        acc
    } else {
        spec_fold_keys_x(
            ((acc + keys.first().x@) as int % spec_secp_n() as int) as nat,
            keys.drop_first(),
        )
    }
}

/// The canonical encoding of a key set: the byte encoding of the summed x
/// coordinates. This seeds the per-signer weights, so every signer must
/// agree on the same set.
pub open spec fn spec_encode_keys(keys: Seq<PublicKey>) -> Seq<u8> {
    spec_nat_bytes32(spec_fold_keys_x(0, keys))
}

/// The weight of one key within a key set: the hash of the set's encoding
/// and the key, reduced modulo the group order.
pub open spec fn spec_h_agg<H: crate::hash::Hash>(h: H, keys: Seq<PublicKey>, kx: nat) -> nat {
    (spec_scalar_of_digest(
        h.spec_hash(spec_encode_keys(keys) + spec_nat_bytes32(kx)),
    ) as int % spec_secp_n() as int) as nat
}

/// The aggregate public key point: the weighted sum of the key points.
pub open spec fn spec_combine<H: crate::hash::Hash>(h: H, keys: Seq<PublicKey>) -> PointValue
    decreases keys.len(),
{
    spec_combine_from(h, keys, PointValue::Infinity, keys)
}

/// The weighted sum folded from `acc` over the remaining keys, the weights
/// drawn against the full set.
pub open spec fn spec_combine_from<H: crate::hash::Hash>(
    h: H,
    all: Seq<PublicKey>,
    acc: PointValue,
    rest: Seq<PublicKey>,
) -> PointValue
    decreases rest.len(),
{
    if rest.len() == 0 {
        acc
    } else {
        spec_combine_from(
            h,
            all,
            spec_point_add(
                acc,
                spec_point_scale(
                    spec_pubkey_point(rest.first().x@, rest.first().y@),
                    spec_h_agg(h, all, rest.first().x@),
                ),
            ),
            rest.drop_first(),
        )
    }
}

/// The signing challenge of a session: the hash of the aggregate key's x
/// coordinate, the combined nonce and the message, reduced modulo the group
/// order; nothing when the aggregate key degenerates.
pub open spec fn spec_h_sig<H: crate::hash::Hash>(
    h: H,
    keys: Seq<PublicKey>,
    total: nat,
    msg: Seq<u8>,
) -> Option<nat> {
    match spec_combine(h, keys) {
        PointValue::Infinity => None,
        PointValue::Finite(cx, cy) => Some(
            (spec_scalar_of_digest(
                h.spec_hash(spec_nat_bytes32(cx) + spec_nat_bytes32(total) + msg),
            ) as int % spec_secp_n() as int) as nat,
        ),
    }
}

/// The per-signer randomness of one multisig session.
///
/// Each signer draws a local nonce `r_i` and publishes `R_i = r_i G`; to
/// keep a signer from choosing its nonce after seeing the others', the
/// signers first exchange commitments `H(R_i)` and only then the points
/// themselves. After the exchange every signer holds its own `r_i` and the
/// x coordinate of the combined point `R = sum R_i`, which must not be the
/// point at infinity.
#[derive(Debug, Clone, Copy, PartialEq, Eq)]
pub struct SchnorrRandomness {
    pub local: Num,
    pub total: Num,
}

impl SchnorrRandomness {
    /// A local nonce and the other signers' nonce points make the session
    /// randomness; fails when the combined point degenerates to infinity.
    #[verifier::loop_isolation(false)]
    pub fn new(local: Num, others: &Vec<Point>) -> (r: Result<
        SchnorrRandomness,
        InvalidSchnorrRandomness,
    >)
        requires
            forall|i: int|
                0 <= i < others@.len() ==> crate::curve::spec_point_reduced(#[trigger] others@[i]@),
        ensures
            match r {
                Ok(rand) => rand.local == local && match spec_fold_points(
                    spec_point_scale(spec_secp_g(), local@),
                    others@.map_values(|p: Point| p@),
                ) {
                    PointValue::Finite(x, y) => rand.total@ == x,
                    PointValue::Infinity => false,
                },
                Err(_) => spec_fold_points(
                    spec_point_scale(spec_secp_g(), local@),
                    others@.map_values(|p: Point| p@),
                ) is Infinity,
            },
    {
        let ghost pts = others@.map_values(|p: Point| p@);
        let mut total = Secp256k1::g().scale(local);
        let n = others.len();
        proof {
            assert(pts.skip(0) =~= pts);
        }
        let mut i: usize = 0;
        while i < n
            invariant
                i <= n,
                spec_point_reduced_local(total@),
                spec_fold_points(total@, pts.skip(i as int)) == spec_fold_points(
                    spec_point_scale(spec_secp_g(), local@),
                    pts,
                ),
            decreases n - i,
        {
            proof {
                assert(pts.skip(i as int).first() == others@[i as int]@);
                assert(pts.skip(i as int).drop_first() =~= pts.skip(i + 1));
            }
            total = total.add(others[i]);
            i = i + 1;
        }
        proof {
            assert(pts.skip(n as int) =~= Seq::<PointValue>::empty());
        }
        match total.coordinates() {
            Coordinates::Infinity => Err(InvalidSchnorrRandomness),
            Coordinates::Finite(x, y) => Ok(SchnorrRandomness { local, total: x }),
        }
    }
}

/// A local alias so the loop invariant can name point reducedness.
pub open spec fn spec_point_reduced_local(v: PointValue) -> bool {
    crate::curve::spec_point_reduced(v)
}

/// The [Schnorr multisig](self) scheme: a thin layer over the single-signer
/// scheme.
pub struct MultiSchnorr<H, R>(pub Schnorr<H, R>);

impl<H: crate::hash::Hash, R: Csprng> MultiSchnorr<H, R> {
    /// A curve, a hash and a nonce generator make a multisig scheme.
    pub fn new(curve: Secp256k1, hash: H, rng: R) -> (r: Self)
        ensures
            r.0.hash == hash,
            r.0.rng == rng,
    {
        MultiSchnorr(Schnorr::new(curve, hash, rng))
    }

    /// Encode a key set canonically.
    #[verifier::loop_isolation(false)]
    fn encode(&self, keys: &Vec<PublicKey>) -> (r: Vec<u8>)
        ensures
            r@ == spec_encode_keys(keys@),
            r@.len() == 32,
    {
        let order = Secp256k1::n();
        let mut acc = Num::zero();
        let n = keys.len();
        proof {
            assert(keys@.skip(0) =~= keys@);
        }
        let mut i: usize = 0;
        while i < n
            invariant
                i <= n,
                spec_fold_keys_x(acc@, keys@.skip(i as int)) == spec_fold_keys_x(0, keys@),
            decreases n - i,
        {
            proof {
                assert(keys@.skip(i as int).first() == keys@[i as int]);
                assert(keys@.skip(i as int).drop_first() =~= keys@.skip(i + 1));
            }
            acc = acc.add(keys[i].x(), order);
            i = i + 1;
        }
        proof {
            assert(keys@.skip(n as int) =~= Seq::<PublicKey>::empty());
        }
        acc.to_le_bytes_canonical()
    }

    /// The weight of one key within the set.
    #[verifier::loop_isolation(false)]
    fn h_agg(&self, keys: &Vec<PublicKey>, key: &PublicKey) -> (r: Num)
        requires
            self.0.hash.wf(),
        ensures
            r@ == spec_h_agg(self.0.hash, keys@, key.x@),
    {
        let order = Secp256k1::n();
        let mut preimage = self.encode(keys);
        let kb = key.x().to_le_bytes_canonical();
        let ghost enc = preimage@;
        let mut i: usize = 0;
        while i < 32
            invariant
                i <= 32,
                kb@.len() == 32,
                preimage@ == enc + kb@.take(i as int),
            decreases 32 - i,
        {
            preimage.push(kb[i]);
            assert(preimage@ =~= enc + kb@.take(i + 1));
            i = i + 1;
        }
        assert(preimage@ =~= spec_encode_keys(keys@) + spec_nat_bytes32(key.x@));
        let digest = self.0.hash.hash(preimage.as_slice());
        let padded = resize(digest.as_slice(), 32);
        Num::from_le_bytes(padded.as_slice()).reduce(order)
    }

    /// The aggregate public key point of a key set.
    #[verifier::loop_isolation(false)]
    #[verifier::rlimit(100)]
    #[verifier::spinoff_prover]
    fn combine(&self, keys: &Vec<PublicKey>) -> (r: Point)
        requires
            self.0.hash.wf(),
        ensures
            r@ == spec_combine(self.0.hash, keys@),
            crate::curve::spec_point_reduced(r@),
    {
        let mut acc = Point::infinity();
        let n = keys.len();
        proof {
            assert(keys@.skip(0) =~= keys@);
        }
        let mut i: usize = 0;
        while i < n
            invariant
                i <= n,
                spec_point_reduced_local(acc@),
                spec_combine_from(self.0.hash, keys@, acc@, keys@.skip(i as int)) == spec_combine(
                    self.0.hash,
                    keys@,
                ),
            decreases n - i,
        {
            proof {
                assert(keys@.skip(i as int).first() == keys@[i as int]);
                assert(keys@.skip(i as int).drop_first() =~= keys@.skip(i + 1));
            }
            let a = self.h_agg(keys, &keys[i]);
            let term = keys[i].point().scale(a);
            acc = acc.add(term);
            i = i + 1;
        }
        proof {
            assert(keys@.skip(n as int) =~= Seq::<PublicKey>::empty());
        }
        acc
    }

    /// The signing challenge of a session, or nothing when the aggregate
    /// key degenerates.
    #[verifier::loop_isolation(false)]
    fn h_sig(&self, keys: &Vec<PublicKey>, randomness: &SchnorrRandomness, msg: &[u8]) -> (r:
        Option<Num>)
        requires
            self.0.hash.wf(),
            msg@.len() < 0x1000000000000000,
        ensures
            match r {
                Some(e) => spec_h_sig(self.0.hash, keys@, randomness.total@, msg@) == Some(e@),
                None => spec_h_sig(self.0.hash, keys@, randomness.total@, msg@) is None,
            },
    {
        let order = Secp256k1::n();
        let combined = self.combine(keys);
        let cx = match combined.coordinates() {
            Coordinates::Infinity => {
                return None;
            },
            Coordinates::Finite(x, y) => x,
        };
        let mut preimage = cx.to_le_bytes_canonical();
        let tb = randomness.total.to_le_bytes_canonical();
        let ghost head = preimage@;
        let mut i: usize = 0;
        while i < 32
            invariant
                i <= 32,
                tb@.len() == 32,
                preimage@ == head + tb@.take(i as int),
            decreases 32 - i,
        {
            preimage.push(tb[i]);
            assert(preimage@ =~= head + tb@.take(i + 1));
            i = i + 1;
        }
        let ghost mid = preimage@;
        let mut j: usize = 0;
        while j < msg.len()
            invariant
                j <= msg@.len(),
                preimage@ == mid + msg@.take(j as int),
            decreases msg@.len() - j,
        {
            preimage.push(msg[j]);
            assert(preimage@ =~= mid + msg@.take(j + 1));
            j = j + 1;
        }
        assert(preimage@ =~= spec_nat_bytes32(cx@) + spec_nat_bytes32(randomness.total@) + msg@);
        let digest = self.0.hash.hash(preimage.as_slice());
        let padded = resize(digest.as_slice(), 32);
        Some(Num::from_le_bytes(padded.as_slice()).reduce(order))
    }

    /// Add this signer's partial signature into the running aggregate
    /// signature. The signer passes its private key, the full key set, and
    /// its session randomness; fails only when the aggregate key
    /// degenerates.
    pub fn sign(
        &self,
        key: (PrivateKey, Vec<PublicKey>, SchnorrRandomness),
        msg: &[u8],
        sig: SchnorrSignature,
    ) -> (r: Result<SchnorrSignature, InvalidSignature>)
        requires
            self.0.hash.wf(),
            self.0.hash.spec_digest_size() >= 32,
            msg@.len() < 0x1000000000000000,
        ensures
            match r {
                Ok(sig2) => match spec_h_sig(self.0.hash, key.1@, key.2.total@, msg@) {
                    Some(e) => match spec_point_scale(spec_secp_g(), key.0.0@) {
                        PointValue::Finite(px, py) => {
                            let nn = spec_secp_n();
                            let c = ((spec_h_agg(self.0.hash, key.1@, px) * e) as int % nn
                                as int) as nat;
                            let si = spec_sub_mod(
                                key.2.local@,
                                ((key.0.0@ * c) as int % nn as int) as nat,
                                nn,
                            );
                            sig2.e@ == e && sig2.s@ == (sig.s@ + si) as int % nn as int
                        },
                        PointValue::Infinity => true,
                    },
                    None => false,
                },
                Err(_) => spec_h_sig(self.0.hash, key.1@, key.2.total@, msg@) is None,
            },
    {
        let (key, pubkeys, randomness) = key;
        let order = Secp256k1::n();
        let pubkey = key.derive();
        let a = self.h_agg(&pubkeys, &pubkey);
        let e = match self.h_sig(&pubkeys, &randomness, msg) {
            Some(e) => e,
            None => {
                return Err(InvalidSignature);
            },
        };
        let c = a.mul(e, order);
        proof {
            vstd::arithmetic::div_mod::lemma_mod_bound(
                (key.0@ * c@) as int,
                spec_secp_n() as int,
            );
        }
        let s = randomness.local.sub(key.0.mul(c, order), order);
        Ok(SchnorrSignature { s: sig.s().add(s, order), e })
    }

    /// Verify an aggregate signature against the key set: combine the keys
    /// into the aggregate public key and verify the ordinary Schnorr
    /// signature against it. Fails when the aggregate key degenerates.
    pub fn verify(&self, keys: &Vec<PublicKey>, msg: &[u8], sig: &SchnorrSignature) -> (r: Result<
        (),
        InvalidSignature,
    >)
        requires
            self.0.hash.wf(),
            self.0.hash.spec_digest_size() >= 32,
            msg@.len() < 0x1000000000000000,
        ensures
            r is Ok <==> match spec_combine(self.0.hash, keys@) {
                PointValue::Infinity => false,
                PointValue::Finite(cx, cy) => crate::schnorr::spec_schnorr_verify(
                    self.0.hash,
                    cx,
                    cy,
                    msg@,
                    sig.s@,
                    sig.e@,
                ),
            },
    {
        let combined = self.combine(keys);
        let key = match PublicKey::new(combined) {
            Ok(k) => k,
            Err(_) => {
                return Err(InvalidSignature);
            },
        };
        self.0.verify(key, msg, sig)
    }
}

} // verus!
