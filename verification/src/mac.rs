//! Message authentication codes.

use vstd::prelude::*;
use crate::util::{resize, spec_resize};

verus! {

/// A message authentication code algorithm: a keyed [hash](crate::hash::Hash).
///
/// A MAC takes a message and a key and produces a fixed-size tag, which can
/// prove that a message was not modified in transit and that it was signed
/// with a specific pre-shared key. A MAC does not prevent man-in-the-middle
/// or replay attacks.
pub trait Mac: Sized {
    /// Which messages and keys this MAC accepts.
    spec fn spec_mac_req(&self, msg: Seq<u8>, key: Seq<u8>) -> bool;

    /// The tag size in bytes.
    spec fn spec_tag_size(&self) -> nat;

    /// The tag for the given message and key.
    spec fn spec_mac(&self, msg: Seq<u8>, key: Seq<u8>) -> Seq<u8>;

    /// Compute the tag of a message.
    fn mac(&mut self, msg: &[u8], key: &[u8]) -> (r: Vec<u8>)
        requires
            old(self).spec_mac_req(msg@, key@),
        ensures
            r@ == old(self).spec_mac(msg@, key@),
            r@.len() == old(self).spec_tag_size(),
            *final(self) == *old(self),
    ;
}

/// Every byte of `s` XORed with `b`.
pub open spec fn spec_xor_each(s: Seq<u8>, b: u8) -> Seq<u8> {
    Seq::new(s.len(), |i: int| s[i] ^ b)
}

/// The derived HMAC key: the key zero-padded to the block size, hashed first
/// when it is longer than a block.
pub open spec fn spec_hmac_key<H: crate::hash::Hash>(h: H, key: Seq<u8>) -> Seq<u8> {
    if key.len() <= h.spec_block_size() {
        spec_resize(key, h.spec_block_size())
    } else {
        spec_resize(h.spec_hash(key), h.spec_block_size())
    }
}

/// The HMAC tag: the hash of the outer-padded key and the hash of the
/// inner-padded key and the message.
pub open spec fn spec_hmac<H: crate::hash::Hash>(h: H, msg: Seq<u8>, key: Seq<u8>) -> Seq<u8> {
    let k = spec_hmac_key(h, key);
    let inner = h.spec_hash(spec_xor_each(k, 0x36) + msg);
    h.spec_hash(spec_xor_each(k, 0x5c) + inner)
}

/// A hash-based message authentication code: a [MAC](Mac) built from any
/// [hash function](crate::hash::Hash).
///
/// The key is zero-padded to the internal block size of the hash (hashed
/// first if longer). An inner hash is computed over the key XORed with a
/// block of `0x36` bytes followed by the message, and the tag is the hash of
/// the key XORed with a block of `0x5c` bytes followed by the inner hash.
/// This construction is resistant to length-extension attacks even when the
/// underlying hash is not.
pub struct Hmac<H> {
    pub hash: H,
}

impl<H: crate::hash::Hash> Hmac<H> {
    /// Wrap a hash function into a MAC.
    pub fn new(h: H) -> (r: Self)
        ensures
            r.hash == h,
    {
        Hmac { hash: h }
    }
}

impl<H: crate::hash::Hash> Mac for Hmac<H> {
    open spec fn spec_mac_req(&self, msg: Seq<u8>, key: Seq<u8>) -> bool {
        &&& self.hash.wf()
        &&& 0 < self.hash.spec_block_size()
        &&& key.len() < 0x2000000000000000
        &&& self.hash.spec_block_size() + msg.len() < 0x2000000000000000
        &&& self.hash.spec_block_size() + self.hash.spec_digest_size() < 0x2000000000000000
    }

    open spec fn spec_tag_size(&self) -> nat {
        self.hash.spec_digest_size()
    }

    open spec fn spec_mac(&self, msg: Seq<u8>, key: Seq<u8>) -> Seq<u8> {
        spec_hmac(self.hash, msg, key)
    }

    #[verifier::loop_isolation(false)]
    fn mac(&mut self, msg: &[u8], key: &[u8]) -> (r: Vec<u8>) {
        let bb = self.hash.block_size();
        // Derive the padded key from the key.
        let k = if key.len() <= bb {
            resize(key, bb)
        } else {
            let hk = self.hash.hash(key);
            resize(hk.as_slice(), bb)
        };
        let ghost kk = spec_hmac_key(self.hash, key@);
        assert(k@ == kk);

        // Compute the inner hash over the inner-padded key and the message.
        let mut inner_pre: Vec<u8> = Vec::new();
        let mut i: usize = 0;
        while i < bb
            invariant
                i <= bb,
                k@.len() == bb,
                inner_pre@.len() == i,
                forall|j: int| 0 <= j < i ==> inner_pre@[j] == (kk[j] ^ 0x36u8),
            decreases bb - i,
        {
            inner_pre.push(k[i] ^ 0x36);
            i = i + 1;
        }
        let mut m: usize = 0;
        while m < msg.len()
            invariant
                m <= msg@.len(),
                inner_pre@.len() == bb + m,
                forall|j: int| 0 <= j < bb ==> inner_pre@[j] == (kk[j] ^ 0x36u8),
                forall|j: int| 0 <= j < m ==> inner_pre@[bb + j] == msg@[j],
            decreases msg@.len() - m,
        {
            inner_pre.push(msg[m]);
            m = m + 1;
        }
        assert(inner_pre@ =~= spec_xor_each(kk, 0x36) + msg@);
        let inner = self.hash.hash(inner_pre.as_slice());

        // Compute the outer hash, which is the resulting tag.
        let mut outer_pre: Vec<u8> = Vec::new();
        let mut o: usize = 0;
        while o < bb
            invariant
                o <= bb,
                k@.len() == bb,
                outer_pre@.len() == o,
                forall|j: int| 0 <= j < o ==> outer_pre@[j] == (kk[j] ^ 0x5cu8),
            decreases bb - o,
        {
            outer_pre.push(k[o] ^ 0x5c);
            o = o + 1;
        }
        let mut q: usize = 0;
        while q < inner.len()
            invariant
                q <= inner@.len(),
                outer_pre@.len() == bb + q,
                forall|j: int| 0 <= j < bb ==> outer_pre@[j] == (kk[j] ^ 0x5cu8),
                forall|j: int| 0 <= j < q ==> outer_pre@[bb + j] == inner@[j],
            decreases inner@.len() - q,
        {
            outer_pre.push(inner[q]);
            q = q + 1;
        }
        assert(outer_pre@ =~= spec_xor_each(kk, 0x5c) + inner@);
        self.hash.hash(outer_pre.as_slice())
    }
}

} // verus!
