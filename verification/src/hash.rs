//! Cryptographic hash functions.

use vstd::prelude::*;

verus! {

/// A cryptographic hash function maps a preimage of arbitrary length into a
/// fixed-size hash digest.
///
/// To be cryptographically secure, this function must be one-way and
/// collision resistant: given a digest there must be no better way to find a
/// preimage than brute force, and no better way to find two preimages with
/// the same digest.
pub trait Hash: Sized {
    /// A well-formed instance: its parts agree on their sizes.
    spec fn wf(&self) -> bool;

    /// The digest size in bytes.
    spec fn spec_digest_size(&self) -> nat;

    /// The internal block size in bytes, as used by HMAC.
    spec fn spec_block_size(&self) -> nat;

    /// The internal block size in bytes.
    fn block_size(&self) -> (r: usize)
        requires
            self.wf(),
        ensures
            r == self.spec_block_size(),
    ;

    /// The digest of a preimage.
    spec fn spec_hash(&self, preimage: Seq<u8>) -> Seq<u8>;

    /// Hash the preimage. The length bound keeps the bit length of the
    /// preimage within a 64-bit word, as the length padding requires.
    fn hash(&self, preimage: &[u8]) -> (r: Vec<u8>)
        requires
            self.wf(),
            preimage@.len() < 0x2000000000000000,
        ensures
            r@ == self.spec_hash(preimage@),
            r@.len() == self.spec_digest_size(),
    ;
}

} // verus!
