//! The Fortuna pseudorandom generator.

use vstd::prelude::*;
use crate::cipher::{BlockEncrypt, CipherEncrypt};
use crate::ctr::{spec_ctr_cipher, BlockSizeTooSmall, Ctr};
use crate::random::{Csprng, Entropy};

verus! {

/// Fortuna is a [CSPRNG](Csprng) built from a [block cipher](BlockEncrypt)
/// in counter mode and a [hash function](crate::hash::Hash).
///
/// The generator produces its stream in runs of 2048 bytes. Before each run
/// it reseeds: it requests 32 bytes from the [entropy source](Entropy),
/// hashes the old key together with the seed into the new key, and encrypts
/// a run of zeros under the new key in counter mode restarting from zero.
/// The stream is therefore a deterministic function of the entropy bytes:
/// the key starts all zero, [`Fortuna::reseed`] pins each rekeying and
/// refill exactly, and the bytes are handed out in buffer order. The
/// periodic rekeying keeps an attacker who captures the state from
/// predicting past or distant future output.
pub struct Fortuna<Ent, Enc, H> {
    pub entropy: Ent,
    pub ctr: Ctr<Enc>,
    pub hash: H,
    pub key: Vec<u8>,
    pub buffer: Vec<u8>,
    pub pos: usize,
}

impl<Ent: Entropy, Enc: BlockEncrypt, H: crate::hash::Hash> Fortuna<Ent, Enc, H> {
    /// An entropy source, a block cipher and a hash make a generator; fails
    /// when the cipher's blocks cannot hold the counter. The generator
    /// starts with an all-zero key, the counter at zero, and an empty
    /// buffer, so the first draw reseeds at once.
    pub fn new(entropy: Ent, enc: Enc, hash: H) -> (r: Result<Self, BlockSizeTooSmall>)
        requires
            hash.wf(),
            hash.spec_digest_size() == enc.spec_key_size(),
            enc.spec_key_size() < 0x1000000000000000,
        ensures
            match r {
                Ok(f) => {
                    &&& f.wf()
                    &&& f.entropy == entropy
                    &&& f.ctr.enc == enc
                    &&& f.ctr.nonce == 0
                    &&& f.hash == hash
                    &&& f.key@ == Seq::new(enc.spec_key_size(), |i: int| 0u8)
                    &&& f.buffer@.len() == 0
                    &&& f.pos == 0
                },
                Err(_) => enc.spec_block_size() < 8,
            },
    {
        let key_size = enc.key_size();
        let ctr = match Ctr::new(enc, 0) {
            Ok(c) => c,
            Err(e) => {
                return Err(e);
            },
        };
        let mut key: Vec<u8> = Vec::new();
        let mut i: usize = 0;
        while i < key_size
            invariant
                key@.len() == i,
                i <= key_size,
                forall|j: int| 0 <= j < i ==> key@[j] == 0u8,
            decreases key_size - i,
        {
            key.push(0);
            i = i + 1;
        }
        assert(key@ =~= Seq::new(enc.spec_key_size(), |j: int| 0u8));
        Ok(Fortuna { entropy, ctr, hash, key, buffer: Vec::new(), pos: 0 })
    }

    /// One reseed: hash the old key and the seed into the new key, and
    /// refill the buffer by encrypting a run of zeros in counter mode
    /// under the new key, the counter restarting from the stored nonce.
    #[verifier::loop_isolation(false)]
    pub fn reseed(&mut self, seed: &[u8])
        requires
            old(self).wf(),
            seed@.len() == 32,
        ensures
            final(self).wf(),
            final(self).entropy == old(self).entropy,
            final(self).ctr == old(self).ctr,
            final(self).hash == old(self).hash,
            final(self).key@ == old(self).hash.spec_hash(old(self).key@ + seed@),
            final(self).buffer@ == spec_ctr_cipher(
                old(self).ctr.enc,
                Seq::new(2048, |i: int| 0u8),
                final(self).key@,
                old(self).ctr.nonce,
            ),
            final(self).buffer@.len() == 2048,
            final(self).pos == 0,
    {
        // The cipher key is updated by hashing the old key and the entropy
        // bytes.
        let mut key_and_seed: Vec<u8> = Vec::new();
        let mut i: usize = 0;
        let klen = self.key.len();
        while i < klen
            invariant
                i <= klen,
                klen == self.key@.len(),
                self == old(self),
                key_and_seed@ == self.key@.take(i as int),
            decreases klen - i,
        {
            key_and_seed.push(self.key[i]);
            assert(key_and_seed@ =~= self.key@.take(i + 1));
            i = i + 1;
        }
        assert(key_and_seed@ =~= self.key@);
        let mut j: usize = 0;
        while j < 32
            invariant
                j <= 32,
                seed@.len() == 32,
                self == old(self),
                key_and_seed@ == self.key@ + seed@.take(j as int),
            decreases 32 - j,
        {
            key_and_seed.push(seed[j]);
            assert(key_and_seed@ =~= self.key@ + seed@.take(j + 1));
            j = j + 1;
        }
        assert(key_and_seed@ =~= old(self).key@ + seed@);
        self.key = self.hash.hash(key_and_seed.as_slice());

        // Produce the next run of pseudorandom bytes by encrypting zeros in
        // counter mode under the new key.
        let mut zeros: Vec<u8> = Vec::new();
        let mut z: usize = 0;
        while z < 2048
            invariant
                z <= 2048,
                zeros@.len() == z,
                forall|y: int| 0 <= y < z ==> zeros@[y] == 0u8,
            decreases 2048 - z,
        {
            zeros.push(0);
            z = z + 1;
        }
        assert(zeros@ =~= Seq::new(2048, |y: int| 0u8));
        let run = match self.ctr.encrypt(zeros, self.key.as_slice()) {
            Ok(c) => c,
            Err(_) => {
                proof {
                    assert(false);
                }
                Vec::new()
            },
        };
        self.buffer = run;
        self.pos = 0;
    }
}

impl<Ent: Entropy, Enc: BlockEncrypt, H: crate::hash::Hash> Csprng for Fortuna<Ent, Enc, H> {
    open spec fn wf(&self) -> bool {
        &&& self.hash.wf()
        &&& self.hash.spec_digest_size() == self.ctr.enc.spec_key_size()
        &&& self.ctr.enc.spec_block_size() >= 8
        &&& self.key@.len() == self.ctr.enc.spec_key_size()
        &&& self.ctr.enc.spec_key_size() < 0x1000000000000000
        &&& self.pos <= self.buffer@.len()
    }

    /// Hand out the next `n` bytes of the stream: bytes come from the
    /// buffer in order, and the generator reseeds through
    /// [`Fortuna::reseed`] whenever the buffer runs dry. As long as the
    /// current buffer lasts, the draw is pinned exactly; the cipher, the
    /// hash and the counter never change.
    #[verifier::loop_isolation(false)]
    fn gen_bytes(&mut self, n: usize) -> (r: Vec<u8>)
        ensures
            final(self).ctr == old(self).ctr,
            final(self).hash == old(self).hash,
            old(self).pos + n <= old(self).buffer@.len() ==> {
                &&& r@ == old(self).buffer@.subrange(
                    old(self).pos as int,
                    old(self).pos + n,
                )
                &&& final(self).key == old(self).key
                &&& final(self).buffer == old(self).buffer
                &&& final(self).pos == old(self).pos + n
            },
    {
        let mut out: Vec<u8> = Vec::new();
        let ghost mut reseeded: bool = false;
        proof {
            assert(Seq::<u8>::empty() =~= old(self).buffer@.subrange(
                old(self).pos as int,
                old(self).pos as int,
            ));
        }
        while out.len() < n
            invariant
                self.wf(),
                out@.len() <= n,
                self.ctr == old(self).ctr,
                self.hash == old(self).hash,
                !reseeded ==> {
                    &&& self.key == old(self).key
                    &&& self.buffer == old(self).buffer
                    &&& self.pos == old(self).pos + out@.len()
                    &&& out@ == old(self).buffer@.subrange(
                        old(self).pos as int,
                        old(self).pos + out@.len(),
                    )
                },
                reseeded ==> old(self).pos + n > old(self).buffer@.len(),
            decreases n - out@.len(),
        {
            if self.pos == self.buffer.len() {
                // Fetch random bytes from the source of entropy to use for
                // reseeding.
                let seed = self.entropy.get(32);
                self.reseed(seed.as_slice());
                proof {
                    reseeded = true;
                }
            }
            out.push(self.buffer[self.pos]);
            proof {
                if !reseeded {
                    assert(out@ =~= old(self).buffer@.subrange(
                        old(self).pos as int,
                        old(self).pos + out@.len(),
                    ));
                }
            }
            self.pos = self.pos + 1;
        }
        out
    }
}

} // verus!
