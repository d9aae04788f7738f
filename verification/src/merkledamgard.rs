//! The Merkle-Damgard construction and the Davies-Meyer compression adapter.
//!
//! Merkle-Damgard builds a hash function from a compression function: the
//! preimage is padded into blocks, and the compression function is folded
//! over the blocks starting from a fixed initialization vector; the final
//! state is the digest. If the compression function and the padding are
//! secure, a collision in the hash must stem from a collision in the
//! compression function. Hashes built this way expose the whole final state,
//! so they are subject to length-extension attacks; truncating the state
//! (as SHA-224 does) avoids that.

use vstd::prelude::*;
use crate::cipher::BlockEncrypt;

verus! {

/// A compression function used internally by the
/// [Merkle-Damgard construction](MerkleDamgard).
///
/// It takes the current state and one preimage block and produces a new
/// state. To be secure its output should be one-way: it should be impossible
/// to recover an old state from the current one.
pub trait CompressionFn: Sized {
    /// The state size in bytes.
    spec fn spec_state_size(&self) -> nat;

    /// The preimage block size in bytes.
    spec fn spec_msg_block_size(&self) -> nat;

    /// The new state for the given state and block.
    spec fn spec_compress(&self, state: Seq<u8>, block: Seq<u8>) -> Seq<u8>;

    /// Compression preserves the state size.
    proof fn lemma_compress_len(&self, state: Seq<u8>, block: Seq<u8>)
        requires
            state.len() == self.spec_state_size(),
            block.len() == self.spec_msg_block_size(),
        ensures
            self.spec_compress(state, block).len() == self.spec_state_size(),
    ;

    /// Feed one block into the state.
    fn compress(&self, state: Vec<u8>, block: &[u8]) -> (r: Vec<u8>)
        requires
            state@.len() == self.spec_state_size(),
            block@.len() == self.spec_msg_block_size(),
        ensures
            r@ == self.spec_compress(state@, block@),
            r@.len() == self.spec_state_size(),
    ;
}

/// The padding scheme used by the [Merkle-Damgard construction](MerkleDamgard).
///
/// It extends the preimage to a whole number of blocks. To be secure
/// ("Merkle-Damgard compliant") the original message must be a prefix of the
/// padding, messages of equal length must pad to equal length, and messages
/// of unequal length must differ in their final blocks.
pub trait MerkleDamgardPad: Sized {
    /// The block size in bytes.
    spec fn spec_pad_block_size(&self) -> nat;

    /// The preimage extended to a whole number of blocks.
    spec fn spec_pad(&self, preimage: Seq<u8>) -> Seq<u8>;

    /// The padded preimage is a whole number of non-zero blocks.
    proof fn lemma_pad_len(&self, preimage: Seq<u8>)
        requires
            preimage.len() < 0x2000000000000000,
        ensures
            self.spec_pad(preimage).len() as int % (self.spec_pad_block_size() as int) == 0,
            self.spec_pad_block_size() > 0,
    ;

    /// Pad the preimage.
    fn pad(&self, preimage: &[u8]) -> (r: Vec<u8>)
        requires
            preimage@.len() < 0x2000000000000000,
        ensures
            r@ == self.spec_pad(preimage@),
    ;

    /// The block size in bytes.
    fn pad_block_size(&self) -> (r: usize)
        ensures
            r == self.spec_pad_block_size(),
    ;
}

/// The compression function folded over the blocks of `data`, starting from
/// `state`.
pub open spec fn spec_md_fold<F: CompressionFn>(f: F, state: Seq<u8>, data: Seq<u8>) -> Seq<u8>
    decreases data.len(),
{
    let bs = f.spec_msg_block_size() as int;
    if bs <= 0 || data.len() < bs {
        state
    } else {
        spec_md_fold(f, f.spec_compress(state, data.take(bs)), data.skip(bs))
    }
}

/// The Merkle-Damgard construction, used as a building block for
/// [hash functions](crate::hash::Hash).
pub struct MerkleDamgard<F, P> {
    pub f: F,
    pub pad: P,
    pub iv: Vec<u8>,
}

impl<F: CompressionFn, P: MerkleDamgardPad> MerkleDamgard<F, P> {
    /// A compression function, a padding scheme, and an initial state make a
    /// hash function.
    pub fn new(f: F, pad: P, iv: Vec<u8>) -> (r: Self)
        requires
            iv@.len() == f.spec_state_size(),
            pad.spec_pad_block_size() == f.spec_msg_block_size(),
        ensures
            r.f == f,
            r.pad == pad,
            r.iv == iv,
    {
        MerkleDamgard { f, pad, iv }
    }
}

impl<F: CompressionFn, P: MerkleDamgardPad> crate::hash::Hash for MerkleDamgard<F, P> {
    open spec fn wf(&self) -> bool {
        &&& self.iv@.len() == self.f.spec_state_size()
        &&& self.pad.spec_pad_block_size() == self.f.spec_msg_block_size()
    }

    open spec fn spec_digest_size(&self) -> nat {
        self.f.spec_state_size()
    }

    open spec fn spec_block_size(&self) -> nat {
        self.pad.spec_pad_block_size()
    }

    fn block_size(&self) -> (r: usize) {
        self.pad.pad_block_size()
    }

    open spec fn spec_hash(&self, preimage: Seq<u8>) -> Seq<u8> {
        spec_md_fold(self.f, self.iv@, self.pad.spec_pad(preimage))
    }

    #[verifier::loop_isolation(false)]
    fn hash(&self, preimage: &[u8]) -> (r: Vec<u8>) {
        let bs = self.pad.pad_block_size();
        let padded = self.pad.pad(preimage);
        let ghost p = padded@;
        proof {
            self.pad.lemma_pad_len(preimage@);
        }
        let mut state = vstd::slice::slice_to_vec(self.iv.as_slice());
        let n = padded.len();
        assert(p.skip(0) =~= p);
        let mut i: usize = 0;
        while i < n
            invariant
                i <= n,
                i as int % bs as int == 0,
                state@.len() == self.f.spec_state_size(),
                spec_md_fold(self.f, state@, p.skip(i as int)) == spec_md_fold(self.f, self.iv@, p),
            decreases n - i,
        {
            proof {
                vstd::arithmetic::div_mod::lemma_mod_bound(i as int, bs as int);
                if n - i < bs {
                    vstd::arithmetic::div_mod::lemma_mod_adds(i as int, (n - i) as int, bs as int);
                    vstd::arithmetic::div_mod::lemma_small_mod((n - i) as nat, bs as nat);
                    assert(n as int % bs as int != 0);
                }
            }
            let block = vstd::slice::slice_subrange(padded.as_slice(), i, i + bs);
            let ghost rest = p.skip(i as int);
            assert(rest.take(bs as int) =~= block@);
            assert(rest.skip(bs as int) =~= p.skip(i as int + bs as int));
            state = self.f.compress(state, block);
            proof {
                vstd::arithmetic::div_mod::lemma_mod_adds(i as int, bs as int, bs as int);
                vstd::arithmetic::div_mod::lemma_mod_self_0(bs as int);
            }
            i = i + bs;
        }
        assert(p.skip(n as int) =~= Seq::<u8>::empty());
        state
    }
}

/// The step function of the [Davies-Meyer](DaviesMeyer) construction: how the
/// previous state is combined with the cipher output to make the new state.
///
/// This must be one-way; XOR or word-wise modular addition suffices.
pub trait DaviesMeyerStep: Sized {
    /// The combination of the previous state and the cipher output.
    spec fn spec_step(&self, prev: Seq<u8>, new: Seq<u8>) -> Seq<u8>;

    /// The step preserves the state size.
    proof fn lemma_step_len(&self, prev: Seq<u8>, new: Seq<u8>)
        requires
            prev.len() == new.len(),
        ensures
            self.spec_step(prev, new).len() == new.len(),
    ;

    /// Combine the previous state with the cipher output.
    fn step(&self, prev: &[u8], new: Vec<u8>) -> (r: Vec<u8>)
        requires
            prev@.len() == new@.len(),
        ensures
            r@ == self.spec_step(prev@, new@),
            r@.len() == new@.len(),
    ;
}

/// The Davies-Meyer construction turns a [block cipher](BlockEncrypt) into a
/// [Merkle-Damgard compression function](CompressionFn).
///
/// The state acts as the plaintext and the preimage block as the key: the new
/// state is `step(state, encrypt(state, block))`. The step keeps the
/// construction one-way even though the cipher itself is invertible under a
/// known key.
pub struct DaviesMeyer<Enc, Step> {
    pub enc: Enc,
    pub step: Step,
}

impl<Enc: BlockEncrypt, Step: DaviesMeyerStep> DaviesMeyer<Enc, Step> {
    /// A block cipher and a step function make a compression function.
    pub fn new(enc: Enc, step: Step) -> (r: Self)
        ensures
            r.enc == enc,
            r.step == step,
    {
        DaviesMeyer { enc, step }
    }
}

impl<Enc: BlockEncrypt, Step: DaviesMeyerStep> CompressionFn for DaviesMeyer<Enc, Step> {
    open spec fn spec_state_size(&self) -> nat {
        self.enc.spec_block_size()
    }

    open spec fn spec_msg_block_size(&self) -> nat {
        self.enc.spec_key_size()
    }

    open spec fn spec_compress(&self, state: Seq<u8>, block: Seq<u8>) -> Seq<u8> {
        self.step.spec_step(state, self.enc.spec_encrypt_block(state, block))
    }

    proof fn lemma_compress_len(&self, state: Seq<u8>, block: Seq<u8>) {
        self.enc.lemma_encrypt_len(state, block);
        self.step.lemma_step_len(state, self.enc.spec_encrypt_block(state, block));
    }

    fn compress(&self, state: Vec<u8>, block: &[u8]) -> (r: Vec<u8>) {
        let encrypted = self.enc.encrypt_block(state.as_slice(), block);
        let out = self.step.step(state.as_slice(), encrypted);
        proof {
            self.lemma_compress_len(state@, block@);
        }
        out
    }
}

} // verus!
