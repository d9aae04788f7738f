//! Electronic codebook mode, a simple and insecure mode of operation.
//!
//! ECB is the simplest mode of operation for block ciphers: it splits the
//! padded input data into blocks and encrypts each block independently. It is
//! insecure because the same block of plaintext always encrypts to the same
//! block of ciphertext, which lets an observer recognise repeated messages;
//! it is provided for completeness.

use vstd::prelude::*;
use crate::cipher::{BlockCipher, BlockEncrypt, BlockMode, Cipher, CipherDecrypt, CipherEncrypt};
use crate::padding::{InvalidPadding, Padding};

verus! {

/// Each full block of `data` encrypted independently under `key`, in order.
pub open spec fn spec_ecb_encrypt_blocks<Cip: BlockEncrypt>(
    cip: Cip,
    data: Seq<u8>,
    key: Seq<u8>,
) -> Seq<u8>
    decreases data.len(),
{
    let bs = cip.spec_block_size() as int;
    if bs <= 0 || data.len() < bs {
        Seq::empty()
    } else {
        cip.spec_encrypt_block(data.take(bs), key) + spec_ecb_encrypt_blocks(
            cip,
            data.skip(bs),
            key,
        )
    }
}

/// Each full block of `data` decrypted independently under `key`, in order.
pub open spec fn spec_ecb_decrypt_blocks<Cip: BlockCipher>(
    cip: Cip,
    data: Seq<u8>,
    key: Seq<u8>,
) -> Seq<u8>
    decreases data.len(),
{
    let bs = cip.spec_block_size() as int;
    if bs <= 0 || data.len() < bs {
        Seq::empty()
    } else {
        cip.spec_decrypt_block(data.take(bs), key) + spec_ecb_decrypt_blocks(
            cip,
            data.skip(bs),
            key,
        )
    }
}

/// Electronic codebook [mode of operation](crate::BlockMode).
pub struct Ecb<Cip, Pad> {
    pub cip: Cip,
    pub pad: Pad,
}

impl<Cip: BlockCipher, Pad: Padding> Ecb<Cip, Pad> {
    /// A cipher and a padding scheme make an ECB mode instance. The block
    /// size must be one the padding scheme can express.
    pub fn new(cip: Cip, pad: Pad) -> (r: Self)
        requires
            0 < cip.spec_block_size() < 256,
        ensures
            r.cip == cip,
            r.pad == pad,
    {
        Ecb { cip, pad }
    }
}

impl<Cip: BlockCipher, Pad: Padding> CipherEncrypt for Ecb<Cip, Pad> {
    type EncryptionErr = InvalidPadding;

    open spec fn enc_key_req(&self, key: Seq<u8>) -> bool {
        &&& 0 < self.cip.spec_block_size() < 256
        &&& key.len() == self.cip.spec_key_size()
    }

    open spec fn spec_encrypt(&self, data: Seq<u8>, key: Seq<u8>) -> Option<Seq<u8>> {
        Some(
            spec_ecb_encrypt_blocks(
                self.cip,
                self.pad.spec_pad(data, self.cip.spec_block_size()),
                key,
            ),
        )
    }

    #[verifier::loop_isolation(false)]
    fn encrypt(&self, data: Vec<u8>, key: &[u8]) -> (r: Result<
        Vec<u8>,
        Self::EncryptionErr,
    >) {
        let ghost orig = data@;
        let bs = self.cip.block_size();
        let padded = self.pad.pad(data, bs);
        let ghost p = padded@;
        let mut out: Vec<u8> = Vec::new();
        let n = padded.len();
        assert(p.skip(0) =~= p);
        assert(Seq::<u8>::empty() + spec_ecb_encrypt_blocks(self.cip, p, key@)
            =~= spec_ecb_encrypt_blocks(self.cip, p, key@));
        let mut i: usize = 0;
        while i < n
            invariant
                i <= n,
                n == p.len(),
                padded@ == p,
                i as int % bs as int == 0,
                out@ + spec_ecb_encrypt_blocks(self.cip, p.skip(i as int), key@)
                    == spec_ecb_encrypt_blocks(self.cip, p, key@),
            decreases n - i,
        {
            proof {
                vstd::arithmetic::div_mod::lemma_mod_bound(i as int, bs as int);
                if n - i < bs {
                    vstd::arithmetic::div_mod::lemma_mod_adds(i as int, (n - i) as int, bs as int);
                    vstd::arithmetic::div_mod::lemma_small_mod((n - i) as nat, bs as nat);
                    assert(n as int % bs as int != 0);
                }
            }
            let block = vstd::slice::slice_subrange(padded.as_slice(), i, i + bs);
            let enc = self.cip.encrypt_block(block, key);
            let ghost rest = p.skip(i as int);
            assert(rest.take(bs as int) =~= block@);
            assert(rest.skip(bs as int) =~= p.skip(i as int + bs as int));
            let ghost old_out = out@;
            let mut j: usize = 0;
            while j < bs
                invariant
                    j <= bs,
                    enc@.len() == bs,
                    out@ == old_out + enc@.take(j as int),
                decreases bs - j,
            {
                out.push(enc[j]);
                assert(out@ =~= old_out + enc@.take(j as int + 1));
                j = j + 1;
            }
            assert(out@ =~= old_out + enc@);
            proof {
                vstd::arithmetic::div_mod::lemma_mod_adds(i as int, bs as int, bs as int);
                vstd::arithmetic::div_mod::lemma_mod_self_0(bs as int);
            }
            i = i + bs;
        }
        assert(p.skip(n as int) =~= Seq::<u8>::empty());
        assert(out@ + Seq::<u8>::empty() =~= out@);
        Ok(out)
    }
}

impl<Cip: BlockCipher, Pad: Padding> CipherDecrypt for Ecb<Cip, Pad> {
    type DecryptionErr = InvalidPadding;

    open spec fn dec_key_req(&self, key: Seq<u8>) -> bool {
        &&& 0 < self.cip.spec_block_size() < 256
        &&& key.len() == self.cip.spec_key_size()
    }

    open spec fn spec_decrypt(&self, data: Seq<u8>, key: Seq<u8>) -> Option<Seq<u8>> {
        let bs = self.cip.spec_block_size();
        if data.len() as int % bs as int == 0 {
            self.pad.spec_unpad(spec_ecb_decrypt_blocks(self.cip, data, key), bs)
        } else {
            None
        }
    }

    #[verifier::loop_isolation(false)]
    fn decrypt(&self, data: Vec<u8>, key: &[u8]) -> (r: Result<
        Vec<u8>,
        Self::DecryptionErr,
    >) {
        let ghost orig = data@;
        let bs = self.cip.block_size();
        if data.len() % bs != 0 {
            return Err(InvalidPadding);
        }
        let mut out: Vec<u8> = Vec::new();
        let n = data.len();
        assert(orig.skip(0) =~= orig);
        assert(Seq::<u8>::empty() + spec_ecb_decrypt_blocks(self.cip, orig, key@)
            =~= spec_ecb_decrypt_blocks(self.cip, orig, key@));
        let mut i: usize = 0;
        while i < n
            invariant
                i <= n,
                i as int % bs as int == 0,
                n as int % bs as int == 0,
                out@ + spec_ecb_decrypt_blocks(self.cip, orig.skip(i as int), key@)
                    == spec_ecb_decrypt_blocks(self.cip, orig, key@),
            decreases n - i,
        {
            proof {
                vstd::arithmetic::div_mod::lemma_mod_bound(i as int, bs as int);
                if n - i < bs {
                    vstd::arithmetic::div_mod::lemma_mod_adds(i as int, (n - i) as int, bs as int);
                    vstd::arithmetic::div_mod::lemma_small_mod((n - i) as nat, bs as nat);
                    assert(n as int % bs as int != 0);
                }
            }
            let block = vstd::slice::slice_subrange(data.as_slice(), i, i + bs);
            let dec = self.cip.decrypt_block(block, key);
            let ghost rest = orig.skip(i as int);
            assert(rest.take(bs as int) =~= block@);
            assert(rest.skip(bs as int) =~= orig.skip(i as int + bs as int));
            let ghost old_out = out@;
            let mut j: usize = 0;
            while j < bs
                invariant
                    j <= bs,
                    dec@.len() == bs,
                    out@ == old_out + dec@.take(j as int),
                decreases bs - j,
            {
                out.push(dec[j]);
                assert(out@ =~= old_out + dec@.take(j as int + 1));
                j = j + 1;
            }
            assert(out@ =~= old_out + dec@);
            proof {
                vstd::arithmetic::div_mod::lemma_mod_adds(i as int, bs as int, bs as int);
                vstd::arithmetic::div_mod::lemma_mod_self_0(bs as int);
            }
            i = i + bs;
        }
        assert(orig.skip(n as int) =~= Seq::<u8>::empty());
        assert(out@ + Seq::<u8>::empty() =~= out@);
        self.pad.unpad(out, bs)
    }
}

/// Block-by-block decryption inverts block-by-block encryption when the data
/// is a whole number of blocks.
proof fn lemma_ecb_blocks_round_trip<Cip: BlockCipher>(cip: Cip, data: Seq<u8>, key: Seq<u8>)
    requires
        cip.spec_block_size() > 0,
        data.len() as int % cip.spec_block_size() as int == 0,
        key.len() == cip.spec_key_size(),
    ensures
        spec_ecb_decrypt_blocks(cip, spec_ecb_encrypt_blocks(cip, data, key), key) == data,
        spec_ecb_encrypt_blocks(cip, data, key).len() == data.len(),
    decreases data.len(),
{
    let bs = cip.spec_block_size() as int;
    if data.len() == 0 {
        assert(spec_ecb_encrypt_blocks(cip, data, key) =~= Seq::<u8>::empty());
        assert(spec_ecb_decrypt_blocks(cip, Seq::<u8>::empty(), key) =~= data);
    } else {
        let head = data.take(bs);
        let tail = data.skip(bs);
        assert(data.len() >= bs) by {
            if data.len() < cip.spec_block_size() {
                vstd::arithmetic::div_mod::lemma_small_mod(data.len(), cip.spec_block_size());
            }
        }
        assert(tail.len() as int % bs == 0) by {
            vstd::arithmetic::div_mod::lemma_mod_sub_multiples_vanish(data.len() as int, bs);
            assert((data.len() - bs) as int % bs == data.len() as int % bs);
        }
        cip.lemma_encrypt_len(head, key);
        cip.lemma_block_round_trip(head, key);
        lemma_ecb_blocks_round_trip(cip, tail, key);
        let e = cip.spec_encrypt_block(head, key);
        let enc = spec_ecb_encrypt_blocks(cip, data, key);
        assert(enc == e + spec_ecb_encrypt_blocks(cip, tail, key));
        assert(enc.take(bs) =~= e);
        assert(enc.skip(bs) =~= spec_ecb_encrypt_blocks(cip, tail, key));
        assert(spec_ecb_decrypt_blocks(cip, enc, key) == cip.spec_decrypt_block(e, key)
            + spec_ecb_decrypt_blocks(cip, spec_ecb_encrypt_blocks(cip, tail, key), key));
        assert(cip.spec_decrypt_block(e, key) + tail =~= data);
    }
}

impl<Cip: BlockCipher, Pad: Padding> Cipher for Ecb<Cip, Pad> {
    proof fn lemma_round_trip(&self, data: Seq<u8>, key: Seq<u8>) {
        let bs = self.cip.spec_block_size();
        let padded = self.pad.spec_pad(data, bs);
        self.pad.lemma_pad_multiple(data, bs);
        lemma_ecb_blocks_round_trip(self.cip, padded, key);
        self.pad.lemma_unpad_pad(data, bs);
    }
}

impl<Cip: BlockCipher, Pad: Padding> BlockMode for Ecb<Cip, Pad> {

}

} // verus!
