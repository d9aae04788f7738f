//! Cipher block chaining, the most common mode of operation.
//!
//! CBC XORs the plaintext of each block with the ciphertext of the previous
//! block before encrypting it, so each block depends on all blocks before it;
//! the first block is XORed with an initialization vector (IV). The IV does
//! not need to be secret, but it must be unique for each message encrypted
//! with the same key. Because the same plaintext with a different IV encrypts
//! to a different ciphertext, CBC avoids the weakness of ECB mode.

use vstd::prelude::*;
use crate::cipher::{BlockCipher, BlockEncrypt, BlockMode, Cipher, CipherDecrypt, CipherEncrypt};
use crate::onetimepad::spec_xor_bytes;
use crate::padding::{InvalidPadding, Padding};

verus! {

/// CBC encryption of whole blocks: each block is XORed with the previous
/// ciphertext block (initially `prev`) and then encrypted.
pub open spec fn spec_cbc_encrypt_blocks<Cip: BlockEncrypt>(
    cip: Cip,
    data: Seq<u8>,
    key: Seq<u8>,
    prev: Seq<u8>,
) -> Seq<u8>
    decreases data.len(),
{
    let bs = cip.spec_block_size() as int;
    if bs <= 0 || data.len() < bs {
        Seq::empty()
    } else {
        let c = cip.spec_encrypt_block(spec_xor_bytes(data.take(bs), prev), key);
        c + spec_cbc_encrypt_blocks(cip, data.skip(bs), key, c)
    }
}

/// CBC decryption of whole blocks: each block is decrypted and then XORed
/// with the previous ciphertext block (initially `prev`).
pub open spec fn spec_cbc_decrypt_blocks<Cip: BlockCipher>(
    cip: Cip,
    data: Seq<u8>,
    key: Seq<u8>,
    prev: Seq<u8>,
) -> Seq<u8>
    decreases data.len(),
{
    let bs = cip.spec_block_size() as int;
    if bs <= 0 || data.len() < bs {
        Seq::empty()
    } else {
        let c = data.take(bs);
        spec_xor_bytes(cip.spec_decrypt_block(c, key), prev) + spec_cbc_decrypt_blocks(
            cip,
            data.skip(bs),
            key,
            c,
        )
    }
}

/// Cipher block chaining [mode of operation](crate::BlockMode).
pub struct Cbc<Cip, Pad> {
    pub cip: Cip,
    pub pad: Pad,
    pub iv: Vec<u8>,
}

impl<Cip: BlockCipher, Pad: Padding> Cbc<Cip, Pad> {
    /// A cipher, a padding scheme and an initialization vector of one block
    /// make a CBC mode instance.
    pub fn new(cip: Cip, pad: Pad, iv: Vec<u8>) -> (r: Self)
        requires
            0 < cip.spec_block_size() < 256,
            iv@.len() == cip.spec_block_size(),
        ensures
            r.cip == cip,
            r.pad == pad,
            r.iv == iv,
    {
        Cbc { cip, pad, iv }
    }
}

/// XOR a block in place with `prev`.
#[verifier::loop_isolation(false)]
fn xor_block(block: &mut Vec<u8>, prev: &[u8])
    requires
        prev@.len() >= old(block)@.len(),
    ensures
        final(block)@ == spec_xor_bytes(old(block)@, prev@),
{
    let n = block.len();
    let mut i: usize = 0;
    while i < n
        invariant
            i <= n,
            block@.len() == n,
            forall|j: int| 0 <= j < i ==> block@[j] == (old(block)@[j] ^ prev@[j]),
            forall|j: int| i <= j < n ==> block@[j] == old(block)@[j],
        decreases n - i,
    {
        let b = block[i] ^ prev[i];
        block[i] = b;
        i = i + 1;
    }
    assert(block@ =~= spec_xor_bytes(old(block)@, prev@));
}

impl<Cip: BlockCipher, Pad: Padding> CipherEncrypt for Cbc<Cip, Pad> {
    type EncryptionErr = InvalidPadding;

    open spec fn enc_key_req(&self, key: Seq<u8>) -> bool {
        &&& 0 < self.cip.spec_block_size() < 256
        &&& self.iv@.len() == self.cip.spec_block_size()
        &&& key.len() == self.cip.spec_key_size()
    }

    open spec fn spec_encrypt(&self, data: Seq<u8>, key: Seq<u8>) -> Option<Seq<u8>> {
        Some(
            spec_cbc_encrypt_blocks(
                self.cip,
                self.pad.spec_pad(data, self.cip.spec_block_size()),
                key,
                self.iv@,
            ),
        )
    }

    #[verifier::loop_isolation(false)]
    fn encrypt(&self, data: Vec<u8>, key: &[u8]) -> (r: Result<
        Vec<u8>,
        Self::EncryptionErr,
    >) {
        let bs = self.cip.block_size();
        let padded = self.pad.pad(data, bs);
        let ghost p = padded@;
        let mut prev = vstd::slice::slice_to_vec(self.iv.as_slice());
        let mut out: Vec<u8> = Vec::new();
        let n = padded.len();
        assert(p.skip(0) =~= p);
        assert(Seq::<u8>::empty() + spec_cbc_encrypt_blocks(self.cip, p, key@, prev@)
            =~= spec_cbc_encrypt_blocks(self.cip, p, key@, prev@));
        let mut i: usize = 0;
        while i < n
            invariant
                i <= n,
                i as int % bs as int == 0,
                prev@.len() == bs,
                out@ + spec_cbc_encrypt_blocks(self.cip, p.skip(i as int), key@, prev@)
                    == spec_cbc_encrypt_blocks(self.cip, p, key@, self.iv@),
            decreases n - i,
        {
            proof {
                vstd::arithmetic::div_mod::lemma_mod_bound(i as int, bs as int);
                if n - i < bs {
                    vstd::arithmetic::div_mod::lemma_mod_adds(i as int, (n - i) as int, bs as int);
                    vstd::arithmetic::div_mod::lemma_small_mod((n - i) as nat, bs as nat);
                    assert(n as int % bs as int != 0);
                }
            }
            let mut block = vstd::slice::slice_to_vec(
                vstd::slice::slice_subrange(padded.as_slice(), i, i + bs),
            );
            let ghost rest = p.skip(i as int);
            assert(rest.take(bs as int) =~= block@);
            assert(rest.skip(bs as int) =~= p.skip(i as int + bs as int));
            xor_block(&mut block, prev.as_slice());
            let enc = self.cip.encrypt_block(block.as_slice(), key);
            let ghost old_out = out@;
            let mut j: usize = 0;
            while j < bs
                invariant
                    j <= bs,
                    enc@.len() == bs,
                    out@ == old_out + enc@.take(j as int),
                decreases bs - j,
            {
                out.push(enc[j]);
                assert(out@ =~= old_out + enc@.take(j as int + 1));
                j = j + 1;
            }
            assert(out@ =~= old_out + enc@);
            prev = enc;
            proof {
                vstd::arithmetic::div_mod::lemma_mod_adds(i as int, bs as int, bs as int);
                vstd::arithmetic::div_mod::lemma_mod_self_0(bs as int);
            }
            i = i + bs;
        }
        assert(p.skip(n as int) =~= Seq::<u8>::empty());
        assert(out@ + Seq::<u8>::empty() =~= out@);
        Ok(out)
    }
}

impl<Cip: BlockCipher, Pad: Padding> CipherDecrypt for Cbc<Cip, Pad> {
    type DecryptionErr = InvalidPadding;

    open spec fn dec_key_req(&self, key: Seq<u8>) -> bool {
        &&& 0 < self.cip.spec_block_size() < 256
        &&& self.iv@.len() == self.cip.spec_block_size()
        &&& key.len() == self.cip.spec_key_size()
    }

    open spec fn spec_decrypt(&self, data: Seq<u8>, key: Seq<u8>) -> Option<Seq<u8>> {
        let bs = self.cip.spec_block_size();
        if data.len() as int % bs as int == 0 {
            self.pad.spec_unpad(spec_cbc_decrypt_blocks(self.cip, data, key, self.iv@), bs)
        } else {
            None
        }
    }

    #[verifier::loop_isolation(false)]
    fn decrypt(&self, data: Vec<u8>, key: &[u8]) -> (r: Result<
        Vec<u8>,
        Self::DecryptionErr,
    >) {
        let ghost orig = data@;
        let bs = self.cip.block_size();
        if data.len() % bs != 0 {
            return Err(InvalidPadding);
        }
        let mut prev = vstd::slice::slice_to_vec(self.iv.as_slice());
        let mut out: Vec<u8> = Vec::new();
        let n = data.len();
        assert(orig.skip(0) =~= orig);
        assert(Seq::<u8>::empty() + spec_cbc_decrypt_blocks(self.cip, orig, key@, prev@)
            =~= spec_cbc_decrypt_blocks(self.cip, orig, key@, prev@));
        let mut i: usize = 0;
        while i < n
            invariant
                i <= n,
                i as int % bs as int == 0,
                n as int % bs as int == 0,
                prev@.len() == bs,
                out@ + spec_cbc_decrypt_blocks(self.cip, orig.skip(i as int), key@, prev@)
                    == spec_cbc_decrypt_blocks(self.cip, orig, key@, self.iv@),
            decreases n - i,
        {
            proof {
                vstd::arithmetic::div_mod::lemma_mod_bound(i as int, bs as int);
                if n - i < bs {
                    vstd::arithmetic::div_mod::lemma_mod_adds(i as int, (n - i) as int, bs as int);
                    vstd::arithmetic::div_mod::lemma_small_mod((n - i) as nat, bs as nat);
                    assert(n as int % bs as int != 0);
                }
            }
            let block = vstd::slice::slice_subrange(data.as_slice(), i, i + bs);
            let ghost rest = orig.skip(i as int);
            assert(rest.take(bs as int) =~= block@);
            assert(rest.skip(bs as int) =~= orig.skip(i as int + bs as int));
            let mut dec = self.cip.decrypt_block(block, key);
            xor_block(&mut dec, prev.as_slice());
            let ghost old_out = out@;
            let mut j: usize = 0;
            while j < bs
                invariant
                    j <= bs,
                    dec@.len() == bs,
                    out@ == old_out + dec@.take(j as int),
                decreases bs - j,
            {
                out.push(dec[j]);
                assert(out@ =~= old_out + dec@.take(j as int + 1));
                j = j + 1;
            }
            assert(out@ =~= old_out + dec@);
            prev = vstd::slice::slice_to_vec(block);
            proof {
                vstd::arithmetic::div_mod::lemma_mod_adds(i as int, bs as int, bs as int);
                vstd::arithmetic::div_mod::lemma_mod_self_0(bs as int);
            }
            i = i + bs;
        }
        assert(orig.skip(n as int) =~= Seq::<u8>::empty());
        assert(out@ + Seq::<u8>::empty() =~= out@);
        self.pad.unpad(out, bs)
    }
}

/// Chained decryption inverts chained encryption for whole blocks under the
/// same key and starting block.
proof fn lemma_cbc_blocks_round_trip<Cip: BlockCipher>(
    cip: Cip,
    data: Seq<u8>,
    key: Seq<u8>,
    prev: Seq<u8>,
)
    requires
        cip.spec_block_size() > 0,
        data.len() as int % cip.spec_block_size() as int == 0,
        key.len() == cip.spec_key_size(),
        prev.len() == cip.spec_block_size(),
    ensures
        spec_cbc_decrypt_blocks(cip, spec_cbc_encrypt_blocks(cip, data, key, prev), key, prev)
            == data,
        spec_cbc_encrypt_blocks(cip, data, key, prev).len() == data.len(),
    decreases data.len(),
{
    let bs = cip.spec_block_size() as int;
    if data.len() == 0 {
        assert(spec_cbc_encrypt_blocks(cip, data, key, prev) =~= Seq::<u8>::empty());
        assert(spec_cbc_decrypt_blocks(cip, Seq::<u8>::empty(), key, prev) =~= data);
    } else {
        let head = data.take(bs);
        let tail = data.skip(bs);
        assert(data.len() >= bs) by {
            if data.len() < cip.spec_block_size() {
                vstd::arithmetic::div_mod::lemma_small_mod(data.len(), cip.spec_block_size());
            }
        }
        assert(tail.len() as int % bs == 0) by {
            vstd::arithmetic::div_mod::lemma_mod_sub_multiples_vanish(data.len() as int, bs);
            assert((data.len() - bs) as int % bs == data.len() as int % bs);
        }
        let x = spec_xor_bytes(head, prev);
        cip.lemma_encrypt_len(x, key);
        cip.lemma_block_round_trip(x, key);
        let c = cip.spec_encrypt_block(x, key);
        lemma_cbc_blocks_round_trip(cip, tail, key, c);
        let enc = spec_cbc_encrypt_blocks(cip, data, key, prev);
        assert(enc == c + spec_cbc_encrypt_blocks(cip, tail, key, c));
        assert(enc.take(bs) =~= c);
        assert(enc.skip(bs) =~= spec_cbc_encrypt_blocks(cip, tail, key, c));
        crate::onetimepad::lemma_xor_bytes_involution(head, prev);
        assert(spec_xor_bytes(cip.spec_decrypt_block(c, key), prev) == head);
        assert(spec_cbc_decrypt_blocks(cip, enc, key, prev) == head + spec_cbc_decrypt_blocks(
            cip,
            spec_cbc_encrypt_blocks(cip, tail, key, c),
            key,
            c,
        ));
        assert(head + tail =~= data);
    }
}

impl<Cip: BlockCipher, Pad: Padding> Cipher for Cbc<Cip, Pad> {
    proof fn lemma_round_trip(&self, data: Seq<u8>, key: Seq<u8>) {
        let bs = self.cip.spec_block_size();
        let padded = self.pad.spec_pad(data, bs);
        self.pad.lemma_pad_multiple(data, bs);
        lemma_cbc_blocks_round_trip(self.cip, padded, key, self.iv@);
        self.pad.lemma_unpad_pad(data, bs);
    }
}

impl<Cip: BlockCipher, Pad: Padding> BlockMode for Cbc<Cip, Pad> {

}

} // verus!
