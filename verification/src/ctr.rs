//! Block counter mode, which turns a block cipher into a stream cipher.
//!
//! The mode keeps a monotonically incrementing counter, starting from a
//! nonce. Each keystream block is produced by encrypting the counter packed
//! into a block (little-endian, zero-padded); the plaintext is XORed with the
//! keystream, so no padding is needed and the final block is simply
//! truncated. Because XOR cancels itself, decryption is exactly encryption,
//! and only the encryption half of the underlying block cipher is ever used.

use vstd::prelude::*;
use crate::cipher::{BlockEncrypt, BlockMode, Cipher, CipherDecrypt, CipherEncrypt};
use crate::onetimepad::{KeyTooShort, OneTimePad};

verus! {

/// Error indicating that a block cipher's block is too small to hold the
/// counter.
#[derive(Debug, Clone, Copy, PartialEq, Eq)]
pub struct BlockSizeTooSmall;

/// Byte `i` of the little-endian encoding of `n`.
pub open spec fn spec_u64_le_byte(n: u64, i: int) -> u8 {
    (n >> ((8 * i) as u64)) as u8
}

/// The counter packed into a block: eight little-endian counter bytes,
/// zero-padded to the block size.
pub open spec fn spec_ctr_block(nonce: u64, bs: nat) -> Seq<u8> {
    Seq::new(bs, |i: int| if i < 8 { spec_u64_le_byte(nonce, i) } else { 0u8 })
}

/// The counter after one increment, wrapping around at the top.
pub open spec fn spec_wrap_inc(n: u64) -> u64 {
    if n == 0xffff_ffff_ffff_ffff {
        0u64
    } else {
        (n + 1) as u64
    }
}

/// The counter after `b` increments.
pub open spec fn spec_nonce_at(nonce: u64, b: nat) -> u64
    decreases b,
{
    if b == 0 {
        nonce
    } else {
        spec_wrap_inc(spec_nonce_at(nonce, (b - 1) as nat))
    }
}

/// The first `blocks` blocks of the keystream: each counter value encrypted
/// under `key`.
pub open spec fn spec_ctr_keystream<Enc: BlockEncrypt>(
    enc: Enc,
    key: Seq<u8>,
    nonce: u64,
    blocks: nat,
) -> Seq<u8>
    decreases blocks,
{
    if blocks == 0 {
        Seq::empty()
    } else {
        enc.spec_encrypt_block(spec_ctr_block(nonce, enc.spec_block_size()), key)
            + spec_ctr_keystream(enc, key, spec_wrap_inc(nonce), (blocks - 1) as nat)
    }
}

/// Byte `i` of the infinite keystream.
pub open spec fn spec_ctr_keystream_byte<Enc: BlockEncrypt>(
    enc: Enc,
    key: Seq<u8>,
    nonce: u64,
    i: int,
) -> u8 {
    let bs = enc.spec_block_size() as int;
    enc.spec_encrypt_block(
        spec_ctr_block(spec_nonce_at(nonce, (i / bs) as nat), enc.spec_block_size()),
        key,
    )[i % bs]
}

/// The counter mode image of `data`: each byte XORed with its keystream byte.
pub open spec fn spec_ctr_cipher<Enc: BlockEncrypt>(
    enc: Enc,
    data: Seq<u8>,
    key: Seq<u8>,
    nonce: u64,
) -> Seq<u8> {
    Seq::new(data.len(), |i: int| data[i] ^ spec_ctr_keystream_byte(enc, key, nonce, i))
}

/// Incrementing before stepping is the same as stepping before incrementing.
proof fn lemma_nonce_at_shift(nonce: u64, b: nat)
    ensures
        spec_nonce_at(spec_wrap_inc(nonce), b) == spec_wrap_inc(spec_nonce_at(nonce, b)),
    decreases b,
{
    if b > 0 {
        lemma_nonce_at_shift(nonce, (b - 1) as nat);
    }
}

/// Extending the keystream by one block appends the encryption of the
/// current counter.
proof fn lemma_keystream_snoc<Enc: BlockEncrypt>(enc: Enc, key: Seq<u8>, nonce: u64, b: nat)
    ensures
        spec_ctr_keystream(enc, key, nonce, b + 1) == spec_ctr_keystream(enc, key, nonce, b)
            + enc.spec_encrypt_block(
            spec_ctr_block(spec_nonce_at(nonce, b), enc.spec_block_size()),
            key,
        ),
    decreases b,
{
    let bs = enc.spec_block_size();
    if b == 0 {
        assert(spec_ctr_keystream(enc, key, spec_wrap_inc(nonce), 0) =~= Seq::<u8>::empty());
        assert(spec_ctr_keystream(enc, key, nonce, 1) =~= Seq::<u8>::empty()
            + enc.spec_encrypt_block(spec_ctr_block(nonce, bs), key));
    } else {
        lemma_keystream_snoc(enc, key, spec_wrap_inc(nonce), (b - 1) as nat);
        lemma_nonce_at_shift(nonce, (b - 1) as nat);
        let head = enc.spec_encrypt_block(spec_ctr_block(nonce, bs), key);
        let tail_b = spec_ctr_keystream(enc, key, spec_wrap_inc(nonce), (b - 1) as nat);
        let last = enc.spec_encrypt_block(
            spec_ctr_block(spec_nonce_at(nonce, b), bs),
            key,
        );
        assert(spec_ctr_keystream(enc, key, nonce, b + 1) == head + (tail_b + last));
        assert(head + (tail_b + last) =~= (head + tail_b) + last);
    }
}

/// The keystream of `b` blocks has `b * block_size` bytes.
proof fn lemma_keystream_len<Enc: BlockEncrypt>(enc: Enc, key: Seq<u8>, nonce: u64, b: nat)
    requires
        key.len() == enc.spec_key_size(),
    ensures
        spec_ctr_keystream(enc, key, nonce, b).len() == b * enc.spec_block_size(),
    decreases b,
{
    let bs = enc.spec_block_size();
    if b == 0 {
        assert(0 * bs == 0) by (nonlinear_arith);
    } else {
        enc.lemma_encrypt_len(spec_ctr_block(nonce, bs), key);
        lemma_keystream_len(enc, key, spec_wrap_inc(nonce), (b - 1) as nat);
        assert(bs + (b - 1) * bs == b * bs) by (nonlinear_arith);
    }
}

/// Every byte of a finite keystream agrees with the infinite keystream.
proof fn lemma_keystream_index<Enc: BlockEncrypt>(
    enc: Enc,
    key: Seq<u8>,
    nonce: u64,
    b: nat,
    i: int,
)
    requires
        key.len() == enc.spec_key_size(),
        enc.spec_block_size() > 0,
        0 <= i < b * enc.spec_block_size(),
    ensures
        spec_ctr_keystream(enc, key, nonce, b)[i] == spec_ctr_keystream_byte(
            enc,
            key,
            nonce,
            i,
        ),
    decreases b,
{
    let bs = enc.spec_block_size() as int;
    enc.lemma_encrypt_len(spec_ctr_block(nonce, enc.spec_block_size()), key);
    let head = enc.spec_encrypt_block(spec_ctr_block(nonce, enc.spec_block_size()), key);
    assert(b >= 1) by (nonlinear_arith)
        requires
            0 <= i < b * bs,
            bs > 0,
    ;
    let rest = spec_ctr_keystream(enc, key, spec_wrap_inc(nonce), (b - 1) as nat);
    assert(spec_ctr_keystream(enc, key, nonce, b) == head + rest);
    if i < bs {
        vstd::arithmetic::div_mod::lemma_basic_div(i, bs);
        vstd::arithmetic::div_mod::lemma_small_mod(i as nat, bs as nat);
        assert((head + rest)[i] == head[i]);
        assert(i / bs == 0 && i % bs == i);
        assert(spec_nonce_at(nonce, 0) == nonce);
    } else {
        assert(b > 1) by (nonlinear_arith)
            requires
                i >= bs,
                i < b * bs,
                bs > 0,
        ;
        assert((i - bs) < (b - 1) * bs) by (nonlinear_arith)
            requires
                i < b * bs,
                bs > 0,
        ;
        lemma_keystream_len(enc, key, spec_wrap_inc(nonce), (b - 1) as nat);
        lemma_keystream_index(enc, key, spec_wrap_inc(nonce), (b - 1) as nat, i - bs);
        lemma_nonce_at_shift(nonce, ((i - bs) / bs) as nat);
        vstd::arithmetic::div_mod::lemma_sub_mod_noop(i, bs, bs);
        vstd::arithmetic::div_mod::lemma_mod_self_0(bs);
        vstd::arithmetic::div_mod::lemma_mod_twice(i, bs);
        assert((i - bs) % bs == i % bs);
        vstd::arithmetic::div_mod::lemma_div_plus_one(i - bs, bs);
        assert((i - bs) / bs + 1 == i / bs);
        assert((head + rest)[i] == rest[i - bs]);
        assert(i / bs >= 1) by {
            vstd::arithmetic::div_mod::lemma_div_is_ordered(bs, i, bs);
            vstd::arithmetic::div_mod::lemma_div_by_self(bs);
        }
        assert(spec_nonce_at(nonce, (i / bs) as nat) == spec_wrap_inc(
            spec_nonce_at(nonce, ((i / bs) - 1) as nat),
        ));
        assert(((i / bs) - 1) as nat == ((i - bs) / bs) as nat);
    }
}

/// Block counter [mode of operation](crate::BlockMode).
#[derive(Debug, Clone)]
pub struct Ctr<Enc> {
    pub enc: Enc,
    pub nonce: u64,
}

impl<Enc: BlockEncrypt> Ctr<Enc> {
    /// A block cipher and a nonce make a counter mode instance; fails when
    /// the counter cannot be packed into one block.
    pub fn new(enc: Enc, nonce: u64) -> (r: Result<Self, BlockSizeTooSmall>)
        ensures
            match r {
                Ok(c) => enc.spec_block_size() >= 8 && c.enc == enc && c.nonce == nonce,
                Err(_) => enc.spec_block_size() < 8,
            },
    {
        // Check that the counter bytes can be packed into one block.
        if enc.block_size() < 8 {
            Err(BlockSizeTooSmall)
        } else {
            Ok(Ctr { enc, nonce })
        }
    }

    /// Generate the keystream and XOR it into the data; encryption and
    /// decryption are this same operation.
    #[verifier::loop_isolation(false)]
    fn cipher(&self, data: Vec<u8>, key: &[u8]) -> (r: Vec<u8>)
        requires
            self.enc.spec_block_size() >= 8,
            key@.len() == self.enc.spec_key_size(),
        ensures
            r@ == spec_ctr_cipher(self.enc, data@, key@, self.nonce),
    {
        let bs = self.enc.block_size();
        let mut ks: Vec<u8> = Vec::new();
        let mut ctr: u64 = self.nonce;
        let ghost mut b: nat = 0;
        assert(ks@ =~= spec_ctr_keystream(self.enc, key@, self.nonce, 0));
        while ks.len() < data.len()
            invariant
                ks@ == spec_ctr_keystream(self.enc, key@, self.nonce, b),
                ks@.len() == b * self.enc.spec_block_size(),
                ctr == spec_nonce_at(self.nonce, b),
            decreases data@.len() + self.enc.spec_block_size() - ks@.len(),
        {
            // Copy the counter bytes into a block.
            let mut cb: Vec<u8> = Vec::new();
            let mut k: usize = 0;
            while k < 8
                invariant
                    k <= 8,
                    cb@.len() == k,
                    forall|j: int| 0 <= j < k ==> cb@[j] == spec_u64_le_byte(ctr, j),
                decreases 8 - k,
            {
                let sh: u64 = 8 * (k as u64);
                cb.push(#[verifier::truncate] ((ctr >> sh) as u8));
                k = k + 1;
            }
            while cb.len() < bs
                invariant
                    8 <= cb@.len() <= bs,
                    forall|j: int| 0 <= j < 8 ==> cb@[j] == spec_u64_le_byte(ctr, j),
                    forall|j: int| 8 <= j < cb@.len() ==> cb@[j] == 0u8,
                decreases bs - cb@.len(),
            {
                cb.push(0u8);
            }
            assert(cb@ =~= spec_ctr_block(ctr, self.enc.spec_block_size()));
            let eb = self.enc.encrypt_block(cb.as_slice(), key);
            let ghost old_ks = ks@;
            let mut j: usize = 0;
            while j < bs
                invariant
                    j <= bs,
                    eb@.len() == bs,
                    ks@ == old_ks + eb@.take(j as int),
                decreases bs - j,
            {
                ks.push(eb[j]);
                assert(ks@ =~= old_ks + eb@.take(j as int + 1));
                j = j + 1;
            }
            assert(ks@ =~= old_ks + eb@);
            proof {
                lemma_keystream_snoc(self.enc, key@, self.nonce, b);
                lemma_keystream_len(self.enc, key@, self.nonce, (b + 1) as nat);
                b = b + 1;
            }
            ctr = if ctr == 0xffff_ffff_ffff_ffff {
                0
            } else {
                ctr + 1
            };
        }
        let ghost d = data@;
        let out = match OneTimePad.encrypt(data, ks.as_slice()) {
            Ok(c) => c,
            Err(e) => {
                proof {
                    assert(false);
                }
                return Vec::new();
            },
        };
        proof {
            assert forall|i: int| 0 <= i < out@.len() implies out@[i] == (d[i]
                ^ spec_ctr_keystream_byte(self.enc, key@, self.nonce, i)) by {
                lemma_keystream_index(self.enc, key@, self.nonce, b, i);
            }
            assert(out@ =~= spec_ctr_cipher(self.enc, d, key@, self.nonce));
        }
        out
    }
}

impl<Enc: BlockEncrypt> CipherEncrypt for Ctr<Enc> {
    type EncryptionErr = KeyTooShort;

    open spec fn enc_key_req(&self, key: Seq<u8>) -> bool {
        &&& self.enc.spec_block_size() >= 8
        &&& key.len() == self.enc.spec_key_size()
    }

    open spec fn spec_encrypt(&self, data: Seq<u8>, key: Seq<u8>) -> Option<Seq<u8>> {
        Some(spec_ctr_cipher(self.enc, data, key, self.nonce))
    }

    fn encrypt(&self, data: Vec<u8>, key: &[u8]) -> (r: Result<Vec<u8>, Self::EncryptionErr>) {
        Ok(self.cipher(data, key))
    }
}

impl<Enc: BlockEncrypt> CipherDecrypt for Ctr<Enc> {
    type DecryptionErr = KeyTooShort;

    open spec fn dec_key_req(&self, key: Seq<u8>) -> bool {
        &&& self.enc.spec_block_size() >= 8
        &&& key.len() == self.enc.spec_key_size()
    }

    open spec fn spec_decrypt(&self, data: Seq<u8>, key: Seq<u8>) -> Option<Seq<u8>> {
        Some(spec_ctr_cipher(self.enc, data, key, self.nonce))
    }

    fn decrypt(&self, data: Vec<u8>, key: &[u8]) -> (r: Result<Vec<u8>, Self::DecryptionErr>) {
        // Because the XOR operation cancels itself, decryption is the same
        // operation as encryption.
        Ok(self.cipher(data, key))
    }
}

impl<Enc: BlockEncrypt> Cipher for Ctr<Enc> {
    proof fn lemma_round_trip(&self, data: Seq<u8>, key: Seq<u8>) {
        let c = spec_ctr_cipher(self.enc, data, key, self.nonce);
        let d = spec_ctr_cipher(self.enc, c, key, self.nonce);
        assert forall|i: int| 0 <= i < data.len() implies d[i] == data[i] by {
            let a = data[i];
            let k = spec_ctr_keystream_byte(self.enc, key, self.nonce, i);
            assert((a ^ k) ^ k == a) by (bit_vector);
        }
        assert(d =~= data);
    }
}

impl<Enc: BlockEncrypt> BlockMode for Ctr<Enc> {

}

} // verus!
