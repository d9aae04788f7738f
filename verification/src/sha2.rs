//! SHA-1 and SHA-2, specified in FIPS 180-4.
//!
//! Both families are built here from first principles as
//! [Merkle-Damgard](crate::MerkleDamgard) over
//! [Davies-Meyer](crate::DaviesMeyer): each hash uses a block cipher
//! internally ([SHACAL-1](Shacal1) and [SHACAL-2](Shacal2) respectively),
//! which mixes the internal state with padded preimage blocks, the preimage
//! block acting as the cipher key. The final state, optionally truncated, is
//! the digest.

use vstd::prelude::*;
use crate::cipher::BlockEncrypt;
use crate::merkledamgard::{
    spec_md_fold,
    DaviesMeyer,
    DaviesMeyerStep,
    MerkleDamgard,
    MerkleDamgardPad,
};
use crate::util::{
    read_be_words,
    rotl32,
    rotr32,
    spec_be_word_bytes,
    spec_be_words,
    spec_rotl32,
    spec_rotr32,
    spec_u32_from_be_at,
    spec_u64_be_byte,
    write_be_words,
};

verus! {

/// Helper function `Ch`: for each bit, choose `y` or `z` by `x`.
pub open spec fn spec_ch(x: u32, y: u32, z: u32) -> u32 {
    (x & y) ^ ((!x) & z)
}

/// Helper function `Ch`.
pub fn ch(x: u32, y: u32, z: u32) -> (r: u32)
    ensures
        r == spec_ch(x, y, z),
{
    (x & y) ^ ((!x) & z)
}

/// Helper function `Maj`: for each bit, the majority of `x`, `y`, `z`.
pub open spec fn spec_maj(x: u32, y: u32, z: u32) -> u32 {
    (x & y) ^ (x & z) ^ (y & z)
}

/// Helper function `Maj`.
pub fn maj(x: u32, y: u32, z: u32) -> (r: u32)
    ensures
        r == spec_maj(x, y, z),
{
    (x & y) ^ (x & z) ^ (y & z)
}

/// Helper function `Parity`: the XOR of the three words.
pub open spec fn spec_parity(x: u32, y: u32, z: u32) -> u32 {
    x ^ y ^ z
}

/// Helper function `Parity`.
pub fn parity(x: u32, y: u32, z: u32) -> (r: u32)
    ensures
        r == spec_parity(x, y, z),
{
    x ^ y ^ z
}

/// Helper function `f_t` used by [SHA-1](Sha1): `Ch` for the first twenty
/// rounds, `Maj` for rounds forty through fifty-nine, and `Parity` for both
/// remaining stretches.
pub open spec fn spec_ft(t: int, x: u32, y: u32, z: u32) -> u32 {
    if 0 <= t <= 19 {
        spec_ch(x, y, z)
    } else if 40 <= t <= 59 {
        spec_maj(x, y, z)
    } else {
        spec_parity(x, y, z)
    }
}

/// Helper function `f_t` used by [SHA-1](Sha1).
pub fn ft(t: u32, x: u32, y: u32, z: u32) -> (r: u32)
    ensures
        r == spec_ft(t as int, x, y, z),
{
    if t <= 19 {
        ch(x, y, z)
    } else if 40 <= t && t <= 59 {
        maj(x, y, z)
    } else {
        parity(x, y, z)
    }
}

/// Round constant `K_t` used by [SHA-1](Sha1).
pub open spec fn spec_kt(t: int) -> u32 {
    if 0 <= t <= 19 {
        0x5a827999
    } else if 20 <= t <= 39 {
        0x6ed9eba1
    } else if 40 <= t <= 59 {
        0x8f1bbcdc
    } else {
        0xca62c1d6
    }
}

/// Round constant `K_t` used by [SHA-1](Sha1).
pub fn kt(t: u32) -> (r: u32)
    ensures
        r == spec_kt(t as int),
{
    if t <= 19 {
        0x5a827999
    } else if t <= 39 {
        0x6ed9eba1
    } else if t <= 59 {
        0x8f1bbcdc
    } else {
        0xca62c1d6
    }
}

/// Helper function `Sigma_0`.
pub open spec fn spec_uppercase_sigma_0(x: u32) -> u32 {
    spec_rotr32(x, 2) ^ spec_rotr32(x, 13) ^ spec_rotr32(x, 22)
}

/// Helper function `Sigma_0`.
pub fn uppercase_sigma_0(x: u32) -> (r: u32)
    ensures
        r == spec_uppercase_sigma_0(x),
{
    rotr32(x, 2) ^ rotr32(x, 13) ^ rotr32(x, 22)
}

/// Helper function `Sigma_1`.
pub open spec fn spec_uppercase_sigma_1(x: u32) -> u32 {
    spec_rotr32(x, 6) ^ spec_rotr32(x, 11) ^ spec_rotr32(x, 25)
}

/// Helper function `Sigma_1`.
pub fn uppercase_sigma_1(x: u32) -> (r: u32)
    ensures
        r == spec_uppercase_sigma_1(x),
{
    rotr32(x, 6) ^ rotr32(x, 11) ^ rotr32(x, 25)
}

/// Helper function `sigma_0`.
pub open spec fn spec_lowercase_sigma_0(x: u32) -> u32 {
    spec_rotr32(x, 7) ^ spec_rotr32(x, 18) ^ (x >> 3u32)
}

/// Helper function `sigma_0`.
pub fn lowercase_sigma_0(x: u32) -> (r: u32)
    ensures
        r == spec_lowercase_sigma_0(x),
{
    rotr32(x, 7) ^ rotr32(x, 18) ^ (x >> 3u32)
}

/// Helper function `sigma_1`.
pub open spec fn spec_lowercase_sigma_1(x: u32) -> u32 {
    spec_rotr32(x, 17) ^ spec_rotr32(x, 19) ^ (x >> 10u32)
}

/// Helper function `sigma_1`.
pub fn lowercase_sigma_1(x: u32) -> (r: u32)
    ensures
        r == spec_lowercase_sigma_1(x),
{
    rotr32(x, 17) ^ rotr32(x, 19) ^ (x >> 10u32)
}

/// The round constants for [SHA-256](Sha256), from the cube roots of the
/// first 64 primes.
pub open spec fn spec_kt_256(t: int) -> u32 {
    if t == 0 { 0x428a2f98 } else {
    if t == 1 { 0x71374491 } else {
    if t == 2 { 0xb5c0fbcf } else {
    if t == 3 { 0xe9b5dba5 } else {
    if t == 4 { 0x3956c25b } else {
    if t == 5 { 0x59f111f1 } else {
    if t == 6 { 0x923f82a4 } else {
    if t == 7 { 0xab1c5ed5 } else {
    if t == 8 { 0xd807aa98 } else {
    if t == 9 { 0x12835b01 } else {
    if t == 10 { 0x243185be } else {
    if t == 11 { 0x550c7dc3 } else {
    if t == 12 { 0x72be5d74 } else {
    if t == 13 { 0x80deb1fe } else {
    if t == 14 { 0x9bdc06a7 } else {
    if t == 15 { 0xc19bf174 } else {
    if t == 16 { 0xe49b69c1 } else {
    if t == 17 { 0xefbe4786 } else {
    if t == 18 { 0x0fc19dc6 } else {
    if t == 19 { 0x240ca1cc } else {
    if t == 20 { 0x2de92c6f } else {
    if t == 21 { 0x4a7484aa } else {
    if t == 22 { 0x5cb0a9dc } else {
    if t == 23 { 0x76f988da } else {
    if t == 24 { 0x983e5152 } else {
    if t == 25 { 0xa831c66d } else {
    if t == 26 { 0xb00327c8 } else {
    if t == 27 { 0xbf597fc7 } else {
    if t == 28 { 0xc6e00bf3 } else {
    if t == 29 { 0xd5a79147 } else {
    if t == 30 { 0x06ca6351 } else {
    if t == 31 { 0x14292967 } else {
    if t == 32 { 0x27b70a85 } else {
    if t == 33 { 0x2e1b2138 } else {
    if t == 34 { 0x4d2c6dfc } else {
    if t == 35 { 0x53380d13 } else {
    if t == 36 { 0x650a7354 } else {
    if t == 37 { 0x766a0abb } else {
    if t == 38 { 0x81c2c92e } else {
    if t == 39 { 0x92722c85 } else {
    if t == 40 { 0xa2bfe8a1 } else {
    if t == 41 { 0xa81a664b } else {
    if t == 42 { 0xc24b8b70 } else {
    if t == 43 { 0xc76c51a3 } else {
    if t == 44 { 0xd192e819 } else {
    if t == 45 { 0xd6990624 } else {
    if t == 46 { 0xf40e3585 } else {
    if t == 47 { 0x106aa070 } else {
    if t == 48 { 0x19a4c116 } else {
    if t == 49 { 0x1e376c08 } else {
    if t == 50 { 0x2748774c } else {
    if t == 51 { 0x34b0bcb5 } else {
    if t == 52 { 0x391c0cb3 } else {
    if t == 53 { 0x4ed8aa4a } else {
    if t == 54 { 0x5b9cca4f } else {
    if t == 55 { 0x682e6ff3 } else {
    if t == 56 { 0x748f82ee } else {
    if t == 57 { 0x78a5636f } else {
    if t == 58 { 0x84c87814 } else {
    if t == 59 { 0x8cc70208 } else {
    if t == 60 { 0x90befffa } else {
    if t == 61 { 0xa4506ceb } else {
    if t == 62 { 0xbef9a3f7 } else {
    if t == 63 { 0xc67178f2 } else {
    0
    }    }    }    }    }    }    }    }    }    }    }    }    }    }    }    }    }    }    }    }    }    }    }    }    }    }    }    }    }    }    }    }    }    }    }    }    }    }    }    }    }    }    }    }    }    }    }    }    }    }    }    }    }    }    }    }    }    }    }    }    }    }    }    }
}

/// Look up a [SHA-256](Sha256) round constant.
pub fn kt_256(t: u32) -> (r: u32)
    requires
        t < 64,
    ensures
        r == spec_kt_256(t as int),
{
    match t {
        0u32 => 0x428a2f98,
        1u32 => 0x71374491,
        2u32 => 0xb5c0fbcf,
        3u32 => 0xe9b5dba5,
        4u32 => 0x3956c25b,
        5u32 => 0x59f111f1,
        6u32 => 0x923f82a4,
        7u32 => 0xab1c5ed5,
        8u32 => 0xd807aa98,
        9u32 => 0x12835b01,
        10u32 => 0x243185be,
        11u32 => 0x550c7dc3,
        12u32 => 0x72be5d74,
        13u32 => 0x80deb1fe,
        14u32 => 0x9bdc06a7,
        15u32 => 0xc19bf174,
        16u32 => 0xe49b69c1,
        17u32 => 0xefbe4786,
        18u32 => 0x0fc19dc6,
        19u32 => 0x240ca1cc,
        20u32 => 0x2de92c6f,
        21u32 => 0x4a7484aa,
        22u32 => 0x5cb0a9dc,
        23u32 => 0x76f988da,
        24u32 => 0x983e5152,
        25u32 => 0xa831c66d,
        26u32 => 0xb00327c8,
        27u32 => 0xbf597fc7,
        28u32 => 0xc6e00bf3,
        29u32 => 0xd5a79147,
        30u32 => 0x06ca6351,
        31u32 => 0x14292967,
        32u32 => 0x27b70a85,
        33u32 => 0x2e1b2138,
        34u32 => 0x4d2c6dfc,
        35u32 => 0x53380d13,
        36u32 => 0x650a7354,
        37u32 => 0x766a0abb,
        38u32 => 0x81c2c92e,
        39u32 => 0x92722c85,
        40u32 => 0xa2bfe8a1,
        41u32 => 0xa81a664b,
        42u32 => 0xc24b8b70,
        43u32 => 0xc76c51a3,
        44u32 => 0xd192e819,
        45u32 => 0xd6990624,
        46u32 => 0xf40e3585,
        47u32 => 0x106aa070,
        48u32 => 0x19a4c116,
        49u32 => 0x1e376c08,
        50u32 => 0x2748774c,
        51u32 => 0x34b0bcb5,
        52u32 => 0x391c0cb3,
        53u32 => 0x4ed8aa4a,
        54u32 => 0x5b9cca4f,
        55u32 => 0x682e6ff3,
        56u32 => 0x748f82ee,
        57u32 => 0x78a5636f,
        58u32 => 0x84c87814,
        59u32 => 0x8cc70208,
        60u32 => 0x90befffa,
        61u32 => 0xa4506ceb,
        62u32 => 0xbef9a3f7,
        63u32 => 0xc67178f2,
        _ => 0,
    }
}
/// One step of the rolling SHA-1 message schedule: shift the sixteen words
/// left and append the rotated XOR of words 13, 8, 2 and 0.
pub open spec fn spec_sched1_update(w: Seq<u32>) -> Seq<u32> {
    w.skip(1).push(spec_rotl32(w[13] ^ w[8] ^ w[2] ^ w[0], 1))
}

/// The SHA-1 message schedule after `t` updates.
pub open spec fn spec_sched1_at(w0: Seq<u32>, t: nat) -> Seq<u32>
    decreases t,
{
    if t == 0 {
        w0
    } else {
        spec_sched1_update(spec_sched1_at(w0, (t - 1) as nat))
    }
}

/// One SHA-1 round applied to the five-word state.
pub open spec fn spec_sha1_round(s: Seq<u32>, w: Seq<u32>, t: int) -> Seq<u32> {
    let temp = spec_rotl32(s[0], 5).wrapping_add(spec_ft(t, s[1], s[2], s[3])).wrapping_add(
        s[4],
    ).wrapping_add(spec_kt(t)).wrapping_add(w[0]);
    seq![temp, s[0], spec_rotl32(s[1], 30), s[2], s[3]]
}

/// The SHA-1 state after `t` rounds.
pub open spec fn spec_shacal1_state(s0: Seq<u32>, w0: Seq<u32>, t: nat) -> Seq<u32>
    decreases t,
{
    if t == 0 {
        s0
    } else {
        spec_sha1_round(
            spec_shacal1_state(s0, w0, (t - 1) as nat),
            spec_sched1_at(w0, (t - 1) as nat),
            t - 1,
        )
    }
}

/// The SHACAL-1 encryption of a 20-byte state under a 64-byte key.
pub open spec fn spec_shacal1_encrypt(state: Seq<u8>, key: Seq<u8>) -> Seq<u8> {
    spec_be_word_bytes(spec_shacal1_state(spec_be_words(state), spec_be_words(key), 80))
}

/// The underlying block cipher used by [SHA-1](Sha1).
///
/// Applies 80 rounds of the SHA-1 round function to the 160-bit state, with
/// a rolling sixteen-word message schedule initialised from the 512-bit key.
/// It is used only through [Davies-Meyer](crate::DaviesMeyer) and not offered
/// as a standalone cipher.
pub struct Shacal1;

impl Default for Shacal1 {
    fn default() -> (r: Self)
        ensures
            r == Shacal1,
    {
        Shacal1
    }
}

impl BlockEncrypt for Shacal1 {
    open spec fn spec_block_size(&self) -> nat {
        20
    }

    open spec fn spec_key_size(&self) -> nat {
        64
    }

    fn block_size(&self) -> (r: usize) {
        20
    }

    fn key_size(&self) -> (r: usize) {
        64
    }

    open spec fn spec_encrypt_block(&self, block: Seq<u8>, key: Seq<u8>) -> Seq<u8> {
        spec_shacal1_encrypt(block, key)
    }

    proof fn lemma_encrypt_len(&self, block: Seq<u8>, key: Seq<u8>) {
        lemma_shacal1_state_len(spec_be_words(block), spec_be_words(key), 80);
    }

    #[verifier::loop_isolation(false)]
    fn encrypt_block(&self, block: &[u8], key: &[u8]) -> (r: Vec<u8>) {
        let words = read_be_words(block);
        let mut sched = read_be_words(key);
        let ghost s0 = words@;
        let ghost w0 = sched@;
        let mut a = words[0];
        let mut b = words[1];
        let mut c = words[2];
        let mut d = words[3];
        let mut e = words[4];
        assert(seq![a, b, c, d, e] =~= spec_shacal1_state(s0, w0, 0));
        let mut t: usize = 0;
        while t < 80
            invariant
                t <= 80,
                sched@.len() == 16,
                seq![a, b, c, d, e] == spec_shacal1_state(s0, w0, t as nat),
                sched@ == spec_sched1_at(w0, t as nat),
            decreases 80 - t,
        {
            let wt = sched[0];
            let temp = rotl32(a, 5).wrapping_add(ft(t as u32, b, c, d)).wrapping_add(
                e,
            ).wrapping_add(kt(t as u32)).wrapping_add(wt);
            e = d;
            d = c;
            c = rotl32(b, 30);
            b = a;
            a = temp;

            // Update the message schedule.
            let next = rotl32(sched[13] ^ sched[8] ^ sched[2] ^ sched[0], 1);
            let mut ns: Vec<u32> = Vec::new();
            let mut j: usize = 1;
            while j < 16
                invariant
                    1 <= j <= 16,
                    ns@.len() == j - 1,
                    forall|k: int| 0 <= k < j - 1 ==> ns@[k] == sched@[k + 1],
                decreases 16 - j,
            {
                ns.push(sched[j]);
                j = j + 1;
            }
            ns.push(next);
            assert(ns@ =~= spec_sched1_update(sched@));
            sched = ns;
            proof {
                assert(seq![a, b, c, d, e] =~= spec_sha1_round(
                    spec_shacal1_state(s0, w0, t as nat),
                    spec_sched1_at(w0, t as nat),
                    t as int,
                ));
            }
            t = t + 1;
        }
        let mut out_words: Vec<u32> = Vec::new();
        out_words.push(a);
        out_words.push(b);
        out_words.push(c);
        out_words.push(d);
        out_words.push(e);
        assert(out_words@ =~= spec_shacal1_state(s0, w0, 80));
        write_be_words(&out_words)
    }
}

/// The SHA-1 state stays five words long.
proof fn lemma_shacal1_state_len(s0: Seq<u32>, w0: Seq<u32>, t: nat)
    requires
        s0.len() == 5,
    ensures
        spec_shacal1_state(s0, w0, t).len() == 5,
    decreases t,
{
    if t > 0 {
        lemma_shacal1_state_len(s0, w0, (t - 1) as nat);
    }
}

/// One step of the rolling SHA-256 message schedule.
pub open spec fn spec_sched2_update(w: Seq<u32>) -> Seq<u32> {
    w.skip(1).push(
        spec_lowercase_sigma_1(w[14]).wrapping_add(w[9]).wrapping_add(
            spec_lowercase_sigma_0(w[1]),
        ).wrapping_add(w[0]),
    )
}

/// The SHA-256 message schedule after `t` updates.
pub open spec fn spec_sched2_at(w0: Seq<u32>, t: nat) -> Seq<u32>
    decreases t,
{
    if t == 0 {
        w0
    } else {
        spec_sched2_update(spec_sched2_at(w0, (t - 1) as nat))
    }
}

/// One SHA-256 round applied to the eight-word state.
pub open spec fn spec_sha2_round(s: Seq<u32>, w: Seq<u32>, t: int) -> Seq<u32> {
    let temp1 = s[7].wrapping_add(spec_uppercase_sigma_1(s[4])).wrapping_add(
        spec_ch(s[4], s[5], s[6]),
    ).wrapping_add(spec_kt_256(t)).wrapping_add(w[0]);
    let temp2 = spec_uppercase_sigma_0(s[0]).wrapping_add(spec_maj(s[0], s[1], s[2]));
    seq![
        temp1.wrapping_add(temp2),
        s[0],
        s[1],
        s[2],
        s[3].wrapping_add(temp1),
        s[4],
        s[5],
        s[6],
    ]
}

/// The SHA-256 state after `t` rounds.
pub open spec fn spec_shacal2_state(s0: Seq<u32>, w0: Seq<u32>, t: nat) -> Seq<u32>
    decreases t,
{
    if t == 0 {
        s0
    } else {
        spec_sha2_round(
            spec_shacal2_state(s0, w0, (t - 1) as nat),
            spec_sched2_at(w0, (t - 1) as nat),
            t - 1,
        )
    }
}

/// The SHACAL-2 encryption of a 32-byte state under a 64-byte key.
pub open spec fn spec_shacal2_encrypt(state: Seq<u8>, key: Seq<u8>) -> Seq<u8> {
    spec_be_word_bytes(spec_shacal2_state(spec_be_words(state), spec_be_words(key), 64))
}

/// The underlying block cipher used by [SHA-256](Sha256) and
/// [SHA-224](Sha224).
///
/// Applies 64 rounds of the SHA-2 round function to the 256-bit state, with
/// a rolling sixteen-word message schedule initialised from the 512-bit key.
/// It is used only through [Davies-Meyer](crate::DaviesMeyer) and not offered
/// as a standalone cipher.
pub struct Shacal2;

impl Default for Shacal2 {
    fn default() -> (r: Self)
        ensures
            r == Shacal2,
    {
        Shacal2
    }
}

impl BlockEncrypt for Shacal2 {
    open spec fn spec_block_size(&self) -> nat {
        32
    }

    open spec fn spec_key_size(&self) -> nat {
        64
    }

    fn block_size(&self) -> (r: usize) {
        32
    }

    fn key_size(&self) -> (r: usize) {
        64
    }

    open spec fn spec_encrypt_block(&self, block: Seq<u8>, key: Seq<u8>) -> Seq<u8> {
        spec_shacal2_encrypt(block, key)
    }

    proof fn lemma_encrypt_len(&self, block: Seq<u8>, key: Seq<u8>) {
        lemma_shacal2_state_len(spec_be_words(block), spec_be_words(key), 64);
    }

    #[verifier::loop_isolation(false)]
    fn encrypt_block(&self, block: &[u8], key: &[u8]) -> (r: Vec<u8>) {
        let words = read_be_words(block);
        let mut sched = read_be_words(key);
        let ghost s0 = words@;
        let ghost w0 = sched@;
        let mut a = words[0];
        let mut b = words[1];
        let mut c = words[2];
        let mut d = words[3];
        let mut e = words[4];
        let mut f = words[5];
        let mut g = words[6];
        let mut h = words[7];
        assert(seq![a, b, c, d, e, f, g, h] =~= spec_shacal2_state(s0, w0, 0));
        let mut t: usize = 0;
        while t < 64
            invariant
                t <= 64,
                sched@.len() == 16,
                seq![a, b, c, d, e, f, g, h] == spec_shacal2_state(s0, w0, t as nat),
                sched@ == spec_sched2_at(w0, t as nat),
            decreases 64 - t,
        {
            let wt = sched[0];
            let temp1 = h.wrapping_add(uppercase_sigma_1(e)).wrapping_add(
                ch(e, f, g),
            ).wrapping_add(kt_256(t as u32)).wrapping_add(wt);
            let temp2 = uppercase_sigma_0(a).wrapping_add(maj(a, b, c));
            h = g;
            g = f;
            f = e;
            e = d.wrapping_add(temp1);
            d = c;
            c = b;
            b = a;
            a = temp1.wrapping_add(temp2);

            // Update the message schedule.
            let next = lowercase_sigma_1(sched[14]).wrapping_add(sched[9]).wrapping_add(
                lowercase_sigma_0(sched[1]),
            ).wrapping_add(sched[0]);
            let mut ns: Vec<u32> = Vec::new();
            let mut j: usize = 1;
            while j < 16
                invariant
                    1 <= j <= 16,
                    ns@.len() == j - 1,
                    forall|k: int| 0 <= k < j - 1 ==> ns@[k] == sched@[k + 1],
                decreases 16 - j,
            {
                ns.push(sched[j]);
                j = j + 1;
            }
            ns.push(next);
            assert(ns@ =~= spec_sched2_update(sched@));
            sched = ns;
            proof {
                assert(seq![a, b, c, d, e, f, g, h] =~= spec_sha2_round(
                    spec_shacal2_state(s0, w0, t as nat),
                    spec_sched2_at(w0, t as nat),
                    t as int,
                ));
            }
            t = t + 1;
        }
        let mut out_words: Vec<u32> = Vec::new();
        out_words.push(a);
        out_words.push(b);
        out_words.push(c);
        out_words.push(d);
        out_words.push(e);
        out_words.push(f);
        out_words.push(g);
        out_words.push(h);
        assert(out_words@ =~= spec_shacal2_state(s0, w0, 64));
        write_be_words(&out_words)
    }
}

/// The SHA-256 state stays eight words long.
proof fn lemma_shacal2_state_len(s0: Seq<u32>, w0: Seq<u32>, t: nat)
    requires
        s0.len() == 8,
    ensures
        spec_shacal2_state(s0, w0, t).len() == 8,
    decreases t,
{
    if t > 0 {
        lemma_shacal2_state_len(s0, w0, (t - 1) as nat);
    }
}

/// Word-wise modular addition of two states, seen as big-endian 32-bit
/// words.
pub open spec fn spec_modular_addition(prev: Seq<u8>, new: Seq<u8>) -> Seq<u8> {
    if new.len() as int % 4 == 0 {
        spec_be_word_bytes(
            Seq::new(
                new.len() / 4,
                |w: int| spec_u32_from_be_at(new, w).wrapping_add(spec_u32_from_be_at(prev, w)),
            ),
        )
    } else {
        new
    }
}

/// Because the new state of SHA-1 and SHA-2 is derived by adding the working
/// variables to the current state, the [Davies-Meyer step](DaviesMeyerStep)
/// in both is word-wise modular addition.
pub struct ModularAddition;

impl Default for ModularAddition {
    fn default() -> (r: Self)
        ensures
            r == ModularAddition,
    {
        ModularAddition
    }
}

impl DaviesMeyerStep for ModularAddition {
    open spec fn spec_step(&self, prev: Seq<u8>, new: Seq<u8>) -> Seq<u8> {
        spec_modular_addition(prev, new)
    }

    proof fn lemma_step_len(&self, prev: Seq<u8>, new: Seq<u8>) {
        if new.len() as int % 4 == 0 {
            vstd::arithmetic::div_mod::lemma_fundamental_div_mod(new.len() as int, 4);
        }
    }

    #[verifier::loop_isolation(false)]
    fn step(&self, prev: &[u8], new: Vec<u8>) -> (r: Vec<u8>) {
        if new.len() % 4 != 0 {
            return new;
        }
        let pw = read_be_words(prev);
        let nw = read_be_words(new.as_slice());
        let n = nw.len();
        let mut sums: Vec<u32> = Vec::new();
        let mut w: usize = 0;
        while w < n
            invariant
                w <= n,
                sums@.len() == w,
                forall|j: int| 0 <= j < w ==> sums@[j] == spec_u32_from_be_at(
                    new@,
                    j,
                ).wrapping_add(spec_u32_from_be_at(prev@, j)),
            decreases n - w,
        {
            sums.push(nw[w].wrapping_add(pw[w]));
            w = w + 1;
        }
        let out = write_be_words(&sums);
        proof {
            assert(sums@ =~= Seq::new(
                new@.len() / 4,
                |j: int| spec_u32_from_be_at(new@, j).wrapping_add(spec_u32_from_be_at(prev@, j)),
            ));
            vstd::arithmetic::div_mod::lemma_fundamental_div_mod(new@.len() as int, 4);
        }
        out
    }
}

/// The number of zero bytes SHA-2 length padding inserts between the `0x80`
/// marker and the encoded bit length.
pub open spec fn spec_length_pad_zeros(len: nat) -> nat {
    let r = (len + 9) as int % 64;
    if r == 0 {
        0
    } else {
        (64 - r) as nat
    }
}

/// SHA-2 length padding: a `0x80` byte, then zeros, then the bit length of
/// the preimage as a big-endian 64-bit integer, bringing the total to a
/// multiple of 64 bytes.
pub open spec fn spec_length_pad(m: Seq<u8>) -> Seq<u8> {
    let z = spec_length_pad_zeros(m.len());
    m + seq![0x80u8] + Seq::new(z, |i: int| 0u8) + Seq::new(
        8,
        |i: int| spec_u64_be_byte((8 * m.len()) as u64, i),
    )
}

/// SHA-2 length padding.
///
/// The preimage is padded by appending a single `1` bit, as many zero bits
/// as needed, and the bit length of the preimage as an unsigned big-endian
/// 64-bit integer, so that the total is a multiple of 512 bits. This is a
/// Merkle-Damgard compliant padding into blocks of 512 bits.
pub struct LengthPadding;

impl Default for LengthPadding {
    fn default() -> (r: Self)
        ensures
            r == LengthPadding,
    {
        LengthPadding
    }
}

impl MerkleDamgardPad for LengthPadding {
    open spec fn spec_pad_block_size(&self) -> nat {
        64
    }

    open spec fn spec_pad(&self, preimage: Seq<u8>) -> Seq<u8> {
        spec_length_pad(preimage)
    }

    proof fn lemma_pad_len(&self, preimage: Seq<u8>) {
        let len = preimage.len();
        let r = (len + 9) as int % 64;
        let z = spec_length_pad_zeros(len);
        let total = spec_length_pad(preimage).len() as int;
        vstd::arithmetic::div_mod::lemma_fundamental_div_mod((len + 9) as int, 64);
        let q = (len + 9) as int / 64;
        if r == 0 {
            assert(total == 64 * q);
            assert(64 * q == q * 64) by (nonlinear_arith);
            vstd::arithmetic::div_mod::lemma_mod_multiples_basic(q, 64);
        } else {
            assert(total == 64 * q + 64);
            assert(64 * q + 64 == (q + 1) * 64) by (nonlinear_arith);
            vstd::arithmetic::div_mod::lemma_mod_multiples_basic(q + 1, 64);
        }
    }

    #[verifier::loop_isolation(false)]
    fn pad(&self, preimage: &[u8]) -> (r: Vec<u8>) {
        let mut out = vstd::slice::slice_to_vec(preimage);
        out.push(0x80);
        let rem = (preimage.len() % 64 + 9) % 64;
        proof {
            vstd::arithmetic::div_mod::lemma_add_mod_noop(preimage@.len() as int, 9, 64);
            vstd::arithmetic::div_mod::lemma_small_mod(9, 64);
            vstd::arithmetic::div_mod::lemma_mod_twice(preimage@.len() as int, 64);
            assert(rem == (preimage@.len() + 9) as int % 64);
        }
        let z = if rem == 0 {
            0
        } else {
            64 - rem
        };
        let mut i: usize = 0;
        while i < z
            invariant
                i <= z,
                out@.len() == preimage@.len() + 1 + i,
                out@ =~= preimage@ + seq![0x80u8] + Seq::new(i as nat, |j: int| 0u8),
            decreases z - i,
        {
            out.push(0);
            assert(out@ =~= preimage@ + seq![0x80u8] + Seq::new((i + 1) as nat, |j: int| 0u8));
            i = i + 1;
        }
        let bits: u64 = (preimage.len() as u64) * 8;
        out.push(#[verifier::truncate] ((bits >> 56u64) as u8));
        out.push(#[verifier::truncate] ((bits >> 48u64) as u8));
        out.push(#[verifier::truncate] ((bits >> 40u64) as u8));
        out.push(#[verifier::truncate] ((bits >> 32u64) as u8));
        out.push(#[verifier::truncate] ((bits >> 24u64) as u8));
        out.push(#[verifier::truncate] ((bits >> 16u64) as u8));
        out.push(#[verifier::truncate] ((bits >> 8u64) as u8));
        out.push(#[verifier::truncate] (bits as u8));
        proof {
            assert(bits == (8 * preimage@.len()) as u64);
            assert(bits >> 0u64 == bits) by (bit_vector);
            assert(out@ =~= spec_length_pad(preimage@));
        }
        out
    }

    fn pad_block_size(&self) -> (r: usize) {
        64
    }
}

/// The SHA-1 initialization vector from FIPS 180-4.
pub open spec fn spec_sha1_iv() -> Seq<u8> {
    spec_be_word_bytes(seq![0x67452301u32, 0xefcdab89u32, 0x98badcfeu32, 0x10325476u32, 0xc3d2e1f0u32])
}

/// The SHA-256 initialization vector from FIPS 180-4.
pub open spec fn spec_sha256_iv() -> Seq<u8> {
    spec_be_word_bytes(
        seq![
            0x6a09e667u32,
            0xbb67ae85u32,
            0x3c6ef372u32,
            0xa54ff53au32,
            0x510e527fu32,
            0x9b05688cu32,
            0x1f83d9abu32,
            0x5be0cd19u32,
        ],
    )
}

/// The SHA-224 initialization vector from FIPS 180-4.
pub open spec fn spec_sha224_iv() -> Seq<u8> {
    spec_be_word_bytes(
        seq![
            0xc1059ed8u32,
            0x367cd507u32,
            0x3070dd17u32,
            0xf70e5939u32,
            0xffc00b31u32,
            0x68581511u32,
            0x64f98fa7u32,
            0xbefa4fa4u32,
        ],
    )
}

/// SHA-1, specified in FIPS 180-4: Merkle-Damgard over Davies-Meyer over
/// SHACAL-1 with length padding.
///
/// Note that this is a weak hash function with known vulnerabilities, and
/// should be avoided in practice. It is also vulnerable to length-extension
/// attacks.
pub struct Sha1 {
    pub md: MerkleDamgard<DaviesMeyer<Shacal1, ModularAddition>, LengthPadding>,
}

impl Default for Sha1 {
    fn default() -> (r: Self)
        ensures
            r.md.iv@ == spec_sha1_iv(),
    {
        let mut ivw: Vec<u32> = Vec::new();
        ivw.push(0x67452301);
        ivw.push(0xefcdab89);
        ivw.push(0x98badcfe);
        ivw.push(0x10325476);
        ivw.push(0xc3d2e1f0);
        let iv = write_be_words(&ivw);
        proof {
            assert(ivw@ =~= seq![
                0x67452301u32,
                0xefcdab89u32,
                0x98badcfeu32,
                0x10325476u32,
                0xc3d2e1f0u32,
            ]);
        }
        Sha1 { md: MerkleDamgard::new(DaviesMeyer::new(Shacal1, ModularAddition), LengthPadding, iv) }
    }
}

impl crate::hash::Hash for Sha1 {
    open spec fn wf(&self) -> bool {
        self.md.iv@ == spec_sha1_iv()
    }

    open spec fn spec_digest_size(&self) -> nat {
        20
    }

    open spec fn spec_block_size(&self) -> nat {
        64
    }

    fn block_size(&self) -> (r: usize) {
        64
    }

    open spec fn spec_hash(&self, preimage: Seq<u8>) -> Seq<u8> {
        spec_md_fold(self.md.f, self.md.iv@, spec_length_pad(preimage))
    }

    fn hash(&self, preimage: &[u8]) -> (r: Vec<u8>) {
        crate::hash::Hash::hash(&self.md, preimage)
    }
}

/// SHA-256, specified in FIPS 180-4: Merkle-Damgard over Davies-Meyer over
/// SHACAL-2 with length padding.
///
/// SHA-256 exposes its whole final state, so it is vulnerable to
/// length-extension attacks; this is a documented property, not a bug.
pub struct Sha256 {
    pub md: MerkleDamgard<DaviesMeyer<Shacal2, ModularAddition>, LengthPadding>,
}

impl Default for Sha256 {
    fn default() -> (r: Self)
        ensures
            r.md.iv@ == spec_sha256_iv(),
    {
        let mut ivw: Vec<u32> = Vec::new();
        ivw.push(0x6a09e667);
        ivw.push(0xbb67ae85);
        ivw.push(0x3c6ef372);
        ivw.push(0xa54ff53a);
        ivw.push(0x510e527f);
        ivw.push(0x9b05688c);
        ivw.push(0x1f83d9ab);
        ivw.push(0x5be0cd19);
        let iv = write_be_words(&ivw);
        proof {
            assert(ivw@ =~= seq![
                0x6a09e667u32,
                0xbb67ae85u32,
                0x3c6ef372u32,
                0xa54ff53au32,
                0x510e527fu32,
                0x9b05688cu32,
                0x1f83d9abu32,
                0x5be0cd19u32,
            ]);
        }
        Sha256 {
            md: MerkleDamgard::new(DaviesMeyer::new(Shacal2, ModularAddition), LengthPadding, iv),
        }
    }
}

impl crate::hash::Hash for Sha256 {
    open spec fn wf(&self) -> bool {
        self.md.iv@ == spec_sha256_iv()
    }

    open spec fn spec_digest_size(&self) -> nat {
        32
    }

    open spec fn spec_block_size(&self) -> nat {
        64
    }

    fn block_size(&self) -> (r: usize) {
        64
    }

    open spec fn spec_hash(&self, preimage: Seq<u8>) -> Seq<u8> {
        spec_md_fold(self.md.f, self.md.iv@, spec_length_pad(preimage))
    }

    fn hash(&self, preimage: &[u8]) -> (r: Vec<u8>) {
        crate::hash::Hash::hash(&self.md, preimage)
    }
}

/// SHA-224, specified in FIPS 180-4: SHA-256 with its own initialization
/// vector and the digest truncated to 224 bits.
///
/// Due to the truncation, SHA-224 is not vulnerable to length-extension
/// attacks, unlike SHA-256.
pub struct Sha224 {
    pub md: MerkleDamgard<DaviesMeyer<Shacal2, ModularAddition>, LengthPadding>,
}

impl Default for Sha224 {
    fn default() -> (r: Self)
        ensures
            r.md.iv@ == spec_sha224_iv(),
    {
        let mut ivw: Vec<u32> = Vec::new();
        ivw.push(0xc1059ed8);
        ivw.push(0x367cd507);
        ivw.push(0x3070dd17);
        ivw.push(0xf70e5939);
        ivw.push(0xffc00b31);
        ivw.push(0x68581511);
        ivw.push(0x64f98fa7);
        ivw.push(0xbefa4fa4);
        let iv = write_be_words(&ivw);
        proof {
            assert(ivw@ =~= seq![
                0xc1059ed8u32,
                0x367cd507u32,
                0x3070dd17u32,
                0xf70e5939u32,
                0xffc00b31u32,
                0x68581511u32,
                0x64f98fa7u32,
                0xbefa4fa4u32,
            ]);
        }
        Sha224 {
            md: MerkleDamgard::new(DaviesMeyer::new(Shacal2, ModularAddition), LengthPadding, iv),
        }
    }
}

impl crate::hash::Hash for Sha224 {
    open spec fn wf(&self) -> bool {
        self.md.iv@ == spec_sha224_iv()
    }

    open spec fn spec_digest_size(&self) -> nat {
        28
    }

    open spec fn spec_block_size(&self) -> nat {
        64
    }

    fn block_size(&self) -> (r: usize) {
        64
    }

    open spec fn spec_hash(&self, preimage: Seq<u8>) -> Seq<u8> {
        spec_md_fold(self.md.f, self.md.iv@, spec_length_pad(preimage)).take(28)
    }

    fn hash(&self, preimage: &[u8]) -> (r: Vec<u8>) {
        let mut full = crate::hash::Hash::hash(&self.md, preimage);
        full.truncate(28);
        proof {
            assert(full@ =~= spec_md_fold(self.md.f, self.md.iv@, spec_length_pad(preimage@)).take(
                28,
            ));
        }
        full
    }
}

} // verus!
