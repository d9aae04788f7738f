//! SHA-3, specified in FIPS 202: the Keccak sponge construction.
//!
//! The hash keeps a 5x5 matrix of 64-bit lanes as its state, absorbs the
//! padded input block by block by XORing each block into the leading lanes
//! and applying the [Keccak-p permutation](keccak_p), and finally squeezes
//! the digest out of the leading lanes. The block size (the rate) and the
//! digest size are parameters; the unused part of the state (the capacity)
//! is what gives the construction its security.
//!
//! The bit ordering follows the byte-reversed convention of the
//! specification: lanes are read and written as little-endian 64-bit words,
//! and the `pad10*1` domain-separation bits appear byte-reversed as `0x06`
//! and `0x80`.

use vstd::prelude::*;
use crate::util::{rotl64, spec_rotl64};

verus! {

/// The rotation offset the rho step applies to lane `i` (the offsets are
/// taken modulo the lane width of 64).
pub open spec fn spec_rho_offset(i: int) -> u64 {
    if i == 0 { 0 } else {
    if i == 1 { 1 } else {
    if i == 2 { 190 } else {
    if i == 3 { 28 } else {
    if i == 4 { 91 } else {
    if i == 5 { 36 } else {
    if i == 6 { 300 } else {
    if i == 7 { 6 } else {
    if i == 8 { 55 } else {
    if i == 9 { 276 } else {
    if i == 10 { 3 } else {
    if i == 11 { 10 } else {
    if i == 12 { 171 } else {
    if i == 13 { 153 } else {
    if i == 14 { 231 } else {
    if i == 15 { 105 } else {
    if i == 16 { 45 } else {
    if i == 17 { 15 } else {
    if i == 18 { 21 } else {
    if i == 19 { 136 } else {
    if i == 20 { 210 } else {
    if i == 21 { 66 } else {
    if i == 22 { 253 } else {
    if i == 23 { 120 } else {
    if i == 24 { 78 } else {
    0
    }    }    }    }    }    }    }    }    }    }    }    }    }    }    }    }    }    }    }    }    }    }    }    }    }
}

/// Look up the rho rotation offset of a lane.
pub fn rho_offset(i: usize) -> (r: u64)
    requires
        i < 25,
    ensures
        r == spec_rho_offset(i as int),
{
    match i {
        0usize => 0,
        1usize => 1,
        2usize => 190,
        3usize => 28,
        4usize => 91,
        5usize => 36,
        6usize => 300,
        7usize => 6,
        8usize => 55,
        9usize => 276,
        10usize => 3,
        11usize => 10,
        12usize => 171,
        13usize => 153,
        14usize => 231,
        15usize => 105,
        16usize => 45,
        17usize => 15,
        18usize => 21,
        19usize => 136,
        20usize => 210,
        21usize => 66,
        22usize => 253,
        23usize => 120,
        24usize => 78,
        _ => 0,
    }
}

/// The round constant the iota step XORs into lane zero in round `i`.
/// These are the values [`rctable`] generates.
pub open spec fn spec_keccak_rc(i: int) -> u64 {
    if i == 0 { 0x0000000000000001 } else {
    if i == 1 { 0x0000000000008082 } else {
    if i == 2 { 0x800000000000808a } else {
    if i == 3 { 0x8000000080008000 } else {
    if i == 4 { 0x000000000000808b } else {
    if i == 5 { 0x0000000080000001 } else {
    if i == 6 { 0x8000000080008081 } else {
    if i == 7 { 0x8000000000008009 } else {
    if i == 8 { 0x000000000000008a } else {
    if i == 9 { 0x0000000000000088 } else {
    if i == 10 { 0x0000000080008009 } else {
    if i == 11 { 0x000000008000000a } else {
    if i == 12 { 0x000000008000808b } else {
    if i == 13 { 0x800000000000008b } else {
    if i == 14 { 0x8000000000008089 } else {
    if i == 15 { 0x8000000000008003 } else {
    if i == 16 { 0x8000000000008002 } else {
    if i == 17 { 0x8000000000000080 } else {
    if i == 18 { 0x000000000000800a } else {
    if i == 19 { 0x800000008000000a } else {
    if i == 20 { 0x8000000080008081 } else {
    if i == 21 { 0x8000000000008080 } else {
    if i == 22 { 0x0000000080000001 } else {
    if i == 23 { 0x8000000080008008 } else {
    0
    }    }    }    }    }    }    }    }    }    }    }    }    }    }    }    }    }    }    }    }    }    }    }    }
}

/// Look up an iota round constant.
pub fn keccak_rc(i: usize) -> (r: u64)
    requires
        i < 24,
    ensures
        r == spec_keccak_rc(i as int),
{
    match i {
        0usize => 0x0000000000000001,
        1usize => 0x0000000000008082,
        2usize => 0x800000000000808a,
        3usize => 0x8000000080008000,
        4usize => 0x000000000000808b,
        5usize => 0x0000000080000001,
        6usize => 0x8000000080008081,
        7usize => 0x8000000000008009,
        8usize => 0x000000000000008a,
        9usize => 0x0000000000000088,
        10usize => 0x0000000080008009,
        11usize => 0x000000008000000a,
        12usize => 0x000000008000808b,
        13usize => 0x800000000000008b,
        14usize => 0x8000000000008089,
        15usize => 0x8000000000008003,
        16usize => 0x8000000000008002,
        17usize => 0x8000000000000080,
        18usize => 0x000000000000800a,
        19usize => 0x800000008000000a,
        20usize => 0x8000000080008081,
        21usize => 0x8000000000008080,
        22usize => 0x0000000080000001,
        23usize => 0x8000000080008008,
        _ => 0,
    }
}

/// The XOR of column `x` of the state.
pub open spec fn spec_theta_c(s: Seq<u64>, x: int) -> u64 {
    s[x] ^ s[5 + x] ^ s[10 + x] ^ s[15 + x] ^ s[20 + x]
}

/// The theta step: XOR each lane with the parities of the two neighbouring
/// columns, one of them rotated by a bit.
pub open spec fn spec_theta(s: Seq<u64>) -> Seq<u64> {
    Seq::new(
        25,
        |i: int|
            {
                let x = i % 5;
                s[i] ^ spec_theta_c(s, (x + 4) % 5) ^ spec_rotl64(spec_theta_c(s, (x + 1) % 5), 1)
            },
    )
}

/// The rho step: rotate each lane by its fixed offset.
pub open spec fn spec_rho(s: Seq<u64>) -> Seq<u64> {
    Seq::new(25, |i: int| spec_rotl64(s[i], (spec_rho_offset(i) % 64) as nat))
}

/// The pi step: shuffle the lanes.
pub open spec fn spec_pi(s: Seq<u64>) -> Seq<u64> {
    Seq::new(
        25,
        |i: int|
            {
                let y = i / 5;
                let x = i % 5;
                s[5 * x + ((x + 3 * y) % 5)]
            },
    )
}

/// The chi step: the only non-linear step, combining each lane with the two
/// lanes to its right in the row.
pub open spec fn spec_chi(s: Seq<u64>) -> Seq<u64> {
    Seq::new(
        25,
        |i: int|
            {
                let y = i / 5;
                let x = i % 5;
                s[i] ^ ((!s[5 * y + ((x + 1) % 5)]) & s[5 * y + ((x + 2) % 5)])
            },
    )
}

/// The iota step: XOR the round constant into lane zero.
pub open spec fn spec_iota(s: Seq<u64>, ir: int) -> Seq<u64> {
    s.update(0, s[0] ^ spec_keccak_rc(ir))
}

/// One Keccak-p round.
pub open spec fn spec_keccak_round(s: Seq<u64>, ir: int) -> Seq<u64> {
    spec_iota(spec_chi(spec_pi(spec_rho(spec_theta(s)))), ir)
}

/// The first `n` Keccak-p rounds applied to `s`.
pub open spec fn spec_keccak_rounds(s: Seq<u64>, n: nat) -> Seq<u64>
    decreases n,
{
    if n == 0 {
        s
    } else {
        spec_keccak_round(spec_keccak_rounds(s, (n - 1) as nat), n - 1)
    }
}

/// The full 24-round Keccak-p permutation.
pub open spec fn spec_keccak_p(s: Seq<u64>) -> Seq<u64> {
    spec_keccak_rounds(s, 24)
}

/// The theta step specified in FIPS 202.
#[verifier::loop_isolation(false)]
pub fn theta(state: &mut Vec<u64>)
    requires
        old(state)@.len() == 25,
    ensures
        final(state)@ == spec_theta(old(state)@),
{
    // The XOR of all rows at each column.
    let mut c: Vec<u64> = Vec::new();
    let mut x: usize = 0;
    while x < 5
        invariant
            x <= 5,
            c@.len() == x,
            forall|j: int| 0 <= j < x ==> c@[j] == spec_theta_c(old(state)@, j),
        decreases 5 - x,
    {
        c.push(state[x] ^ state[5 + x] ^ state[10 + x] ^ state[15 + x] ^ state[20 + x]);
        x = x + 1;
    }
    let mut i: usize = 0;
    while i < 25
        invariant
            i <= 25,
            state@.len() == 25,
            forall|j: int| 0 <= j < i ==> state@[j] == spec_theta(old(state)@)[j],
            forall|j: int| i <= j < 25 ==> state@[j] == old(state)@[j],
        decreases 25 - i,
    {
        let x = i % 5;
        let v = state[i] ^ c[(x + 4) % 5] ^ rotl64(c[(x + 1) % 5], 1);
        state[i] = v;
        i = i + 1;
    }
    assert(state@ =~= spec_theta(old(state)@));
}

/// The rho step specified in FIPS 202.
#[verifier::loop_isolation(false)]
pub fn rho(state: &mut Vec<u64>)
    requires
        old(state)@.len() == 25,
    ensures
        final(state)@ == spec_rho(old(state)@),
{
    let mut i: usize = 0;
    while i < 25
        invariant
            i <= 25,
            state@.len() == 25,
            forall|j: int| 0 <= j < i ==> state@[j] == spec_rho(old(state)@)[j],
            forall|j: int| i <= j < 25 ==> state@[j] == old(state)@[j],
        decreases 25 - i,
    {
        let off = rho_offset(i) % 64;
        let v = rotl64(state[i], off);
        state[i] = v;
        i = i + 1;
    }
    assert(state@ =~= spec_rho(old(state)@));
}

/// The pi step specified in FIPS 202.
#[verifier::loop_isolation(false)]
pub fn pi(state: &mut Vec<u64>)
    requires
        old(state)@.len() == 25,
    ensures
        final(state)@ == spec_pi(old(state)@),
{
    let copy = vstd::slice::slice_to_vec(state.as_slice());
    let mut i: usize = 0;
    while i < 25
        invariant
            i <= 25,
            state@.len() == 25,
            copy@ == old(state)@,
            forall|j: int| 0 <= j < i ==> state@[j] == spec_pi(old(state)@)[j],
            forall|j: int| i <= j < 25 ==> state@[j] == old(state)@[j],
        decreases 25 - i,
    {
        let y = i / 5;
        let x = i % 5;
        let v = copy[5 * x + ((x + 3 * y) % 5)];
        state[i] = v;
        i = i + 1;
    }
    assert(state@ =~= spec_pi(old(state)@));
}

/// The chi step specified in FIPS 202.
#[verifier::loop_isolation(false)]
pub fn chi(state: &mut Vec<u64>)
    requires
        old(state)@.len() == 25,
    ensures
        final(state)@ == spec_chi(old(state)@),
{
    let copy = vstd::slice::slice_to_vec(state.as_slice());
    let mut i: usize = 0;
    while i < 25
        invariant
            i <= 25,
            state@.len() == 25,
            copy@ == old(state)@,
            forall|j: int| 0 <= j < i ==> state@[j] == spec_chi(old(state)@)[j],
            forall|j: int| i <= j < 25 ==> state@[j] == old(state)@[j],
        decreases 25 - i,
    {
        let y = i / 5;
        let x = i % 5;
        let v = copy[i] ^ ((!copy[5 * y + ((x + 1) % 5)]) & copy[5 * y + ((x + 2) % 5)]);
        state[i] = v;
        i = i + 1;
    }
    assert(state@ =~= spec_chi(old(state)@));
}

/// The iota step specified in FIPS 202.
pub fn iota(state: &mut Vec<u64>, ir: usize)
    requires
        old(state)@.len() == 25,
        ir < 24,
    ensures
        final(state)@ == spec_iota(old(state)@, ir as int),
{
    let v = state[0] ^ keccak_rc(ir);
    state[0] = v;
    assert(state@ =~= spec_iota(old(state)@, ir as int));
}

/// The Keccak-p permutation specified in FIPS 202: 24 rounds of the
/// [theta], [rho], [pi], [chi] and [iota] steps.
///
/// The theta, rho and pi steps add diffusion; the chi step adds the
/// non-linearity that is crucial for security; the iota step breaks the
/// remaining symmetry with a round constant.
#[verifier::spinoff_prover]
pub fn keccak_p(state: &mut Vec<u64>)
    requires
        old(state)@.len() == 25,
    ensures
        final(state)@ == spec_keccak_p(old(state)@),
{
    let ghost s0 = state@;
    let mut ir: usize = 0;
    while ir < 24
        invariant
            ir <= 24,
            state@.len() == 25,
            state@ == spec_keccak_rounds(s0, ir as nat),
        decreases 24 - ir,
    {
        let ghost pre = state@;
        theta(state);
        rho(state);
        pi(state);
        chi(state);
        iota(state, ir);
        proof {
            assert(state@ == spec_keccak_round(pre, ir as int));
            assert(state@ == spec_keccak_rounds(s0, (ir + 1) as nat));
        }
        ir = ir + 1;
    }
}

/// The number of padding bytes `pad10*1` appends: at least one, bringing the
/// total to a multiple of the rate.
pub open spec fn spec_pad10star1_fill(len: nat, rate: nat) -> nat
    recommends
        rate > 0,
{
    (rate - (len as int % rate as int)) as nat
}

/// The `pad10*1` padding with the SHA-3 domain separator: the first padding
/// byte carries the bit pattern 0x06, the last carries 0x80, and when both
/// fall in the same byte they are OR-combined.
/// Padding byte `i` of a run of `k` padding bytes: the domain separator in
/// the first byte, the final `1` bit in the last, OR-combined when the run
/// is a single byte.
pub open spec fn spec_pad10star1_byte(i: int, k: int) -> u8 {
    if i == 0 && i == k - 1 {
        0x86u8
    } else if i == 0 {
        0x06u8
    } else if i == k - 1 {
        0x80u8
    } else {
        0u8
    }
}

pub open spec fn spec_pad10star1(data: Seq<u8>, rate: nat) -> Seq<u8> {
    let k = spec_pad10star1_fill(data.len(), rate);
    data + Seq::new(k, |i: int| spec_pad10star1_byte(i, k as int))
}

/// Pad the input data to a multiple of the rate with `pad10*1` and the SHA-3
/// domain separator.
#[verifier::loop_isolation(false)]
pub fn pad10star1(data: &[u8], rate: usize) -> (r: Vec<u8>)
    requires
        rate > 0,
    ensures
        r@ == spec_pad10star1(data@, rate as nat),
        r@.len() as int % rate as int == 0,
        r@.len() > 0,
{
    let mut out = vstd::slice::slice_to_vec(data);
    let k = rate - data.len() % rate;
    proof {
        vstd::arithmetic::div_mod::lemma_mod_bound(data@.len() as int, rate as int);
    }
    let ghost padded = spec_pad10star1(data@, rate as nat);
    let mut i: usize = 0;
    while i < k
        invariant
            i <= k,
            k == spec_pad10star1_fill(data@.len(), rate as nat),
            0 < k <= rate,
            padded == spec_pad10star1(data@, rate as nat),
            out@ == padded.take(data@.len() + i),
        decreases k - i,
    {
        let b: u8 = if i == 0 && i == k - 1 {
            0x86
        } else if i == 0 {
            0x06
        } else if i == k - 1 {
            0x80
        } else {
            0
        };
        out.push(b);
        assert(out@ =~= padded.take(data@.len() + i + 1));
        i = i + 1;
    }
    assert(out@ =~= padded);
    assert(padded.len() as int % rate as int == 0) by {
        let l = data@.len() as int;
        let nn = rate as int;
        vstd::arithmetic::div_mod::lemma_fundamental_div_mod(l, nn);
        assert(padded.len() as int == nn * (l / nn) + nn);
        assert(nn * (l / nn) + nn == (l / nn + 1) * nn) by (nonlinear_arith);
        vstd::arithmetic::div_mod::lemma_mod_multiples_basic(l / nn + 1, nn);
    }
    out
}

/// The 64-bit lane held little-endian in bytes `8l .. 8l + 8` of `b`.
pub open spec fn spec_u64_from_le_at(b: Seq<u8>, l: int) -> u64 {
    ((b[8 * l] as u64) | ((b[8 * l + 1] as u64) << 8u64) | ((b[8 * l + 2] as u64) << 16u64) | ((b[8
        * l + 3] as u64) << 24u64) | ((b[8 * l + 4] as u64) << 32u64) | ((b[8 * l + 5] as u64)
        << 40u64) | ((b[8 * l + 6] as u64) << 48u64) | ((b[8 * l + 7] as u64) << 56u64)) as u64
}

/// One absorption: XOR the block into the leading lanes of the state.
pub open spec fn spec_absorb_block(s: Seq<u64>, block: Seq<u8>, rate: nat) -> Seq<u64> {
    Seq::new(
        25,
        |l: int|
            if l < rate / 8 {
                s[l] ^ spec_u64_from_le_at(block, l)
            } else {
                s[l]
            },
    )
}

/// The state after absorbing every block of `padded`.
pub open spec fn spec_absorb(s: Seq<u64>, padded: Seq<u8>, rate: nat) -> Seq<u64>
    decreases padded.len(),
{
    if rate == 0 || padded.len() < rate {
        s
    } else {
        spec_absorb(
            spec_keccak_p(spec_absorb_block(s, padded.take(rate as int), rate)),
            padded.skip(rate as int),
            rate,
        )
    }
}

/// The first `d` bytes squeezed out of the state, reading lanes little-endian.
pub open spec fn spec_squeeze(s: Seq<u64>, d: nat) -> Seq<u8> {
    Seq::new(d, |i: int| ((s[i / 8] >> ((8 * (i % 8)) as u64)) as u8))
}

/// The sponge construction over [Keccak-p](keccak_p) with rate `rate` and
/// digest size `d`.
pub open spec fn spec_sponge(input: Seq<u8>, rate: nat, d: nat) -> Seq<u8> {
    spec_squeeze(spec_absorb(Seq::new(25, |i: int| 0u64), spec_pad10star1(input, rate), rate), d)
}

/// The sponge construction with rate (block size) `rate` and output size
/// `d`, over the [Keccak-p permutation](keccak_p).
///
/// The padded input is absorbed block by block, then the digest is read out
/// of the leading lanes; since the digest is never longer than the rate, a
/// single squeeze suffices.
#[verifier::loop_isolation(false)]
#[verifier::rlimit(100)]
pub fn sponge(input: &[u8], rate: usize, d: usize) -> (r: Vec<u8>)
    requires
        0 < rate <= 200,
        rate as int % 8 == 0,
        d <= rate,
    ensures
        r@ == spec_sponge(input@, rate as nat, d as nat),
        r@.len() == d,
{
    let mut state: Vec<u64> = Vec::new();
    let mut z: usize = 0;
    while z < 25
        invariant
            z <= 25,
            state@.len() == z,
            forall|j: int| 0 <= j < z ==> state@[j] == 0u64,
        decreases 25 - z,
    {
        state.push(0);
        z = z + 1;
    }
    assert(state@ =~= Seq::new(25, |i: int| 0u64));

    // Absorbing phase.
    let padded = pad10star1(input, rate);
    let ghost p = padded@;
    let lanes = rate / 8;
    proof {
        vstd::arithmetic::div_mod::lemma_fundamental_div_mod(rate as int, 8);
    }
    let n = padded.len();
    assert(p.skip(0) =~= p);
    let mut off: usize = 0;
    while off < n
        invariant
            off <= n,
            off as int % rate as int == 0,
            state@.len() == 25,
            spec_absorb(state@, p.skip(off as int), rate as nat) == spec_absorb(
                Seq::new(25, |i: int| 0u64),
                p,
                rate as nat,
            ),
        decreases n - off,
    {
        proof {
            vstd::arithmetic::div_mod::lemma_mod_bound(off as int, rate as int);
            if n - off < rate {
                vstd::arithmetic::div_mod::lemma_mod_adds(
                    off as int,
                    (n - off) as int,
                    rate as int,
                );
                vstd::arithmetic::div_mod::lemma_small_mod((n - off) as nat, rate as nat);
                assert(n as int % rate as int != 0);
            }
        }
        let ghost rest = p.skip(off as int);
        let ghost pre = state@;
        let mut l: usize = 0;
        while l < lanes
            invariant
                l <= lanes,
                state@.len() == 25,
                forall|j: int| 0 <= j < l ==> state@[j] == pre[j] ^ spec_u64_from_le_at(
                    rest.take(rate as int),
                    j,
                ),
                forall|j: int| l <= j < 25 ==> state@[j] == pre[j],
            decreases lanes - l,
        {
            let base = off + 8 * l;
            let lane = (padded[base] as u64) | ((padded[base + 1] as u64) << 8u64) | ((padded[base
                + 2] as u64) << 16u64) | ((padded[base + 3] as u64) << 24u64) | ((padded[base + 4]
                as u64) << 32u64) | ((padded[base + 5] as u64) << 40u64) | ((padded[base + 6]
                as u64) << 48u64) | ((padded[base + 7] as u64) << 56u64);
            proof {
                assert(rest.take(rate as int)[8 * l] == p[off + 8 * l]);
                assert(rest.take(rate as int)[8 * l + 1] == p[off + 8 * l + 1]);
                assert(rest.take(rate as int)[8 * l + 2] == p[off + 8 * l + 2]);
                assert(rest.take(rate as int)[8 * l + 3] == p[off + 8 * l + 3]);
                assert(rest.take(rate as int)[8 * l + 4] == p[off + 8 * l + 4]);
                assert(rest.take(rate as int)[8 * l + 5] == p[off + 8 * l + 5]);
                assert(rest.take(rate as int)[8 * l + 6] == p[off + 8 * l + 6]);
                assert(rest.take(rate as int)[8 * l + 7] == p[off + 8 * l + 7]);
            }
            let v = state[l] ^ lane;
            state[l] = v;
            l = l + 1;
        }
        assert(state@ =~= spec_absorb_block(pre, rest.take(rate as int), rate as nat));
        keccak_p(&mut state);
        assert(rest.skip(rate as int) =~= p.skip(off as int + rate as int));
        proof {
            vstd::arithmetic::div_mod::lemma_mod_adds(off as int, rate as int, rate as int);
            vstd::arithmetic::div_mod::lemma_mod_self_0(rate as int);
        }
        off = off + rate;
    }
    assert(p.skip(n as int) =~= Seq::<u8>::empty());

    // Squeezing phase.
    let mut out: Vec<u8> = Vec::new();
    let mut i: usize = 0;
    while i < d
        invariant
            i <= d,
            out@.len() == i,
            state@.len() == 25,
            forall|j: int| 0 <= j < i ==> out@[j] == ((state@[j / 8] >> ((8 * (j % 8)) as u64))
                as u8),
        decreases d - i,
    {
        let sh: u64 = 8 * ((i % 8) as u64);
        out.push(#[verifier::truncate] ((state[i / 8] >> sh) as u8));
        i = i + 1;
    }
    assert(out@ =~= spec_squeeze(state@, d as nat));
    out
}

/// One step of the linear-feedback shift register behind the round
/// constants.
pub open spec fn spec_lfsr_step(r: u8) -> u8 {
    if r & 1 == 1 {
        ((r >> 1u8) ^ 0x8e) as u8
    } else {
        (r >> 1u8) as u8
    }
}

/// The shift register after `t` steps.
pub open spec fn spec_lfsr_at(t: nat) -> u8
    decreases t,
{
    if t == 0 {
        0x80
    } else {
        spec_lfsr_step(spec_lfsr_at((t - 1) as nat))
    }
}

/// Bit `t` of the round-constant bit stream defined in FIPS 202.
pub open spec fn spec_rc_bit(t: nat) -> bool {
    if t % 255 == 0 {
        true
    } else {
        spec_lfsr_at(t % 255) & 0x80 != 0
    }
}

/// Whether bit `t` of the round-constant bit stream is set.
#[verifier::loop_isolation(false)]
fn rc(t: usize) -> (r: bool)
    ensures
        r == spec_rc_bit(t as nat),
{
    let t = t % 255;
    if t == 0 {
        return true;
    }
    let mut reg: u8 = 0x80;
    let mut i: usize = 1;
    while i <= t
        invariant
            1 <= i <= t + 1,
            reg == spec_lfsr_at((i - 1) as nat),
        decreases t + 1 - i,
    {
        let prev = reg;
        let low = prev & 0x01 != 0;
        reg = prev >> 1;
        if low {
            reg = reg ^ 0b10001110;
        }
        proof {
            assert(((prev & 1) == 1) == ((prev & 0x01) != 0)) by (bit_vector);
        }
        i = i + 1;
    }
    reg & 0x80 != 0
}

/// The bit position `2^j - 1` that bit `j` of the generator feeds in a lane.
pub open spec fn spec_rc_bitpos(j: int) -> u64 {
    if j == 0 { 0 } else if j == 1 { 1 } else if j == 2 { 3 } else if j == 3 { 7 }
    else if j == 4 { 15 } else if j == 5 { 31 } else { 63 }
}

/// The round constant of round `ir`, assembled bit by bit.
pub open spec fn spec_rc_word_upto(ir: int, j: nat) -> u64
    decreases j,
{
    let bit: u64 = if spec_rc_bit((j + 7 * ir) as nat) {
        (1u64 << spec_rc_bitpos(j as int)) as u64
    } else {
        0u64
    };
    if j == 0 {
        0u64 | bit
    } else {
        spec_rc_word_upto(ir, (j - 1) as nat) | bit
    }
}

/// The table of 24 round constants generated by the register.
pub open spec fn spec_rctable() -> Seq<u64> {
    Seq::new(24, |ir: int| spec_rc_word_upto(ir, 6))
}

/// Generate the round constants used by the [iota] step.
///
/// This is a reference function: the constants are tabled in
/// [`keccak_rc`], and this derivation is not used by the hashes themselves.
#[verifier::loop_isolation(false)]
pub fn rctable() -> (r: Vec<u64>)
    ensures
        r@ == spec_rctable(),
{
    let mut table: Vec<u64> = Vec::new();
    let mut ir: usize = 0;
    while ir < 24
        invariant
            ir <= 24,
            table@.len() == ir,
            forall|k: int| 0 <= k < ir ==> table@[k] == spec_rc_word_upto(k, 6),
        decreases 24 - ir,
    {
        let mut val: u64 = 0;
        let mut j: usize = 0;
        while j <= 6
            invariant
                j <= 7,
                j == 0 ==> val == 0,
                j >= 1 ==> val == spec_rc_word_upto(ir as int, (j - 1) as nat),
            decreases 7 - j,
        {
            let ghost prev_val = val;
            if rc(j + 7 * ir) {
                let pos: u64 = match j {
                    0usize => 0,
                    1usize => 1,
                    2usize => 3,
                    3usize => 7,
                    4usize => 15,
                    5usize => 31,
                    _ => 63,
                };
                assert(pos == spec_rc_bitpos(j as int));
                val = val | (1u64 << pos);
            }
            proof {
                assert(prev_val | 0u64 == prev_val) by (bit_vector);
                assert(0u64 | val == val) by (bit_vector);
                assert(val == spec_rc_word_upto(ir as int, j as nat));
            }
            j = j + 1;
        }
        table.push(val);
        ir = ir + 1;
    }
    assert(table@ =~= spec_rctable());
    table
}

/// [SHA-3](self) with 224-bit output.
pub struct Sha3_224;

/// [SHA-3](self) with 256-bit output.
pub struct Sha3_256;

/// [SHA-3](self) with 384-bit output.
pub struct Sha3_384;

/// [SHA-3](self) with 512-bit output.
pub struct Sha3_512;

impl Default for Sha3_224 {
    fn default() -> (r: Self)
        ensures
            r == Sha3_224,
    {
        Sha3_224
    }
}

impl Default for Sha3_256 {
    fn default() -> (r: Self)
        ensures
            r == Sha3_256,
    {
        Sha3_256
    }
}

impl Default for Sha3_384 {
    fn default() -> (r: Self)
        ensures
            r == Sha3_384,
    {
        Sha3_384
    }
}

impl Default for Sha3_512 {
    fn default() -> (r: Self)
        ensures
            r == Sha3_512,
    {
        Sha3_512
    }
}

impl crate::hash::Hash for Sha3_224 {
    open spec fn wf(&self) -> bool {
        true
    }

    open spec fn spec_digest_size(&self) -> nat {
        28
    }

    open spec fn spec_block_size(&self) -> nat {
        144
    }

    fn block_size(&self) -> (r: usize) {
        144
    }

    open spec fn spec_hash(&self, preimage: Seq<u8>) -> Seq<u8> {
        spec_sponge(preimage, 144, 28)
    }

    fn hash(&self, preimage: &[u8]) -> (r: Vec<u8>) {
        sponge(preimage, 144, 28)
    }
}

impl crate::hash::Hash for Sha3_256 {
    open spec fn wf(&self) -> bool {
        true
    }

    open spec fn spec_digest_size(&self) -> nat {
        32
    }

    open spec fn spec_block_size(&self) -> nat {
        136
    }

    fn block_size(&self) -> (r: usize) {
        136
    }

    open spec fn spec_hash(&self, preimage: Seq<u8>) -> Seq<u8> {
        spec_sponge(preimage, 136, 32)
    }

    fn hash(&self, preimage: &[u8]) -> (r: Vec<u8>) {
        sponge(preimage, 136, 32)
    }
}

impl crate::hash::Hash for Sha3_384 {
    open spec fn wf(&self) -> bool {
        true
    }

    open spec fn spec_digest_size(&self) -> nat {
        48
    }

    open spec fn spec_block_size(&self) -> nat {
        104
    }

    fn block_size(&self) -> (r: usize) {
        104
    }

    open spec fn spec_hash(&self, preimage: Seq<u8>) -> Seq<u8> {
        spec_sponge(preimage, 104, 48)
    }

    fn hash(&self, preimage: &[u8]) -> (r: Vec<u8>) {
        sponge(preimage, 104, 48)
    }
}

impl crate::hash::Hash for Sha3_512 {
    open spec fn wf(&self) -> bool {
        true
    }

    open spec fn spec_digest_size(&self) -> nat {
        64
    }

    open spec fn spec_block_size(&self) -> nat {
        72
    }

    fn block_size(&self) -> (r: usize) {
        72
    }

    open spec fn spec_hash(&self, preimage: Seq<u8>) -> Seq<u8> {
        spec_sponge(preimage, 72, 64)
    }

    fn hash(&self, preimage: &[u8]) -> (r: Vec<u8>) {
        sponge(preimage, 72, 64)
    }
}

} // verus!
