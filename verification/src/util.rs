//! Byte and word conversion helpers shared across the library.

use vstd::prelude::*;

verus! {

/// `data` truncated or zero-extended to length `n`.
pub open spec fn spec_resize(data: Seq<u8>, n: nat) -> Seq<u8> {
    Seq::new(n, |i: int| if i < data.len() { data[i] } else { 0u8 })
}

/// Resize a buffer by either appending zeros or truncating.
#[verifier::loop_isolation(false)]
pub fn resize(data: &[u8], n: usize) -> (r: Vec<u8>)
    ensures
        r@ == spec_resize(data@, n as nat),
{
    let mut out: Vec<u8> = Vec::new();
    let mut i: usize = 0;
    while i < n
        invariant
            i <= n,
            out@.len() == i,
            forall|j: int| 0 <= j < i ==> out@[j] == (if j < data@.len() {
                data@[j]
            } else {
                0u8
            }),
        decreases n - i,
    {
        if i < data.len() {
            out.push(data[i]);
        } else {
            out.push(0);
        }
        i = i + 1;
    }
    assert(out@ =~= spec_resize(data@, n as nat));
    out
}

/// Byte `k` of the big-endian encoding of a 32-bit word.
pub open spec fn spec_u32_be_byte(w: u32, k: int) -> u8 {
    (w >> ((8 * (3 - k)) as u32)) as u8
}

/// The 32-bit word held big-endian in bytes `4w .. 4w + 4` of `s`.
pub open spec fn spec_u32_from_be_at(s: Seq<u8>, w: int) -> u32 {
    (((s[4 * w] as u32) << 24u32) | ((s[4 * w + 1] as u32) << 16u32) | ((s[4 * w + 2] as u32)
        << 8u32) | (s[4 * w + 3] as u32)) as u32
}

/// The big-endian 32-bit words packed in `s`.
pub open spec fn spec_be_words(s: Seq<u8>) -> Seq<u32> {
    Seq::new(s.len() / 4, |w: int| spec_u32_from_be_at(s, w))
}

/// The words of `ws` laid out as big-endian bytes.
pub open spec fn spec_be_word_bytes(ws: Seq<u32>) -> Seq<u8> {
    Seq::new(4 * ws.len(), |i: int| spec_u32_be_byte(ws[i / 4], i % 4))
}

/// Read the big-endian 32-bit words packed in a byte slice.
#[verifier::loop_isolation(false)]
pub fn read_be_words(s: &[u8]) -> (r: Vec<u32>)
    requires
        s@.len() as int % 4 == 0,
    ensures
        r@ == spec_be_words(s@),
        r@.len() == s@.len() / 4,
{
    let n = s.len() / 4;
    proof {
        vstd::arithmetic::div_mod::lemma_fundamental_div_mod(s@.len() as int, 4);
    }
    let mut out: Vec<u32> = Vec::new();
    let mut w: usize = 0;
    while w < n
        invariant
            w <= n,
            out@.len() == w,
            4 * n == s@.len(),
            forall|j: int| 0 <= j < w ==> out@[j] == spec_u32_from_be_at(s@, j),
        decreases n - w,
    {
        let x = ((s[4 * w] as u32) << 24u32) | ((s[4 * w + 1] as u32) << 16u32) | ((s[4 * w + 2]
            as u32) << 8u32) | (s[4 * w + 3] as u32);
        out.push(x);
        w = w + 1;
    }
    assert(out@ =~= spec_be_words(s@));
    out
}

/// Lay out 32-bit words as big-endian bytes.
#[verifier::loop_isolation(false)]
pub fn write_be_words(ws: &Vec<u32>) -> (r: Vec<u8>)
    ensures
        r@ == spec_be_word_bytes(ws@),
        r@.len() == 4 * ws@.len(),
{
    let mut out: Vec<u8> = Vec::new();
    let n = ws.len();
    let mut w: usize = 0;
    while w < n
        invariant
            w <= n,
            out@.len() == 4 * w,
            forall|i: int| 0 <= i < 4 * w ==> out@[i] == spec_u32_be_byte(ws@[i / 4], i % 4),
        decreases n - w,
    {
        let x = ws[w];
        out.push(#[verifier::truncate] ((x >> 24u32) as u8));
        out.push(#[verifier::truncate] ((x >> 16u32) as u8));
        out.push(#[verifier::truncate] ((x >> 8u32) as u8));
        out.push(#[verifier::truncate] (x as u8));
        proof {
            assert forall|i: int| 0 <= i < 4 * (w + 1) implies out@[i] == spec_u32_be_byte(
                ws@[i / 4],
                i % 4,
            ) by {
                if i < 4 * w {
                } else {
                    assert(i / 4 == w && i % 4 == i - 4 * w);
                    assert((x as u32) >> ((8 * (3 - 3)) as u32) == x >> 0u32);
                    assert(x >> 0u32 == x) by (bit_vector);
                }
            }
        }
        w = w + 1;
    }
    assert(out@ =~= spec_be_word_bytes(ws@));
    out
}

/// Left rotation of a 32-bit word.
pub open spec fn spec_rotl32(x: u32, n: nat) -> u32 {
    ((x << (n as u32)) | (x >> ((32 - n) as u32))) as u32
}

/// Rotate a 32-bit word left by `n` bits.
pub fn rotl32(x: u32, n: u32) -> (r: u32)
    requires
        0 < n < 32,
    ensures
        r == spec_rotl32(x, n as nat),
{
    (x << n) | (x >> (32 - n))
}

/// Right rotation of a 32-bit word.
pub open spec fn spec_rotr32(x: u32, n: nat) -> u32 {
    ((x >> (n as u32)) | (x << ((32 - n) as u32))) as u32
}

/// Rotate a 32-bit word right by `n` bits.
pub fn rotr32(x: u32, n: u32) -> (r: u32)
    requires
        0 < n < 32,
    ensures
        r == spec_rotr32(x, n as nat),
{
    (x >> n) | (x << (32 - n))
}

/// Byte `i` of the big-endian encoding of a 64-bit word.
pub open spec fn spec_u64_be_byte(n: u64, i: int) -> u8 {
    (n >> ((8 * (7 - i)) as u64)) as u8
}

/// Left rotation of a 64-bit word.
pub open spec fn spec_rotl64(x: u64, n: nat) -> u64 {
    if n == 0 {
        x
    } else {
        ((x << (n as u64)) | (x >> ((64 - n) as u64))) as u64
    }
}

/// Rotate a 64-bit word left by `n` bits.
pub fn rotl64(x: u64, n: u64) -> (r: u64)
    requires
        n < 64,
    ensures
        r == spec_rotl64(x, n as nat),
{
    if n == 0 {
        x
    } else {
        (x << n) | (x >> (64 - n))
    }
}

} // verus!
