//! Randomness interfaces and helpers.

use vstd::prelude::*;

verus! {

/// A source of entropy: "true randomness" gathered from the environment,
/// typically by the operating system or by hardware. Callers implement this
/// trait; nothing can be promised about the values beyond their number.
pub trait Entropy: Sized {
    /// Fetch `n` random bytes from the entropy source.
    fn get(&mut self, n: usize) -> (r: Vec<u8>)
        ensures
            r@.len() == n,
    ;
}

/// A cryptographically secure pseudorandom number generator: a deterministic
/// generator seeded from an [entropy source](Entropy) whose output should be
/// indistinguishable from true randomness without the seed.
pub trait Csprng: Sized {
    /// A well-formed generator state.
    spec fn wf(&self) -> bool;

    /// Draw the next `n` pseudorandom bytes.
    fn gen_bytes(&mut self, n: usize) -> (r: Vec<u8>)
        requires
            old(self).wf(),
        ensures
            r@.len() == n,
            final(self).wf(),
    ;
}

/// An entropy source that returns all zeros: useful to make a generator
/// deterministic, for tests and examples. A real deployment gathers entropy
/// from its environment instead.
#[derive(Debug, Clone, Copy, PartialEq, Eq)]
pub struct NoEntropy;

impl Entropy for NoEntropy {
    #[verifier::loop_isolation(false)]
    fn get(&mut self, n: usize) -> (r: Vec<u8>)
        ensures
            r@ == Seq::new(n as nat, |i: int| 0u8),
    {
        let mut out: Vec<u8> = Vec::new();
        let mut i: usize = 0;
        while i < n
            invariant
                i <= n,
                out@.len() == i,
                forall|j: int| 0 <= j < i ==> out@[j] == 0u8,
            decreases n - i,
        {
            out.push(0);
            i = i + 1;
        }
        assert(out@ =~= Seq::new(n as nat, |i: int| 0u8));
        out
    }
}

/// Scale one 32-bit draw onto the inclusive range `start ..= end`:
/// `start + (end - start) * draw / (2^32 - 1)`, in 64-bit arithmetic. With
/// a uniform draw the result is uniform up to the negligible bias of the
/// scaling; it reaches `end` exactly when the draw is all ones.
pub fn uniform_scale(draw: u32, start: u32, end: u32) -> (r: u32)
    requires
        start <= end,
    ensures
        r as int == start + (end - start) * (draw as int) / 0xffffffff,
        start <= r <= end,
{
    let span: u64 = (end - start) as u64;
    proof {
        assert(span * (draw as u64) <= 0xffffffffu64 * 0xffffffffu64) by (nonlinear_arith)
            requires
                draw <= 0xffffffffu32,
                span <= 0xffffffffu64,
        ;
    }
    let scaled: u64 = span * (draw as u64) / 0xffffffffu64;
    proof {
        assert(span * (draw as u64) <= span * 0xffffffffu64) by (nonlinear_arith)
            requires
                draw <= 0xffffffffu32,
                span >= 0,
        ;
        vstd::arithmetic::div_mod::lemma_div_is_ordered(
            (span * (draw as u64)) as int,
            (span * 0xffffffffu64) as int,
            0xffffffff,
        );
        assert((span * 0xffffffffu64) as int / 0xffffffff == span) by {
            vstd::arithmetic::div_mod::lemma_div_multiples_vanish(
                span as int,
                0xffffffff,
            );
            assert(span * 0xffffffffu64 == 0xffffffff * span) by (nonlinear_arith);
        }
    }
    start + (scaled as u32)
}

/// Draw a number from a range: read four little-endian bytes from the
/// generator and scale them with [`uniform_scale`]. The bounds are
/// inclusive.
pub fn uniform_random<R: Csprng>(rand: &mut R, start: u32, end: u32) -> (r: u32)
    requires
        old(rand).wf(),
        start <= end,
    ensures
        start <= r <= end,
        final(rand).wf(),
{
    let bytes = rand.gen_bytes(4);
    let draw: u32 = (bytes[0] as u32) | ((bytes[1] as u32) << 8u32) | ((bytes[2] as u32)
        << 16u32) | ((bytes[3] as u32) << 24u32);
    uniform_scale(draw, start, end)
}

} // verus!
