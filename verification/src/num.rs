//! 256-bit modular arithmetic on little-endian 64-bit words.
//!
//! [`Num`] is an unsigned 256-bit integer held as four 64-bit words, least
//! significant first. The arithmetic is built from first principles:
//! carry-propagating addition, borrow-propagating subtraction, schoolbook
//! multiplication into an eight-word intermediate, and bit-by-bit long
//! division, from which the modular operations reduce. The multiplicative
//! inverse is the extended Euclidean algorithm.

use vstd::prelude::*;
use vstd::arithmetic::power2::pow2;

verus! {

/// The radix of the representation: one 64-bit word.
pub open spec fn spec_base() -> nat {
    0x10000000000000000
}

/// The value of a little-endian word sequence.
pub open spec fn nat_of_words(s: Seq<u64>) -> nat
    decreases s.len(),
{
    if s.len() == 0 {
        0
    } else {
        (s[0] + spec_base() * nat_of_words(s.skip(1))) as nat
    }
}

/// The place value of word `k`.
pub open spec fn pow64(k: nat) -> nat
    decreases k,
{
    if k == 0 {
        1
    } else {
        spec_base() * pow64((k - 1) as nat)
    }
}

proof fn lemma_pow64_pos(k: nat)
    ensures
        pow64(k) >= 1,
    decreases k,
{
    if k > 0 {
        lemma_pow64_pos((k - 1) as nat);
    }
}

/// Word place values are powers of two.
proof fn lemma_pow64_pow2(k: nat)
    ensures
        pow64(k) == pow2(64 * k),
    decreases k,
{
    if k == 0 {
        assert(pow2(0) == 1) by {
            vstd::arithmetic::power2::lemma2_to64();
        }
    } else {
        lemma_pow64_pow2((k - 1) as nat);
        vstd::arithmetic::power2::lemma_pow2_adds(64, 64 * ((k - 1) as nat));
        assert(pow2(64) == 0x10000000000000000) by {
            vstd::arithmetic::power2::lemma2_to64();
        }
    }
}

/// A word sequence is bounded by the place value just past its end.
proof fn lemma_nat_of_words_bound(s: Seq<u64>)
    ensures
        nat_of_words(s) < pow64(s.len()),
    decreases s.len(),
{
    if s.len() == 0 {
    } else {
        let rest = s.skip(1);
        lemma_nat_of_words_bound(rest);
        lemma_pow64_pos((s.len() - 1) as nat);
        assert(nat_of_words(rest) + 1 <= pow64(rest.len()));
        assert(spec_base() * nat_of_words(rest) + spec_base() <= spec_base() * pow64(rest.len()))
            by (nonlinear_arith)
            requires
                nat_of_words(rest) + 1 <= pow64(rest.len()),
        ;
        assert(pow64(s.len()) == spec_base() * pow64(rest.len()));
    }
}

/// Split the value of a word sequence at position `i`.
proof fn lemma_nat_of_words_split(s: Seq<u64>, i: int)
    requires
        0 <= i <= s.len(),
    ensures
        nat_of_words(s) == nat_of_words(s.take(i)) + pow64(i as nat) * nat_of_words(s.skip(i)),
    decreases i,
{
    if i == 0 {
        assert(s.take(0) =~= Seq::<u64>::empty());
        assert(s.skip(0) =~= s);
        assert(nat_of_words(s.take(0)) == 0);
        assert(pow64(0) == 1);
        assert(pow64(0) * nat_of_words(s) == nat_of_words(s)) by (nonlinear_arith)
            requires
                pow64(0) == 1,
        ;
        assert(nat_of_words(s) == nat_of_words(s.take(i)) + pow64(i as nat) * nat_of_words(
            s.skip(i),
        ));
    } else {
        let rest = s.skip(1);
        lemma_nat_of_words_split(rest, i - 1);
        assert(s.take(i).skip(1) =~= rest.take(i - 1));
        assert(s.skip(i) =~= rest.skip(i - 1));
        assert(nat_of_words(s.take(i)) == s[0] + spec_base() * nat_of_words(rest.take(i - 1)));
        let hi = nat_of_words(rest.skip(i - 1));
        let p = pow64((i - 1) as nat);
        assert(nat_of_words(s) == s[0] + spec_base() * (nat_of_words(rest.take(i - 1)) + p * hi));
        assert(spec_base() * (nat_of_words(rest.take(i - 1)) + p * hi) == spec_base()
            * nat_of_words(rest.take(i - 1)) + spec_base() * (p * hi)) by (nonlinear_arith);
        assert(spec_base() * (p * hi) == (spec_base() * p) * hi) by (nonlinear_arith);
        assert(pow64(i as nat) == spec_base() * p);
        assert(nat_of_words(s) == s[0] + spec_base() * nat_of_words(rest.take(i - 1))
            + spec_base() * (p * hi));
        assert(nat_of_words(s) == nat_of_words(s.take(i)) + (spec_base() * p) * hi);
        assert(nat_of_words(s) == nat_of_words(s.take(i)) + pow64(i as nat) * hi);
        assert(nat_of_words(s.skip(i)) == hi);
    }
    assert(nat_of_words(s) == nat_of_words(s.take(i)) + pow64(i as nat) * nat_of_words(s.skip(i)));
}

/// Appending a word adds it at its place value.
proof fn lemma_nat_of_words_snoc(s: Seq<u64>, x: u64)
    ensures
        nat_of_words(s.push(x)) == nat_of_words(s) + pow64(s.len()) * x,
{
    let t = s.push(x);
    lemma_nat_of_words_split(t, s.len() as int);
    assert(t.take(s.len() as int) =~= s);
    assert(t.skip(s.len() as int) =~= seq![x]);
    assert(nat_of_words(seq![x]) == x + spec_base() * nat_of_words(seq![x].skip(1)));
    assert(seq![x].skip(1) =~= Seq::<u64>::empty());
}

/// Updating a word moves the value by the difference at its place value.
proof fn lemma_nat_of_words_update(s: Seq<u64>, k: int, v: u64)
    requires
        0 <= k < s.len(),
    ensures
        nat_of_words(s.update(k, v)) + pow64(k as nat) * s[k] == nat_of_words(s) + pow64(k as nat)
            * v,
{
    let t = s.update(k, v);
    lemma_nat_of_words_split(s, k);
    lemma_nat_of_words_split(t, k);
    assert(t.take(k) =~= s.take(k));
    let srest = s.skip(k);
    let trest = t.skip(k);
    assert(trest =~= srest.update(0, v));
    assert(trest.skip(1) =~= srest.skip(1));
    assert(nat_of_words(srest) == s[k] + spec_base() * nat_of_words(srest.skip(1)));
    assert(nat_of_words(trest) == v + spec_base() * nat_of_words(srest.skip(1)));
    let p = pow64(k as nat);
    let hi = nat_of_words(srest.skip(1));
    assert(p * (s[k] + spec_base() * hi) == p * s[k] + p * (spec_base() * hi))
        by (nonlinear_arith);
    assert(p * (v + spec_base() * hi) == p * v + p * (spec_base() * hi)) by (nonlinear_arith);
}

/// A value below the place value of `k` has zeros above word `k`.
proof fn lemma_nat_of_words_low(s: Seq<u64>, k: int)
    requires
        0 <= k <= s.len(),
        nat_of_words(s) < pow64(k as nat),
    ensures
        nat_of_words(s.take(k)) == nat_of_words(s),
{
    lemma_nat_of_words_split(s, k);
    lemma_pow64_pos(k as nat);
    let hi = nat_of_words(s.skip(k));
    if hi > 0 {
        assert(pow64(k as nat) * hi >= pow64(k as nat)) by (nonlinear_arith)
            requires
                hi >= 1,
                pow64(k as nat) >= 1,
        ;
        assert(false);
    }
    assert(pow64(k as nat) * hi == 0) by (nonlinear_arith)
        requires
            hi == 0,
    ;
}


/// Add two equal-length word vectors; the boolean is the carry out.
#[verifier::loop_isolation(false)]
fn add_words(a: &Vec<u64>, b: &Vec<u64>) -> (r: (Vec<u64>, bool))
    requires
        a@.len() == b@.len(),
    ensures
        r.0@.len() == a@.len(),
        nat_of_words(r.0@) + (if r.1 {
            pow64(a@.len())
        } else {
            0nat
        }) == nat_of_words(a@) + nat_of_words(b@),
{
    let n = a.len();
    let mut out: Vec<u64> = Vec::new();
    let mut carry: bool = false;
    assert(a@.take(0) =~= Seq::<u64>::empty());
    assert(b@.take(0) =~= Seq::<u64>::empty());
    let mut i: usize = 0;
    while i < n
        invariant
            i <= n,
            out@.len() == i,
            nat_of_words(out@) + (if carry {
                pow64(i as nat)
            } else {
                0nat
            }) == nat_of_words(a@.take(i as int)) + nat_of_words(b@.take(i as int)),
        decreases n - i,
    {
        let sum: u128 = a[i] as u128 + b[i] as u128 + (if carry {
            1u128
        } else {
            0u128
        });
        let lo: u64 = #[verifier::truncate] (sum as u64);
        let c2: bool = sum >= 0x10000000000000000u128;
        proof {
            let ghost cin: nat = if carry {
                1nat
            } else {
                0nat
            };
            if c2 {
                assert(sum as u64 == sum - 0x10000000000000000u128) by (bit_vector)
                    requires
                        0x10000000000000000u128 <= sum < 0x20000000000000000u128,
                ;
            } else {
                assert(sum as u64 == sum) by (bit_vector)
                    requires
                        sum < 0x10000000000000000u128,
                ;
            }
            assert(lo + (if c2 {
                spec_base()
            } else {
                0nat
            }) == a@[i as int] + b@[i as int] + cin);
            lemma_nat_of_words_snoc(out@, lo);
            lemma_nat_of_words_snoc(a@.take(i as int), a@[i as int]);
            lemma_nat_of_words_snoc(b@.take(i as int), b@[i as int]);
            assert(a@.take(i as int).push(a@[i as int]) =~= a@.take(i + 1));
            assert(b@.take(i as int).push(b@[i as int]) =~= b@.take(i + 1));
            let p = pow64(i as nat);
            assert(p * (a@[i as int] + b@[i as int] + cin) == p * a@[i as int] + p * b@[i as int] + p * cin) by (nonlinear_arith);
            assert(p * (lo + (if c2 {
                spec_base()
            } else {
                0nat
            })) == p * lo + p * (if c2 {
                spec_base()
            } else {
                0nat
            })) by (nonlinear_arith);
            assert(p * spec_base() == pow64((i + 1) as nat)) by {
                assert(pow64((i + 1) as nat) == spec_base() * pow64(i as nat));
                assert(spec_base() * p == p * spec_base()) by (nonlinear_arith);
            }
        }
        out.push(lo);
        carry = c2;
        i = i + 1;
    }
    assert(a@.take(n as int) =~= a@);
    assert(b@.take(n as int) =~= b@);
    (out, carry)
}

/// Subtract two equal-length word vectors; the boolean is the borrow out,
/// set exactly when the subtrahend is larger.
#[verifier::loop_isolation(false)]
fn sub_words(a: &Vec<u64>, b: &Vec<u64>) -> (r: (Vec<u64>, bool))
    requires
        a@.len() == b@.len(),
    ensures
        r.0@.len() == a@.len(),
        nat_of_words(r.0@) + nat_of_words(b@) == nat_of_words(a@) + (if r.1 {
            pow64(a@.len())
        } else {
            0nat
        }),
        r.1 <==> nat_of_words(a@) < nat_of_words(b@),
{
    let n = a.len();
    let mut out: Vec<u64> = Vec::new();
    let mut borrow: bool = false;
    assert(a@.take(0) =~= Seq::<u64>::empty());
    assert(b@.take(0) =~= Seq::<u64>::empty());
    let mut i: usize = 0;
    while i < n
        invariant
            i <= n,
            out@.len() == i,
            nat_of_words(out@) + nat_of_words(b@.take(i as int)) == nat_of_words(
                a@.take(i as int),
            ) + (if borrow {
                pow64(i as nat)
            } else {
                0nat
            }),
        decreases n - i,
    {
        let av: u128 = a[i] as u128;
        let rhs: u128 = b[i] as u128 + (if borrow {
            1u128
        } else {
            0u128
        });
        let d: u64;
        let b2: bool;
        if av >= rhs {
            let t: u128 = av - rhs;
            d = #[verifier::truncate] (t as u64);
            b2 = false;
            proof {
                assert(t as u64 == t) by (bit_vector)
                    requires
                        t < 0x10000000000000000u128,
                ;
            }
        } else {
            let t: u128 = av + 0x10000000000000000u128 - rhs;
            d = #[verifier::truncate] (t as u64);
            b2 = true;
            proof {
                assert(t as u64 == t) by (bit_vector)
                    requires
                        t < 0x10000000000000000u128,
                ;
            }
        }
        proof {
            let ghost bin: nat = if borrow {
                1nat
            } else {
                0nat
            };
            assert(d + b@[i as int] + bin == a@[i as int] + (if b2 {
                spec_base()
            } else {
                0nat
            }));
            lemma_nat_of_words_snoc(out@, d);
            lemma_nat_of_words_snoc(a@.take(i as int), a@[i as int]);
            lemma_nat_of_words_snoc(b@.take(i as int), b@[i as int]);
            assert(a@.take(i as int).push(a@[i as int]) =~= a@.take(i + 1));
            assert(b@.take(i as int).push(b@[i as int]) =~= b@.take(i + 1));
            let p = pow64(i as nat);
            assert(p * (d + b@[i as int] + bin) == p * d + p * b@[i as int] + p * bin)
                by (nonlinear_arith);
            assert(p * (a@[i as int] + (if b2 {
                spec_base()
            } else {
                0nat
            })) == p * a@[i as int] + p * (if b2 {
                spec_base()
            } else {
                0nat
            })) by (nonlinear_arith);
            assert(p * spec_base() == pow64((i + 1) as nat)) by {
                assert(pow64((i + 1) as nat) == spec_base() * pow64(i as nat));
                assert(spec_base() * p == p * spec_base()) by (nonlinear_arith);
            }
        }
        out.push(d);
        borrow = b2;
        i = i + 1;
    }
    assert(a@.take(n as int) =~= a@);
    assert(b@.take(n as int) =~= b@);
    proof {
        lemma_nat_of_words_bound(out@);
        lemma_nat_of_words_bound(a@);
        lemma_nat_of_words_bound(b@);
    }
    (out, borrow)
}

/// Shift a word vector left by one bit and feed `low` in at the bottom.
#[verifier::loop_isolation(false)]
fn shl1_set(r: &mut Vec<u64>, low: bool)
    requires
        old(r)@.len() >= 1,
        2 * nat_of_words(old(r)@) + 1 < pow64(old(r)@.len()),
    ensures
        final(r)@.len() == old(r)@.len(),
        nat_of_words(final(r)@) == 2 * nat_of_words(old(r)@) + (if low {
            1nat
        } else {
            0nat
        }),
{
    let n = r.len();
    let ghost lowbit: nat = if low {
        1nat
    } else {
        0nat
    };
    let mut carry: u64 = if low {
        1
    } else {
        0
    };
    let mut i: usize = 0;
    proof {
        assert(r@.take(0) =~= Seq::<u64>::empty());
        assert(old(r)@.take(0) =~= Seq::<u64>::empty());
    }
    while i < n
        invariant
            i <= n,
            r@.len() == n,
            carry <= 1,
            nat_of_words(r@.take(i as int)) + pow64(i as nat) * carry == 2 * nat_of_words(
                old(r)@.take(i as int),
            ) + lowbit,
            forall|j: int| i <= j < n ==> r@[j] == old(r)@[j],
        decreases n - i,
    {
        let w = r[i];
        let nw = (w << 1u64) | carry;
        let c2 = w >> 63u64;
        proof {
            assert(((w << 1u64) | carry) + 0x10000000000000000 * (w >> 63u64) == 2 * w + carry)
                by (bit_vector)
                requires
                    carry <= 1u64,
            ;
            assert(w >> 63u64 <= 1) by (bit_vector);
            lemma_nat_of_words_snoc(r@.take(i as int), nw);
            lemma_nat_of_words_snoc(old(r)@.take(i as int), w);
            assert(old(r)@.take(i as int).push(w) =~= old(r)@.take(i + 1));
            assert(r@.update(i as int, nw).take(i + 1) =~= r@.take(i as int).push(nw));
            let p = pow64(i as nat);
            assert(p * (2 * w + carry) == 2 * (p * w) + p * carry) by (nonlinear_arith);
            assert(p * (nw + 0x10000000000000000 * c2) == p * nw + (p * 0x10000000000000000)
                * c2) by (nonlinear_arith);
            assert(pow64((i + 1) as nat) == p * 0x10000000000000000) by {
                assert(pow64((i + 1) as nat) == spec_base() * p);
                assert(spec_base() * p == p * spec_base()) by (nonlinear_arith);
            }
        }
        r[i] = nw;
        carry = c2;
        i = i + 1;
    }
    proof {
        assert(r@.take(n as int) =~= r@);
        assert(old(r)@.take(n as int) =~= old(r)@);
        if carry >= 1 {
            lemma_pow64_pos(n as nat);
            assert(pow64(n as nat) * carry >= pow64(n as nat)) by (nonlinear_arith)
                requires
                    carry >= 1,
                    pow64(n as nat) >= 1,
            ;
            assert(false);
        }
        assert(pow64(n as nat) * carry == 0) by (nonlinear_arith)
            requires
                carry == 0,
        ;
    }
}

/// Read one bit of the value held in a word vector.
fn get_bit_words(a: &Vec<u64>, i: usize) -> (r: bool)
    requires
        i < 64 * a@.len(),
    ensures
        r == (nat_of_words(a@) / pow2(i as nat) % 2 == 1),
{
    let w = i / 64;
    let j = i % 64;
    let bit = (a[w] >> (j as u64)) & 1 == 1;
    proof {
        lemma_get_bit(a@, i as int);
    }
    bit
}

/// Word-level bit reads agree with the bits of the value.
proof fn lemma_get_bit(s: Seq<u64>, i: int)
    requires
        0 <= i < 64 * s.len(),
    ensures
        ((s[i / 64] >> ((i % 64) as u64)) & 1 == 1) == (nat_of_words(s) / pow2(i as nat) % 2
            == 1),
{
    let w = i / 64;
    let j = i % 64;
    vstd::arithmetic::div_mod::lemma_fundamental_div_mod(i, 64);
    assert(0 <= w < s.len()) by (nonlinear_arith)
        requires
            i == 64 * w + j,
            0 <= j < 64,
            0 <= i < 64 * s.len(),
    ;
    let word = s[w];
    // Split the value at word w: the low part vanishes under division.
    lemma_nat_of_words_split(s, w);
    let lowpart = nat_of_words(s.take(w));
    let rest = nat_of_words(s.skip(w));
    lemma_nat_of_words_bound(s.take(w));
    assert(s.skip(w).skip(1) =~= s.skip(w + 1));
    let hi = nat_of_words(s.skip(w + 1));
    assert(rest == word + spec_base() * hi);

    // nat / pow2(i) == rest / pow2(j).
    lemma_pow64_pow2(w as nat);
    vstd::arithmetic::power2::lemma_pow2_adds((64 * w) as nat, j as nat);
    vstd::arithmetic::power2::lemma_pow2_pos(j as nat);
    vstd::arithmetic::power2::lemma_pow2_pos((64 * w) as nat);
    vstd::arithmetic::power2::lemma_pow2_pos(i as nat);
    let pw = pow2((64 * w) as nat);
    let pj = pow2(j as nat);
    assert(pow2(i as nat) == pw * pj);
    let nv = nat_of_words(s) as int;
    assert(nv == pw * rest + lowpart);
    assert(pw * rest == rest * pw) by (nonlinear_arith);
    vstd::arithmetic::div_mod::lemma_fundamental_div_mod_converse(
        nv,
        pw as int,
        rest as int,
        lowpart as int,
    );
    assert(nv / (pw as int) == rest);
    vstd::arithmetic::div_mod::lemma_div_denominator(nv, pw as int, pj as int);
    assert(nv / (pow2(i as nat) as int) == (rest as int) / (pj as int));

    // rest / pow2(j) == word / pow2(j) + 2^(64 - j) * hi.
    vstd::arithmetic::power2::lemma_pow2_adds(j as nat, (64 - j) as nat);
    assert(pow2(64) == 0x10000000000000000) by {
        vstd::arithmetic::power2::lemma2_to64();
    }
    let pk = pow2((64 - j) as nat);
    vstd::arithmetic::power2::lemma_pow2_pos((64 - j) as nat);
    vstd::arithmetic::div_mod::lemma_fundamental_div_mod(word as int, pj as int);
    let wq = (word as int) / (pj as int);
    let wr = (word as int) % (pj as int);
    assert(rest == pj * wq + wr + (pj * pk) * hi);
    assert((pj * pk) * hi == pj * (pk * hi)) by (nonlinear_arith);
    assert(pj * wq + pj * (pk * hi) == pj * (wq + pk * hi)) by (nonlinear_arith);
    assert((pj as int) * (wq + pk * hi) == (wq + pk * hi) * (pj as int)) by (nonlinear_arith);
    vstd::arithmetic::div_mod::lemma_fundamental_div_mod_converse(
        rest as int,
        pj as int,
        wq + pk * hi,
        wr,
    );
    assert((rest as int) / (pj as int) == wq + pk * hi);

    // Modulo two, the high part vanishes because 64 - j >= 1.
    assert(pk % 2 == 0) by {
        vstd::arithmetic::power2::lemma_pow2_adds(1, (64 - j - 1) as nat);
        assert(pow2(1) == 2) by {
            vstd::arithmetic::power2::lemma2_to64();
        }
        vstd::arithmetic::div_mod::lemma_mod_multiples_basic(
            pow2((64 - j - 1) as nat) as int,
            2,
        );
        assert(pk == 2 * pow2((64 - j - 1) as nat));
        assert(pow2((64 - j - 1) as nat) * 2 == 2 * pow2((64 - j - 1) as nat))
            by (nonlinear_arith);
    }
    assert((wq + pk * hi) % 2 == wq % 2) by {
        let half = (pk as int) / 2;
        assert(pk * hi == 2 * (half * hi)) by (nonlinear_arith)
            requires
                pk % 2 == 0,
                half == (pk as int) / 2,
                pk >= 0,
        ;
        vstd::arithmetic::div_mod::lemma_mod_multiples_vanish(half * hi, wq, 2);
    }

    // The word-level read is the same bit.
    let ju: u64 = j as u64;
    vstd::bits::lemma_u64_shr_is_div(word, ju);
    assert((word >> ju) & 1 == (word >> ju) % 2) by (bit_vector);
    assert(word as nat / pj == wq);
    vstd::arithmetic::div_mod::lemma_mod_bound(wq, 2);
}


/// Place values multiply when exponents add.
proof fn lemma_pow64_add(a: nat, b: nat)
    ensures
        pow64(a + b) == pow64(a) * pow64(b),
    decreases a,
{
    if a == 0 {
        lemma_pow64_pos(b);
        assert(pow64(0) * pow64(b) == pow64(b)) by (nonlinear_arith)
            requires
                pow64(0) == 1nat,
        ;
    } else {
        lemma_pow64_add((a - 1) as nat, b);
        assert(spec_base() * (pow64((a - 1) as nat) * pow64(b)) == (spec_base() * pow64(
            (a - 1) as nat,
        )) * pow64(b)) by (nonlinear_arith);
    }
}

/// Word place values past the first are even.
proof fn lemma_pow64_even(k: nat)
    requires
        k >= 1,
    ensures
        pow64(k) % 2 == 0,
{
    let p = pow64((k - 1) as nat);
    assert(pow64(k) == spec_base() * p);
    assert(spec_base() * p == 2 * (0x8000000000000000nat * p)) by (nonlinear_arith)
        requires
            spec_base() == 0x10000000000000000nat,
    ;
    vstd::arithmetic::div_mod::lemma_mod_multiples_basic((0x8000000000000000nat * p) as int, 2);
    assert((0x8000000000000000nat * p) * 2 == 2 * (0x8000000000000000nat * p))
        by (nonlinear_arith);
}

/// A word vector with value zero is all zero words.
proof fn lemma_nat_zero_words(s: Seq<u64>)
    requires
        nat_of_words(s) == 0,
    ensures
        forall|k: int| 0 <= k < s.len() ==> s[k] == 0,
    decreases s.len(),
{
    if s.len() > 0 {
        assert(nat_of_words(s) == (s[0] + spec_base() * nat_of_words(s.skip(1))) as nat);
        assert(s[0] == 0);
        assert(nat_of_words(s.skip(1)) == 0);
        lemma_nat_zero_words(s.skip(1));
        assert forall|k: int| 0 <= k < s.len() implies s[k] == 0 by {
            if k > 0 {
                assert(s.skip(1)[k - 1] == 0);
            }
        }
    }
}

/// A vector of `n` zero words.
#[verifier::loop_isolation(false)]
fn zero_words(n: usize) -> (r: Vec<u64>)
    ensures
        r@.len() == n,
        nat_of_words(r@) == 0,
        forall|k: int| 0 <= k < n ==> r@[k] == 0,
{
    let mut out: Vec<u64> = Vec::new();
    let mut i: usize = 0;
    while i < n
        invariant
            i <= n,
            out@.len() == i,
            nat_of_words(out@) == 0,
            forall|k: int| 0 <= k < i ==> out@[k] == 0,
        decreases n - i,
    {
        proof {
            lemma_nat_of_words_snoc(out@, 0);
            assert(pow64(i as nat) * 0 == 0) by (nonlinear_arith);
        }
        out.push(0);
        i = i + 1;
    }
    out
}


/// Whether one word vector's value is at least another's, comparing words
/// most significant first.
#[verifier::loop_isolation(false)]
fn ge_words(a: &Vec<u64>, b: &Vec<u64>) -> (r: bool)
    requires
        a@.len() == b@.len(),
    ensures
        r == (nat_of_words(a@) >= nat_of_words(b@)),
{
    let n = a.len();
    let mut k: usize = n;
    while k > 0
        invariant
            k <= n,
            forall|j: int| k <= j < n ==> a@[j] == b@[j],
        decreases k,
    {
        k = k - 1;
        if a[k] < b[k] {
            proof {
                lemma_words_lt(a@, b@, k as int);
            }
            return false;
        }
        if a[k] > b[k] {
            proof {
                lemma_words_lt(b@, a@, k as int);
            }
            return true;
        }
    }
    proof {
        assert(a@ =~= b@);
    }
    true
}

/// Long division in base 2: the same algorithm as division on paper, one bit
/// of the dividend at a time, subtracting the divisor from the running
/// remainder whenever it fits.
#[verifier::loop_isolation(false)]
fn div_words(n: &Vec<u64>, d: &Vec<u64>) -> (r: (Vec<u64>, Vec<u64>))
    requires
        n@.len() == d@.len(),
        1 <= n@.len() < 1000,
        nat_of_words(d@) > 0,
    ensures
        r.0@.len() == n@.len(),
        r.1@.len() == n@.len(),
        nat_of_words(n@) == nat_of_words(r.0@) * nat_of_words(d@) + nat_of_words(r.1@),
        nat_of_words(r.1@) < nat_of_words(d@),
{
    let len = n.len();
    let ghost nv = nat_of_words(n@) as int;
    let ghost dv = nat_of_words(d@) as int;
    let mut i: usize = 64 * len;
    proof {
        lemma_nat_of_words_bound(n@);
        lemma_pow64_pow2(len as nat);
        vstd::arithmetic::power2::lemma_pow2_pos((64 * len) as nat);
        vstd::arithmetic::div_mod::lemma_basic_div(nv, pow2((64 * len) as nat) as int);
        assert(nv / (pow2((64 * len) as nat) as int) == 0);
    }
    // Skip the leading zero bits of the dividend: they contribute nothing
    // to the quotient or the remainder.
    while i > 0
        invariant
            i <= 64 * len,
            nv / (pow2(i as nat) as int) == 0,
        decreases i,
    {
        if get_bit_words(n, i - 1) {
            break;
        }
        proof {
            let t1 = nv / (pow2(i as nat) as int);
            vstd::arithmetic::power2::lemma_pow2_adds((i - 1) as nat, 1);
            assert(pow2(1) == 2) by {
                vstd::arithmetic::power2::lemma2_to64();
            }
            vstd::arithmetic::power2::lemma_pow2_pos((i - 1) as nat);
            vstd::arithmetic::div_mod::lemma_div_denominator(nv, pow2((i - 1) as nat) as int, 2);
            let t0 = nv / (pow2((i - 1) as nat) as int);
            vstd::arithmetic::div_mod::lemma_fundamental_div_mod(t0, 2);
            vstd::arithmetic::div_mod::lemma_mod_bound(t0, 2);
            assert(t0 == 2 * t1 + (if nv / (pow2((i - 1) as nat) as int) % 2 == 1 {
                1int
            } else {
                0int
            }));
        }
        i = i - 1;
    }
    let mut q = zero_words(len);
    let mut rem = zero_words(len);
    while i > 0
        invariant
            i <= 64 * len,
            q@.len() == len,
            rem@.len() == len,
            nat_of_words(q@) * nat_of_words(d@) + nat_of_words(rem@) == nv / (pow2(i as nat)
                as int),
            nat_of_words(rem@) < nat_of_words(d@),
        decreases i,
    {
        i = i - 1;
        let bit = get_bit_words(n, i);
        let ghost t1 = nv / (pow2((i + 1) as nat) as int);
        let ghost t0 = nv / (pow2(i as nat) as int);
        let ghost bitv: int = if bit {
            1
        } else {
            0
        };
        let ghost qv = nat_of_words(q@) as int;
        let ghost rv = nat_of_words(rem@) as int;
        proof {
            // One more dividend bit: t0 == 2 * t1 + bitv.
            vstd::arithmetic::power2::lemma_pow2_adds(i as nat, 1);
            assert(pow2(1) == 2) by {
                vstd::arithmetic::power2::lemma2_to64();
            }
            vstd::arithmetic::power2::lemma_pow2_pos(i as nat);
            vstd::arithmetic::div_mod::lemma_div_denominator(nv, pow2(i as nat) as int, 2);
            assert(t1 == t0 / 2);
            vstd::arithmetic::div_mod::lemma_fundamental_div_mod(t0, 2);
            vstd::arithmetic::div_mod::lemma_mod_bound(t0, 2);
            assert(t0 == 2 * t1 + bitv);

            // The shifted remainder and quotient still fit.
            vstd::arithmetic::div_mod::lemma_div_is_ordered_by_denominator(
                nv,
                1,
                pow2(i as nat) as int,
            );
            assert(nv / 1 == nv) by {
                vstd::arithmetic::div_mod::lemma_div_basics(nv);
            }
            assert(t0 <= nv);
            assert(rv <= t1 && qv <= t1) by (nonlinear_arith)
                requires
                    qv * dv + rv == t1,
                    dv >= 1,
                    qv >= 0,
                    rv >= 0,
            ;
            lemma_pow64_even(len as nat);
            assert(2 * rv + 1 <= nv + 1);
            assert(nat_of_words(n@) < pow64(len as nat));
            assert((2 * rv + 1) % 2 == 1) by {
                vstd::arithmetic::div_mod::lemma_mod_multiples_vanish(rv, 1, 2);
                vstd::arithmetic::div_mod::lemma_small_mod(1, 2);
            }
            assert(2 * rv + 1 < pow64(len as nat));
            assert((2 * qv + 1) % 2 == 1) by {
                vstd::arithmetic::div_mod::lemma_mod_multiples_vanish(qv, 1, 2);
                vstd::arithmetic::div_mod::lemma_small_mod(1, 2);
            }
            assert(2 * qv + 1 < pow64(len as nat));
        }
        shl1_set(&mut rem, bit);
        let ge = ge_words(&rem, d);
        if ge {
            let (diff, borrow) = sub_words(&rem, d);
            rem = diff;
        }
        shl1_set(&mut q, ge);
        proof {
            let qv2 = nat_of_words(q@) as int;
            let rv2 = nat_of_words(rem@) as int;
            if ge {
                assert(qv2 == 2 * qv + 1);
                assert(rv2 == 2 * rv + bitv - dv);
                assert(qv2 * dv == 2 * (qv * dv) + dv) by (nonlinear_arith)
                    requires
                        qv2 == 2 * qv + 1,
                ;
            } else {
                assert(qv2 == 2 * qv);
                assert(rv2 == 2 * rv + bitv);
                assert(qv2 * dv == 2 * (qv * dv)) by (nonlinear_arith)
                    requires
                        qv2 == 2 * qv,
                ;
            }
            assert(qv2 * dv + rv2 == t0);
        }
    }
    proof {
        assert(pow2(0) == 1) by {
            vstd::arithmetic::power2::lemma2_to64();
        }
        assert(nv / 1 == nv) by {
            vstd::arithmetic::div_mod::lemma_div_basics(nv);
        }
    }
    (q, rem)
}

/// Schoolbook multiplication into a double-length intermediate, exactly as
/// multiplication is done on paper, except the digits run to `u64::MAX`.
#[verifier::loop_isolation(false)]
#[verifier::rlimit(100)]
fn mul_words(a: &Vec<u64>, b: &Vec<u64>) -> (r: Vec<u64>)
    requires
        a@.len() == b@.len(),
        1 <= a@.len() < 1000,
    ensures
        r@.len() == 2 * a@.len(),
        nat_of_words(r@) == nat_of_words(a@) * nat_of_words(b@),
{
    let n = a.len();
    let mut prod = zero_words(2 * n);
    let ghost bv = nat_of_words(b@);
    proof {
        assert(a@.take(0) =~= Seq::<u64>::empty());
        assert(nat_of_words(a@.take(0)) * bv == 0) by (nonlinear_arith)
            requires
                nat_of_words(a@.take(0)) == 0,
        ;
        lemma_nat_of_words_bound(b@);
    }
    let mut i: usize = 0;
    while i < n
        invariant
            i <= n,
            prod@.len() == 2 * n,
            nat_of_words(prod@) == nat_of_words(a@.take(i as int)) * bv,
            forall|k: int| i + n <= k < 2 * n ==> prod@[k] == 0,
        decreases n - i,
    {
        let ghost p0 = nat_of_words(prod@);
        let ghost ai = a@[i as int] as nat;
        proof {
            assert(b@.take(0) =~= Seq::<u64>::empty());
            assert((ai * nat_of_words(b@.take(0))) * pow64(i as nat) == 0) by (nonlinear_arith)
                requires
                    nat_of_words(b@.take(0)) == 0,
            ;
        }
        let mut carry: u64 = 0;
        let mut j: usize = 0;
        while j < n
            invariant
                j <= n,
                prod@.len() == 2 * n,
                nat_of_words(prod@) + carry * pow64((i + j) as nat) == p0 + (ai * nat_of_words(
                    b@.take(j as int),
                )) * pow64(i as nat),
                forall|k: int| i + n <= k < 2 * n ==> prod@[k] == 0,
            decreases n - j,
        {
            proof {
                assert((a@[i as int] as u128) * (b@[j as int] as u128)
                    <= 0xfffffffffffffffe0000000000000001u128) by (nonlinear_arith)
                    requires
                        a@[i as int] <= 0xffffffffffffffffu64,
                        b@[j as int] <= 0xffffffffffffffffu64,
                ;
            }
            let m: u128 = prod[i + j] as u128 + (a[i] as u128) * (b[j] as u128) + carry as u128;
            let lo: u64 = #[verifier::truncate] (m as u64);
            let c2: u64 = #[verifier::truncate] ((m >> 64u128) as u64);
            proof {
                assert(m == (((m >> 64u128) as u64) as u128) * 0x10000000000000000u128 + ((m
                    as u64) as u128)) by (bit_vector);
                let old_word = prod@[i + j] as nat;
                lemma_nat_of_words_update(prod@, i + j, lo);
                let pij = pow64((i + j) as nat);
                let pij1 = pow64((i + j + 1) as nat);
                assert(pij1 == spec_base() * pij);
                // The balance of this digit step.
                assert(lo + spec_base() * c2 == old_word + ai * (b@[j as int] as nat)
                    + carry) by (nonlinear_arith)
                    requires
                        m == (c2 as u128) * 0x10000000000000000u128 + (lo as u128),
                        m == old_word + ai * (b@[j as int] as nat) + carry,
                        spec_base() == 0x10000000000000000nat,
                ;
                lemma_nat_of_words_snoc(b@.take(j as int), b@[j as int]);
                assert(b@.take(j as int).push(b@[j as int]) =~= b@.take(j + 1));
                // Multiply the balance through by the place value.
                assert(pij * lo + (spec_base() * pij) * c2 == pij * old_word + (ai * (b@[j as int] as nat)) * pij + pij * carry) by (nonlinear_arith)
                    requires
                        lo + spec_base() * c2 == old_word + ai * (b@[j as int] as nat) + carry,
                        pij >= 0,
                ;
                lemma_pow64_add(i as nat, j as nat);
                assert((ai * (nat_of_words(b@.take(j as int)) + pow64(j as nat) * (b@[j as int]
                    as nat))) * pow64(i as nat) == (ai * nat_of_words(b@.take(j as int))) * pow64(
                    i as nat,
                ) + (ai * (b@[j as int] as nat)) * (pow64(i as nat) * pow64(j as nat)))
                    by (nonlinear_arith);
                assert((ai * (b@[j as int] as nat)) * (pow64(i as nat) * pow64(j as nat)) == (ai
                    * (b@[j as int] as nat)) * pij) by {
                    assert(pij == pow64(i as nat) * pow64(j as nat));
                }
                assert(pij * carry == carry * pij) by (nonlinear_arith);
                assert((spec_base() * pij) * c2 == c2 * pij1) by (nonlinear_arith)
                    requires
                        pij1 == spec_base() * pij,
                ;
            }
            prod[i + j] = lo;
            carry = c2;
            proof {
                assert(nat_of_words(prod@) + carry * pow64((i + j + 1) as nat) == p0 + (ai
                    * nat_of_words(b@.take(j + 1))) * pow64(i as nat));
            }
            j = j + 1;
        }
        // Store the final carry one digit above.
        proof {
            assert(prod@[i + n] == 0);
            lemma_nat_of_words_update(prod@, i + n, carry);
            assert(pow64((i + n) as nat) * 0 == 0) by (nonlinear_arith);
            assert(pow64((i + n) as nat) * carry == carry * pow64((i + n) as nat))
                by (nonlinear_arith);
            assert(b@.take(n as int) =~= b@);
        }
        prod[i + n] = carry;
        proof {
            assert(nat_of_words(prod@) == p0 + (ai * bv) * pow64(i as nat));
            lemma_nat_of_words_snoc(a@.take(i as int), a@[i as int]);
            assert(a@.take(i as int).push(a@[i as int]) =~= a@.take(i + 1));
            assert((nat_of_words(a@.take(i as int)) + pow64(i as nat) * ai) * bv == nat_of_words(
                a@.take(i as int),
            ) * bv + (ai * bv) * pow64(i as nat)) by (nonlinear_arith);
        }
        i = i + 1;
    }
    proof {
        assert(a@.take(n as int) =~= a@);
    }
    prod
}

/// Reduce a word vector modulo another via the division primitive.
fn reduce_words(n: &Vec<u64>, p: &Vec<u64>) -> (r: Vec<u64>)
    requires
        p@.len() <= n@.len() < 1000,
        p@.len() >= 1,
        nat_of_words(p@) > 0,
    ensures
        r@.len() == p@.len(),
        nat_of_words(r@) == nat_of_words(n@) as int % nat_of_words(p@) as int,
{
    let plen = p.len();
    let mut pd = vstd::slice::slice_to_vec(p.as_slice());
    while pd.len() < n.len()
        invariant
            p@.len() <= pd@.len() <= n@.len(),
            nat_of_words(pd@) == nat_of_words(p@),
        decreases n@.len() - pd@.len(),
    {
        proof {
            lemma_nat_of_words_snoc(pd@, 0);
            assert(pow64(pd@.len()) * 0 == 0) by (nonlinear_arith);
        }
        pd.push(0);
    }
    let (q, mut rem) = div_words(n, &pd);
    proof {
        lemma_nat_of_words_bound(p@);
        lemma_nat_of_words_low(rem@, plen as int);
        let qv = nat_of_words(q@) as int;
        let pv = nat_of_words(p@) as int;
        let rv = nat_of_words(rem@) as int;
        assert(qv * pv == pv * qv) by (nonlinear_arith);
        vstd::arithmetic::div_mod::lemma_fundamental_div_mod_converse(
            nat_of_words(n@) as int,
            pv,
            qv,
            rv,
        );
    }
    let ghost whole = rem@;
    rem.truncate(plen);
    proof {
        assert(rem@ =~= whole.take(plen as int));
    }
    rem
}


/// The value of four little-endian words, written out.
pub proof fn lemma_nat_of_4(s: Seq<u64>)
    requires
        s.len() == 4,
    ensures
        nat_of_words(s) == s[0] + 0x10000000000000000 * (s[1] + 0x10000000000000000 * (s[2]
            + 0x10000000000000000 * s[3])),
{
    assert(s.skip(1).skip(1) =~= s.skip(2));
    assert(s.skip(2).skip(1) =~= s.skip(3));
    assert(s.skip(3).skip(1) =~= s.skip(4));
    assert(s.skip(4) =~= Seq::<u64>::empty());
    assert(s.skip(1)[0] == s[1] && s.skip(2)[0] == s[2] && s.skip(3)[0] == s[3]);
    assert(nat_of_words(s.skip(4)) == 0);
    assert(nat_of_words(s.skip(3)) == s[3] + spec_base() * nat_of_words(s.skip(4)));
    assert(nat_of_words(s.skip(2)) == s[2] + spec_base() * nat_of_words(s.skip(3)));
    assert(nat_of_words(s.skip(1)) == s[1] + spec_base() * nat_of_words(s.skip(2)));
    assert(nat_of_words(s) == s[0] + spec_base() * nat_of_words(s.skip(1)));
}

/// Word vectors of equal value are equal word for word.
proof fn lemma_nat_of_words_injective(s: Seq<u64>, t: Seq<u64>)
    requires
        s.len() == t.len(),
        nat_of_words(s) == nat_of_words(t),
    ensures
        s =~= t,
    decreases s.len(),
{
    if s.len() > 0 {
        let hs = nat_of_words(s.skip(1));
        let ht = nat_of_words(t.skip(1));
        assert(s[0] + spec_base() * hs == t[0] + spec_base() * ht);
        assert(s[0] == (s[0] + spec_base() * hs) % spec_base() as int) by {
            vstd::arithmetic::div_mod::lemma_mod_multiples_vanish(
                hs as int,
                s[0] as int,
                spec_base() as int,
            );
            vstd::arithmetic::div_mod::lemma_small_mod(s[0] as nat, spec_base());
            assert(spec_base() * hs == hs * spec_base()) by (nonlinear_arith);
        }
        assert(t[0] == (t[0] + spec_base() * ht) % spec_base() as int) by {
            vstd::arithmetic::div_mod::lemma_mod_multiples_vanish(
                ht as int,
                t[0] as int,
                spec_base() as int,
            );
            vstd::arithmetic::div_mod::lemma_small_mod(t[0] as nat, spec_base());
            assert(spec_base() * ht == ht * spec_base()) by (nonlinear_arith);
        }
        assert(s[0] == t[0]);
        assert(hs == ht);
        lemma_nat_of_words_injective(s.skip(1), t.skip(1));
        assert forall|k: int| 0 <= k < s.len() implies s[k] == t[k] by {
            if k > 0 {
                assert(s.skip(1)[k - 1] == t.skip(1)[k - 1]);
            }
        }
    }
}

/// If the words agree above `k` but differ at `k`, the smaller word decides.
proof fn lemma_words_lt(s: Seq<u64>, t: Seq<u64>, k: int)
    requires
        s.len() == t.len(),
        0 <= k < s.len(),
        forall|j: int| k < j < s.len() ==> s[j] == t[j],
        s[k] < t[k],
    ensures
        nat_of_words(s) < nat_of_words(t),
{
    lemma_nat_of_words_split(s, k);
    lemma_nat_of_words_split(t, k);
    assert(s.skip(k).skip(1) =~= s.skip(k + 1));
    assert(t.skip(k).skip(1) =~= t.skip(k + 1));
    assert(s.skip(k + 1) =~= t.skip(k + 1));
    let hi = nat_of_words(s.skip(k + 1));
    let p = pow64(k as nat);
    lemma_nat_of_words_bound(s.take(k));
    lemma_nat_of_words_bound(t.take(k));
    lemma_pow64_pos(k as nat);
    assert(nat_of_words(s) == nat_of_words(s.take(k)) + p * (s[k] + spec_base() * hi));
    assert(nat_of_words(t) == nat_of_words(t.take(k)) + p * (t[k] + spec_base() * hi));
    assert(nat_of_words(s.take(k)) + p * (s[k] + spec_base() * hi) < p * (t[k] + spec_base()
        * hi)) by (nonlinear_arith)
        requires
            nat_of_words(s.take(k)) < p,
            s[k] < t[k],
            p >= 1,
            hi >= 0,
    ;
}

/// Number used for modular arithmetic. Internally stored in little-endian
/// (least-significant word first) format.
#[derive(Debug, Clone, Copy)]
pub struct Num(pub [u64; 4]);

impl View for Num {
    type V = nat;

    open spec fn view(&self) -> nat {
        nat_of_words(self.0@)
    }
}

impl PartialEq for Num {
    fn eq(&self, other: &Self) -> (r: bool) {
        let r = self.0[0] == other.0[0] && self.0[1] == other.0[1] && self.0[2] == other.0[2]
            && self.0[3] == other.0[3];
        proof {
            if r {
                assert(self.0@ =~= other.0@);
            } else {
                if self@ == other@ {
                    lemma_nat_of_words_injective(self.0@, other.0@);
                    assert(false);
                }
            }
        }
        r
    }
}

impl Eq for Num {

}

impl vstd::std_specs::cmp::PartialEqSpecImpl for Num {
    open spec fn obeys_eq_spec() -> bool {
        true
    }

    open spec fn eq_spec(&self, other: &Num) -> bool {
        self@ == other@
    }
}

impl PartialOrd for Num {
    #[verifier::loop_isolation(false)]
    fn partial_cmp(&self, other: &Self) -> (r: Option<core::cmp::Ordering>) {
        // Compare the words in most-significant-first order.
        let mut k: usize = 4;
        while k > 0
            invariant
                k <= 4,
                forall|j: int| k <= j < 4 ==> self.0@[j] == other.0@[j],
            decreases k,
        {
            k = k - 1;
            if self.0[k] < other.0[k] {
                proof {
                    lemma_words_lt(self.0@, other.0@, k as int);
                }
                return Some(core::cmp::Ordering::Less);
            }
            if self.0[k] > other.0[k] {
                proof {
                    lemma_words_lt(other.0@, self.0@, k as int);
                }
                return Some(core::cmp::Ordering::Greater);
            }
        }
        proof {
            assert(self.0@ =~= other.0@);
        }
        Some(core::cmp::Ordering::Equal)
    }
}

impl vstd::std_specs::cmp::PartialOrdSpecImpl for Num {
    open spec fn obeys_partial_cmp_spec() -> bool {
        true
    }

    open spec fn partial_cmp_spec(&self, other: &Num) -> Option<core::cmp::Ordering> {
        if self@ < other@ {
            Some(core::cmp::Ordering::Less)
        } else if self@ == other@ {
            Some(core::cmp::Ordering::Equal)
        } else {
            Some(core::cmp::Ordering::Greater)
        }
    }
}

/// The little-endian value of a byte sequence.
pub open spec fn nat_of_le_bytes(s: Seq<u8>) -> nat
    decreases s.len(),
{
    if s.len() == 0 {
        0
    } else {
        (s[0] + 256 * nat_of_le_bytes(s.skip(1))) as nat
    }
}

/// Eight little-endian bytes are one little-endian word.
proof fn lemma_le_bytes_chunk(s: Seq<u8>)
    requires
        s.len() >= 8,
    ensures
        nat_of_le_bytes(s) == s[0] + 0x100 * s[1] + 0x10000 * s[2] + 0x1000000 * s[3]
            + 0x100000000 * s[4] + 0x10000000000 * s[5] + 0x1000000000000 * s[6]
            + 0x100000000000000 * s[7] + spec_base() * nat_of_le_bytes(s.skip(8)),
{
    assert(s.skip(1).skip(1) =~= s.skip(2));
    assert(s.skip(2).skip(1) =~= s.skip(3));
    assert(s.skip(3).skip(1) =~= s.skip(4));
    assert(s.skip(4).skip(1) =~= s.skip(5));
    assert(s.skip(5).skip(1) =~= s.skip(6));
    assert(s.skip(6).skip(1) =~= s.skip(7));
    assert(s.skip(7).skip(1) =~= s.skip(8));
    assert(s.skip(1)[0] == s[1] && s.skip(2)[0] == s[2] && s.skip(3)[0] == s[3] && s.skip(4)[0]
        == s[4] && s.skip(5)[0] == s[5] && s.skip(6)[0] == s[6] && s.skip(7)[0] == s[7]);
    assert(nat_of_le_bytes(s.skip(7)) == (s[7] + 256 * nat_of_le_bytes(s.skip(8))) as nat);
    assert(nat_of_le_bytes(s.skip(6)) == (s[6] + 256 * nat_of_le_bytes(s.skip(7))) as nat);
    assert(nat_of_le_bytes(s.skip(5)) == (s[5] + 256 * nat_of_le_bytes(s.skip(6))) as nat);
    assert(nat_of_le_bytes(s.skip(4)) == (s[4] + 256 * nat_of_le_bytes(s.skip(5))) as nat);
    assert(nat_of_le_bytes(s.skip(3)) == (s[3] + 256 * nat_of_le_bytes(s.skip(4))) as nat);
    assert(nat_of_le_bytes(s.skip(2)) == (s[2] + 256 * nat_of_le_bytes(s.skip(3))) as nat);
    assert(nat_of_le_bytes(s.skip(1)) == (s[1] + 256 * nat_of_le_bytes(s.skip(2))) as nat);
    assert(nat_of_le_bytes(s) == (s[0] + 256 * nat_of_le_bytes(s.skip(1))) as nat);
}

impl Num {
    /// The zero value.
    pub fn zero() -> (r: Num)
        ensures
            r@ == 0,
    {
        let r = Num([0, 0, 0, 0]);
        proof {
            lemma_nat_of_4(r.0@);
        }
        r
    }

    /// The value one.
    pub fn one() -> (r: Num)
        ensures
            r@ == 1,
    {
        let r = Num([1, 0, 0, 0]);
        proof {
            lemma_nat_of_4(r.0@);
        }
        r
    }

    /// The value two.
    pub fn two() -> (r: Num)
        ensures
            r@ == 2,
    {
        let r = Num([2, 0, 0, 0]);
        proof {
            lemma_nat_of_4(r.0@);
        }
        r
    }

    /// The value three.
    pub fn three() -> (r: Num)
        ensures
            r@ == 3,
    {
        let r = Num([3, 0, 0, 0]);
        proof {
            lemma_nat_of_4(r.0@);
        }
        r
    }

    /// The value seven.
    pub fn seven() -> (r: Num)
        ensures
            r@ == 7,
    {
        let r = Num([7, 0, 0, 0]);
        proof {
            lemma_nat_of_4(r.0@);
        }
        r
    }

    /// Whether this is the zero value.
    pub fn is_zero(&self) -> (r: bool)
        ensures
            r == (self@ == 0),
    {
        let r = self.0[0] == 0 && self.0[1] == 0 && self.0[2] == 0 && self.0[3] == 0;
        proof {
            lemma_nat_of_4(self.0@);
        }
        r
    }

    /// Build a number from four little-endian words.
    pub fn from_le_words(n: [u64; 4]) -> (r: Num)
        ensures
            r.0 == n,
            r@ == nat_of_words(n@),
    {
        Num(n)
    }

    /// The words of this number as a vector.
    fn word_vec(&self) -> (r: Vec<u64>)
        ensures
            r@ == self.0@,
    {
        let mut v: Vec<u64> = Vec::new();
        v.push(self.0[0]);
        v.push(self.0[1]);
        v.push(self.0[2]);
        v.push(self.0[3]);
        assert(v@ =~= self.0@);
        v
    }

    /// Build a number back from a four-word vector.
    fn from_word_vec(v: &Vec<u64>) -> (r: Num)
        requires
            v@.len() == 4,
        ensures
            r.0@ == v@,
            r@ == nat_of_words(v@),
    {
        let r = Num([v[0], v[1], v[2], v[3]]);
        proof {
            assert(r.0@ =~= v@);
        }
        r
    }
}



/// Subtraction of residues: wrap around by one modulus when it would go
/// negative.
pub open spec fn spec_sub_mod(a: nat, b: nat, p: nat) -> nat {
    if a >= b {
        (a - b) as nat
    } else {
        (a + p - b) as nat
    }
}

/// The state machine of the extended Euclidean algorithm: `u` and `v` carry
/// the gcd computation, while `x1` and `x2` track the Bezout coefficient of
/// the inverted value modulo `p`.
pub open spec fn spec_inv_loop(u: nat, v: nat, x1: nat, x2: nat, p: nat) -> nat
    decreases u,
{
    if u == 0 {
        x2
    } else {
        spec_inv_loop(v % u, u, spec_sub_mod(x2, (v / u * x1) % p, p), x1, p)
    }
}

/// The multiplicative inverse the extended Euclidean algorithm computes for
/// `a` modulo `p`.
pub open spec fn spec_num_inv(a: nat, p: nat) -> nat {
    spec_inv_loop(a % p, p, 1, 0, p)
}

impl Num {
    /// Build a number from its 32-byte little-endian encoding.
    #[verifier::loop_isolation(false)]
    pub fn from_le_bytes(b: &[u8]) -> (r: Num)
        requires
            b@.len() == 32,
        ensures
            r@ == nat_of_le_bytes(b@),
    {
        let mut words: Vec<u64> = Vec::new();
        let ghost bs = b@;
        proof {
            assert(bs.skip(0) =~= bs);
            assert(pow64(0) * nat_of_le_bytes(bs) == nat_of_le_bytes(bs)) by (nonlinear_arith)
                requires
                    pow64(0) == 1nat,
            ;
        }
        let mut w: usize = 0;
        while w < 4
            invariant
                w <= 4,
                words@.len() == w,
                nat_of_words(words@) + pow64(w as nat) * nat_of_le_bytes(bs.skip(8 * w))
                    == nat_of_le_bytes(bs),
            decreases 4 - w,
        {
            let base = 8 * w;
            let x: u64 = (b[base] as u64) | ((b[base + 1] as u64) << 8u64) | ((b[base + 2] as u64)
                << 16u64) | ((b[base + 3] as u64) << 24u64) | ((b[base + 4] as u64) << 32u64) | ((
            b[base + 5] as u64) << 40u64) | ((b[base + 6] as u64) << 48u64) | ((b[base + 7]
                as u64) << 56u64);
            proof {
                let rest = bs.skip(8 * w);
                lemma_le_bytes_chunk(rest);
                assert(rest[0] == bs[8 * w] && rest[1] == bs[8 * w + 1] && rest[2] == bs[8 * w + 2]
                    && rest[3] == bs[8 * w + 3] && rest[4] == bs[8 * w + 4] && rest[5] == bs[8 * w
                    + 5] && rest[6] == bs[8 * w + 6] && rest[7] == bs[8 * w + 7]);
                assert(rest.skip(8) =~= bs.skip(8 * (w + 1)));
                let b0 = bs[8 * w];
                let b1 = bs[8 * w + 1];
                let b2 = bs[8 * w + 2];
                let b3 = bs[8 * w + 3];
                let b4 = bs[8 * w + 4];
                let b5 = bs[8 * w + 5];
                let b6 = bs[8 * w + 6];
                let b7 = bs[8 * w + 7];
                assert(((b0 as u64) | ((b1 as u64) << 8u64) | ((b2 as u64) << 16u64) | ((b3
                    as u64) << 24u64) | ((b4 as u64) << 32u64) | ((b5 as u64) << 40u64) | ((b6
                    as u64) << 48u64) | ((b7 as u64) << 56u64)) == b0 + 0x100 * b1 + 0x10000 * b2
                    + 0x1000000 * b3 + 0x100000000 * b4 + 0x10000000000 * b5 + 0x1000000000000
                    * b6 + 0x100000000000000 * b7) by (bit_vector);
                lemma_nat_of_words_snoc(words@, x);
                let ww = nat_of_words(words@);
                let pw = pow64(w as nat);
                let tail = nat_of_le_bytes(bs.skip(8 * (w + 1)));
                assert(pw * (x + spec_base() * tail) == pw * x + (pw * spec_base()) * tail)
                    by (nonlinear_arith);
                assert(pow64((w + 1) as nat) == pw * spec_base()) by {
                    assert(pow64((w + 1) as nat) == spec_base() * pw);
                    assert(spec_base() * pw == pw * spec_base()) by (nonlinear_arith);
                }
            }
            words.push(x);
            w = w + 1;
        }
        proof {
            assert(bs.skip(32) =~= Seq::<u8>::empty());
            assert(pow64(4) * nat_of_le_bytes(bs.skip(32)) == 0) by (nonlinear_arith)
                requires
                    nat_of_le_bytes(bs.skip(32)) == 0,
            ;
        }
        Num::from_word_vec(&words)
    }

    /// The 32-byte little-endian encoding of this number.
    #[verifier::loop_isolation(false)]
    pub fn to_le_bytes(&self) -> (r: Vec<u8>)
        ensures
            r@.len() == 32,
            nat_of_le_bytes(r@) == self@,
            forall|i: int| 0 <= i < 32 ==> r@[i] == ((self.0@[i / 8] >> ((8 * (i % 8)) as u64))
                as u8),
    {
        let mut out: Vec<u8> = Vec::new();
        let mut w: usize = 0;
        while w < 4
            invariant
                w <= 4,
                out@.len() == 8 * w,
                forall|i: int| 0 <= i < 8 * w ==> out@[i] == ((self.0@[i / 8] >> ((8 * (i % 8))
                    as u64)) as u8),
                nat_of_le_bytes(out@) == nat_of_words(self.0@.take(w as int)),
            decreases 4 - w,
        {
            let x = self.0[w];
            let ghost before = out@;
            out.push(#[verifier::truncate] (x as u8));
            out.push(#[verifier::truncate] ((x >> 8u64) as u8));
            out.push(#[verifier::truncate] ((x >> 16u64) as u8));
            out.push(#[verifier::truncate] ((x >> 24u64) as u8));
            out.push(#[verifier::truncate] ((x >> 32u64) as u8));
            out.push(#[verifier::truncate] ((x >> 40u64) as u8));
            out.push(#[verifier::truncate] ((x >> 48u64) as u8));
            out.push(#[verifier::truncate] ((x >> 56u64) as u8));
            proof {
                assert(out@ =~= before + seq![
                    (x as u8),
                    ((x >> 8u64) as u8),
                    ((x >> 16u64) as u8),
                    ((x >> 24u64) as u8),
                    ((x >> 32u64) as u8),
                    ((x >> 40u64) as u8),
                    ((x >> 48u64) as u8),
                    ((x >> 56u64) as u8),
                ]);
                assert forall|k: int| 0 <= k < 8 implies #[trigger] out@[8 * (w as int) + k] == ((
                x >> ((8 * k) as u64)) as u8) by {
                    if k == 0 {
                        assert(out@[8 * (w as int)] == (x as u8));
                        assert(x >> 0u64 == x) by (bit_vector);
                        assert((8 * k) as u64 == 0u64);
                    } else if k == 1 {
                        assert(out@[8 * (w as int) + 1] == ((x >> 8u64) as u8));
                    } else if k == 2 {
                        assert(out@[8 * (w as int) + 2] == ((x >> 16u64) as u8));
                    } else if k == 3 {
                        assert(out@[8 * (w as int) + 3] == ((x >> 24u64) as u8));
                    } else if k == 4 {
                        assert(out@[8 * (w as int) + 4] == ((x >> 32u64) as u8));
                    } else if k == 5 {
                        assert(out@[8 * (w as int) + 5] == ((x >> 40u64) as u8));
                    } else if k == 6 {
                        assert(out@[8 * (w as int) + 6] == ((x >> 48u64) as u8));
                    } else {
                        assert(out@[8 * (w as int) + 7] == ((x >> 56u64) as u8));
                    }
                }
                lemma_le_bytes_prefix_word(before, out@, self.0@, w as int);
                assert forall|i: int| 0 <= i < 8 * (w + 1) implies out@[i] == ((self.0@[i / 8] >> ((
                8 * (i % 8)) as u64)) as u8) by {
                    if i >= 8 * w {
                        assert(i / 8 == w && i % 8 == i - 8 * (w as int));
                        assert(out@[8 * (w as int) + (i - 8 * (w as int))] == ((x >> ((8 * (i - 8
                            * (w as int))) as u64)) as u8));
                    }
                }
            }
            w = w + 1;
        }
        proof {
            assert(self.0@.take(4) =~= self.0@);
        }
        out
    }
}

/// Appending the eight little-endian bytes of the next word extends the
/// value of the byte prefix by that word at its place value.
proof fn lemma_le_bytes_prefix_word(before: Seq<u8>, after: Seq<u8>, words: Seq<u64>, w: int)
    requires
        0 <= w < words.len(),
        before.len() == 8 * w,
        after.len() == 8 * w + 8,
        after.take(8 * w) =~= before,
        forall|k: int| 0 <= k < 8 ==> #[trigger] after[8 * w + k] == ((words[w] >> ((8 * k) as u64)) as u8),
        nat_of_le_bytes(before) == nat_of_words(words.take(w)),
    ensures
        nat_of_le_bytes(after) == nat_of_words(words.take(w + 1)),
    decreases w,
{
    let x = words[w];
    lemma_le_bytes_split(after, 8 * w);
    lemma_le_bytes_split(before, 8 * w);
    assert(before.skip(8 * w) =~= Seq::<u8>::empty());
    assert(before.take(8 * w) =~= before);
    let tail = after.skip(8 * w);
    lemma_le_bytes_chunk(tail);
    assert(tail.skip(8) =~= Seq::<u8>::empty());
    let b0 = tail[0];
    let b1 = tail[1];
    let b2 = tail[2];
    let b3 = tail[3];
    let b4 = tail[4];
    let b5 = tail[5];
    let b6 = tail[6];
    let b7 = tail[7];
    assert(b0 == after[8 * w + 0] && b1 == after[8 * w + 1] && b2 == after[8 * w + 2] && b3
        == after[8 * w + 3] && b4 == after[8 * w + 4] && b5 == after[8 * w + 5] && b6 == after[8
        * w + 6] && b7 == after[8 * w + 7]);
    assert(x >> 0u64 == x) by (bit_vector);
    assert((8 * 0) as u64 == 0u64);
    assert(b0 == ((x >> 0u64) as u8) && b1 == ((x >> 8u64) as u8) && b2 == ((x >> 16u64) as u8)
        && b3 == ((x >> 24u64) as u8) && b4 == ((x >> 32u64) as u8) && b5 == ((x >> 40u64) as u8)
        && b6 == ((x >> 48u64) as u8) && b7 == ((x >> 56u64) as u8));
    assert(b0 == (x as u8));
    assert((x as u8) + 0x100 * ((x >> 8u64) as u8) + 0x10000 * ((x >> 16u64) as u8) + 0x1000000
        * ((x >> 24u64) as u8) + 0x100000000 * ((x >> 32u64) as u8) + 0x10000000000 * ((x
        >> 40u64) as u8) + 0x1000000000000 * ((x >> 48u64) as u8) + 0x100000000000000 * ((x
        >> 56u64) as u8) == x) by (bit_vector);
    assert(nat_of_le_bytes(tail) == x);
    lemma_nat_of_words_snoc(words.take(w), words[w]);
    assert(words.take(w).push(words[w]) =~= words.take(w + 1));
    lemma_pow256_pow64(w);
    assert(spec_pow256(8 * w) * nat_of_le_bytes(tail) == pow64(w as nat) * x);
}

/// The place value of byte `k` in a little-endian byte string.
pub open spec fn spec_pow256(k: int) -> nat
    decreases k,
{
    if k <= 0 {
        1
    } else {
        256 * spec_pow256(k - 1)
    }
}

/// Split the value of a byte sequence at position `i`.
proof fn lemma_le_bytes_split(s: Seq<u8>, i: int)
    requires
        0 <= i <= s.len(),
    ensures
        nat_of_le_bytes(s) == nat_of_le_bytes(s.take(i)) + spec_pow256(i) * nat_of_le_bytes(
            s.skip(i),
        ),
    decreases i,
{
    if i == 0 {
        assert(s.take(0) =~= Seq::<u8>::empty());
        assert(s.skip(0) =~= s);
        assert(spec_pow256(0) * nat_of_le_bytes(s) == nat_of_le_bytes(s)) by (nonlinear_arith)
            requires
                spec_pow256(0) == 1nat,
        ;
    } else {
        let rest = s.skip(1);
        lemma_le_bytes_split(rest, i - 1);
        assert(s.take(i).skip(1) =~= rest.take(i - 1));
        assert(s.skip(i) =~= rest.skip(i - 1));
        assert(s.take(i)[0] == s[0]);
        assert(nat_of_le_bytes(s.take(i)) == s[0] + 256 * nat_of_le_bytes(rest.take(i - 1)));
        let hi = nat_of_le_bytes(rest.skip(i - 1));
        let p = spec_pow256(i - 1);
        assert(256 * (nat_of_le_bytes(rest.take(i - 1)) + p * hi) == 256 * nat_of_le_bytes(
            rest.take(i - 1),
        ) + 256 * (p * hi)) by (nonlinear_arith);
        assert(256 * (p * hi) == (256 * p) * hi) by (nonlinear_arith);
    }
}

/// Eight byte places make one word place.
proof fn lemma_pow256_pow64(w: int)
    requires
        w >= 0,
    ensures
        spec_pow256(8 * w) == pow64(w as nat),
    decreases w,
{
    if w > 0 {
        lemma_pow256_pow64(w - 1);
        assert(spec_pow256(8 * w) == 256 * spec_pow256(8 * w - 1));
        assert(spec_pow256(8 * w - 1) == 256 * spec_pow256(8 * w - 2));
        assert(spec_pow256(8 * w - 2) == 256 * spec_pow256(8 * w - 3));
        assert(spec_pow256(8 * w - 3) == 256 * spec_pow256(8 * w - 4));
        assert(spec_pow256(8 * w - 4) == 256 * spec_pow256(8 * w - 5));
        assert(spec_pow256(8 * w - 5) == 256 * spec_pow256(8 * w - 6));
        assert(spec_pow256(8 * w - 6) == 256 * spec_pow256(8 * w - 7));
        assert(spec_pow256(8 * w - 7) == 256 * spec_pow256(8 * w - 8));
        assert(spec_pow256(8 * w) == 0x10000000000000000 * spec_pow256(8 * w - 8));
    }
}



impl Num {
    /// Modular addition with modulus `p`.
    pub fn add(&self, n: Num, p: Num) -> (r: Num)
        requires
            p@ > 0,
        ensures
            r@ == (self@ + n@) as int % p@ as int,
    {
        let av = self.word_vec();
        let bv = n.word_vec();
        let pv = p.word_vec();
        let (sum, carry) = add_words(&av, &bv);
        let reduced = if carry {
            // To account for the carry bit, extend the sum by one most
            // significant word equal to one, then do the reduction.
            let mut ext = sum;
            proof {
                lemma_nat_of_words_snoc(ext@, 1);
                assert(pow64(4) * 1 == pow64(4)) by (nonlinear_arith);
            }
            ext.push(1);
            reduce_words(&ext, &pv)
        } else {
            reduce_words(&sum, &pv)
        };
        Num::from_word_vec(&reduced)
    }

    /// Modular subtraction with modulus `p`: exact when both operands are
    /// already reduced, and still a congruent result whenever the modulus can
    /// absorb the borrow.
    pub fn sub(&self, n: Num, p: Num) -> (r: Num)
        requires
            self@ + p@ >= n@,
        ensures
            r@ == spec_sub_mod(self@, n@, p@),
    {
        let av = self.word_vec();
        let bv = n.word_vec();
        let (diff, borrow) = sub_words(&av, &bv);
        if borrow {
            // The result would be negative, so add the modulus back; the
            // addition always carries, and the carry and borrow cancel out.
            let pv = p.word_vec();
            let (fixed, carry) = add_words(&diff, &pv);
            proof {
                lemma_nat_of_words_bound(fixed@);
                if !carry {
                    assert(false);
                }
            }
            Num::from_word_vec(&fixed)
        } else {
            Num::from_word_vec(&diff)
        }
    }

    /// Modular multiplication with modulus `p`: same as multiplication on
    /// paper, followed by a reduction of the double-width product.
    pub fn mul(&self, n: Num, p: Num) -> (r: Num)
        requires
            p@ > 0,
        ensures
            r@ == (self@ * n@) as int % p@ as int,
    {
        let av = self.word_vec();
        let bv = n.word_vec();
        let pv = p.word_vec();
        let prod = mul_words(&av, &bv);
        let reduced = reduce_words(&prod, &pv);
        Num::from_word_vec(&reduced)
    }

    /// Modular equality with modulus `p`.
    pub fn eq(&self, n: Num, p: Num) -> (r: bool)
        requires
            p@ > 0,
        ensures
            r == (self@ as int % p@ as int == n@ as int % p@ as int),
    {
        let a = self.reduce(p);
        let b = n.reduce(p);
        let r = a.0[0] == b.0[0] && a.0[1] == b.0[1] && a.0[2] == b.0[2] && a.0[3] == b.0[3];
        proof {
            if r {
                assert(a.0@ =~= b.0@);
            } else {
                if a@ == b@ {
                    lemma_nat_of_words_injective(a.0@, b.0@);
                    assert(false);
                }
            }
        }
        r
    }

    /// Reduction modulo `p`.
    pub fn reduce(&self, p: Num) -> (r: Num)
        requires
            p@ > 0,
        ensures
            r@ == self@ as int % p@ as int,
    {
        let av = self.word_vec();
        let pv = p.word_vec();
        let reduced = reduce_words(&av, &pv);
        Num::from_word_vec(&reduced)
    }

    /// Get the bit at the given index. The rightmost (least significant) bit
    /// is at index 0.
    pub fn get_bit(&self, i: usize) -> (r: bool)
        requires
            i < 256,
        ensures
            r == (self@ as int / pow2(i as nat) as int % 2 == 1),
    {
        let av = self.word_vec();
        let r = get_bit_words(&av, i);
        proof {
            vstd::arithmetic::power2::lemma_pow2_pos(i as nat);
        }
        r
    }

    /// Get the modular multiplicative inverse of the number by using the
    /// extended Euclidean algorithm. Returns `None` exactly for the zero
    /// value, which has no inverse. By [`lemma_num_inv_bezout`], the result
    /// times the input is the gcd of the input and the modulus, so for a
    /// prime modulus it is the multiplicative inverse.
    ///
    /// The algorithm repeatedly divides `v` by `u` (initially the reduced
    /// value and the modulus), keeping the remainders, while the pair
    /// `(x1, x2)` tracks the Bezout coefficients of the two values modulo
    /// `p`; when `u` reaches zero, `x2` is the coefficient of the original
    /// value, and for a prime modulus that is its inverse.
    pub fn inv(&self, p: Num) -> (r: Option<Num>)
        requires
            p@ >= 2,
        ensures
            r is None <==> self@ == 0,
            match r {
                Some(x) => x@ == spec_num_inv(self@, p@) && x@ < p@,
                None => true,
            },
    {
        if self.is_zero() {
            return None;
        }
        let mut u = self.reduce(p);
        let mut v = p;
        let mut x1 = Num::one();
        let mut x2 = Num::zero();
        proof {
            vstd::arithmetic::div_mod::lemma_mod_bound(self@ as int, p@ as int);
        }
        while !u.is_zero()
            invariant
                p@ >= 2,
                v@ >= 1,
                x1@ < p@,
                x2@ < p@,
                spec_inv_loop(u@, v@, x1@, x2@, p@) == spec_num_inv(self@, p@),
            decreases u@,
        {
            let (q, r) = div_num(v, u);
            let m = q.mul(x1, p);
            proof {
                vstd::arithmetic::div_mod::lemma_mod_bound((q@ * x1@) as int, p@ as int);
            }
            let x = x2.sub(m, p);
            v = u;
            u = r;
            x2 = x1;
            x1 = x;
        }
        proof {
            assert(spec_inv_loop(0, v@, x1@, x2@, p@) == x2@);
        }
        Some(x2)
    }
}

/// Division with remainder of one number by another.
fn div_num(a: Num, b: Num) -> (r: (Num, Num))
    requires
        b@ > 0,
    ensures
        r.0@ == a@ as int / b@ as int,
        r.1@ == a@ as int % b@ as int,
{
    let av = a.word_vec();
    let bv = b.word_vec();
    let (q, rem) = div_words(&av, &bv);
    proof {
        let qv = nat_of_words(q@) as int;
        assert(qv * b@ as int == b@ as int * qv) by (nonlinear_arith);
        vstd::arithmetic::div_mod::lemma_fundamental_div_mod_converse(
            a@ as int,
            b@ as int,
            qv,
            nat_of_words(rem@) as int,
        );
    }
    (Num::from_word_vec(&q), Num::from_word_vec(&rem))
}



/// Byte strings of equal length and value are equal byte for byte.
proof fn lemma_nat_of_le_bytes_injective(s: Seq<u8>, t: Seq<u8>)
    requires
        s.len() == t.len(),
        nat_of_le_bytes(s) == nat_of_le_bytes(t),
    ensures
        s =~= t,
    decreases s.len(),
{
    if s.len() > 0 {
        let hs = nat_of_le_bytes(s.skip(1));
        let ht = nat_of_le_bytes(t.skip(1));
        assert(s[0] + 256 * hs == t[0] + 256 * ht);
        assert(s[0] == (s[0] + 256 * hs) % 256) by {
            vstd::arithmetic::div_mod::lemma_mod_multiples_vanish(hs as int, s[0] as int, 256);
            vstd::arithmetic::div_mod::lemma_small_mod(s[0] as nat, 256);
            assert(256 * hs == hs * 256) by (nonlinear_arith);
        }
        assert(t[0] == (t[0] + 256 * ht) % 256) by {
            vstd::arithmetic::div_mod::lemma_mod_multiples_vanish(ht as int, t[0] as int, 256);
            vstd::arithmetic::div_mod::lemma_small_mod(t[0] as nat, 256);
            assert(256 * ht == ht * 256) by (nonlinear_arith);
        }
        lemma_nat_of_le_bytes_injective(s.skip(1), t.skip(1));
        assert forall|k: int| 0 <= k < s.len() implies s[k] == t[k] by {
            if k > 0 {
                assert(s.skip(1)[k - 1] == t.skip(1)[k - 1]);
            }
        }
    }
}

/// The unique 32-byte little-endian encoding of a value.
pub open spec fn spec_nat_bytes32(v: nat) -> Seq<u8> {
    choose|s: Seq<u8>| s.len() == 32 && nat_of_le_bytes(s) == v
}

/// Any 32-byte string is the canonical encoding of its value.
pub proof fn lemma_nat_bytes32(s: Seq<u8>)
    requires
        s.len() == 32,
    ensures
        spec_nat_bytes32(nat_of_le_bytes(s)) == s,
{
    assert(exists|t: Seq<u8>| t.len() == 32 && nat_of_le_bytes(t) == nat_of_le_bytes(s)) by {
        assert(s.len() == 32 && nat_of_le_bytes(s) == nat_of_le_bytes(s));
    }
    let c = spec_nat_bytes32(nat_of_le_bytes(s));
    lemma_nat_of_le_bytes_injective(c, s);
}

impl Num {
    /// The canonical 32-byte little-endian encoding of this number.
    pub fn to_le_bytes_canonical(&self) -> (r: Vec<u8>)
        ensures
            r@ == spec_nat_bytes32(self@),
            r@.len() == 32,
    {
        let out = self.to_le_bytes();
        proof {
            lemma_nat_bytes32(out@);
        }
        out
    }
}


/// The greatest common divisor, by the Euclidean recursion.
pub open spec fn spec_gcd(a: nat, b: nat) -> nat
    decreases a,
{
    if a == 0 {
        b
    } else {
        spec_gcd(b % a, a)
    }
}

/// The Bezout invariant of the Euclidean loop: if `x1` and `x2` are the
/// coefficients of `u` and `v` as multiples of `a` modulo `p`, the loop's
/// result is the coefficient of the gcd.
proof fn lemma_inv_loop_bezout(u: nat, v: nat, x1: nat, x2: nat, p: nat, a: nat)
    requires
        p >= 2,
        x1 < p,
        x2 < p,
        (a * x1) as int % p as int == u as int % p as int,
        (a * x2) as int % p as int == v as int % p as int,
    ensures
        (a * spec_inv_loop(u, v, x1, x2, p)) as int % p as int == spec_gcd(u, v) as int % p
            as int,
    decreases u,
{
    let pp = p as int;
    let aa = a as int;
    if u == 0 {
        assert(spec_gcd(0, v) == v);
    } else {
        let q = (v / u) as int;
        let r = (v % u) as int;
        let m = ((v / u * x1) as int % pp) as nat;
        let x = spec_sub_mod(x2, m, p);
        vstd::arithmetic::div_mod::lemma_mod_bound((v / u * x1) as int, pp);
        vstd::arithmetic::div_mod::lemma_fundamental_div_mod(v as int, u as int);
        assert(v == q * u + r);

        // a * m is congruent to q * u.
        vstd::arithmetic::div_mod::lemma_mul_mod_noop_right(aa, q * x1, pp);
        assert(aa * (q * x1) == q * (aa * x1)) by (nonlinear_arith);
        vstd::arithmetic::div_mod::lemma_mul_mod_noop_right(q, aa * x1, pp);
        vstd::arithmetic::div_mod::lemma_mul_mod_noop_right(q, u as int, pp);
        assert((aa * m) % pp == (q * (u as int)) % pp);

        // a * x is congruent to the remainder r.
        if x2 >= m {
            assert(aa * (x2 - m) == aa * x2 - aa * m) by (nonlinear_arith);
        } else {
            assert(aa * (x2 + pp - m) == aa * x2 - aa * m + pp * aa) by (nonlinear_arith);
            vstd::arithmetic::div_mod::lemma_mod_multiples_vanish(
                aa,
                aa * x2 - aa * m,
                pp,
            );
        }
        vstd::arithmetic::div_mod::lemma_sub_mod_noop(aa * x2, aa * m, pp);
        vstd::arithmetic::div_mod::lemma_sub_mod_noop(v as int, q * (u as int), pp);
        assert((aa * x) % pp == (v - q * u) % pp);
        assert((aa * x) % pp == r % pp);

        lemma_inv_loop_bezout(v % u, u, x, x1, p, a);
    }
}

/// What the extended Euclidean algorithm computes, as mathematics: the
/// returned coefficient times the input is the greatest common divisor of
/// the input and the modulus, modulo the modulus. For a prime modulus and
/// an input it does not divide the gcd is one, so the result is the
/// multiplicative inverse.
pub proof fn lemma_num_inv_bezout(a: nat, p: nat)
    requires
        p >= 2,
    ensures
        (a * spec_num_inv(a, p)) as int % p as int == spec_gcd(a % p, p) as int % p as int,
{
    let pp = p as int;
    assert((a * 1) as int % pp == (a % p) as int % pp) by {
        vstd::arithmetic::div_mod::lemma_mod_twice(a as int, pp);
    }
    assert((a * 0) as int % pp == p as int % pp) by {
        assert(a * 0 == 0) by (nonlinear_arith);
        vstd::arithmetic::div_mod::lemma_small_mod(0, p);
        vstd::arithmetic::div_mod::lemma_mod_self_0(pp);
    }
    lemma_inv_loop_bezout(a % p, p, 1, 0, p, a);
}

} // verus!
