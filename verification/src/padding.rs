//! Padding schemes for block ciphers.

use vstd::prelude::*;

verus! {

/// Error indicating that a buffer does not end in valid padding.
#[derive(Debug, Clone, Copy, PartialEq, Eq)]
pub struct InvalidPadding;

/// A scheme to pad messages to a multiple of some block size.
///
/// [Block ciphers](crate::BlockCipher) expect the input data to be a multiple
/// of the block size. Messages are rarely an exact multiple of the block size,
/// so a padding scheme is needed as a way to extend the length of the data.
/// The scheme must be injective, which `lemma_unpad_pad` captures: unpadding
/// recovers exactly the padded message.
pub trait Padding: Sized {
    /// The padded form of `data` for block size `n`.
    spec fn spec_pad(&self, data: Seq<u8>, n: nat) -> Seq<u8>;

    /// The unpadded form of `data` for block size `n`, or `None` when the
    /// padding is invalid.
    spec fn spec_unpad(&self, data: Seq<u8>, n: nat) -> Option<Seq<u8>>;

    /// Pad the input data to a multiple of `n`.
    fn pad(&self, data: Vec<u8>, n: usize) -> (r: Vec<u8>)
        requires
            0 < n < 256,
        ensures
            r@ == self.spec_pad(data@, n as nat),
            r@.len() as int % (n as int) == 0,
            r@.len() >= data@.len(),
    ;

    /// Remove the padding from the input data. Return an error if the padding
    /// is invalid.
    fn unpad(&self, data: Vec<u8>, n: usize) -> (r: Result<Vec<u8>, InvalidPadding>)
        requires
            0 < n < 256,
        ensures
            match r {
                Ok(p) => self.spec_unpad(data@, n as nat) == Some(p@),
                Err(_) => self.spec_unpad(data@, n as nat) is None,
            },
    ;

    /// The padded form is a multiple of the block size and loses no bytes.
    proof fn lemma_pad_multiple(&self, data: Seq<u8>, n: nat)
        requires
            0 < n < 256,
        ensures
            self.spec_pad(data, n).len() as int % (n as int) == 0,
            self.spec_pad(data, n).len() >= data.len(),
    ;

    /// Unpadding inverts padding: the scheme loses no data.
    proof fn lemma_unpad_pad(&self, data: Seq<u8>, n: nat)
        requires
            0 < n < 256,
        ensures
            self.spec_unpad(self.spec_pad(data, n), n) == Some(data),
    ;
}

/// PKCS #7, a simple approach to padding.
///
/// If the message needs to be padded with `m` bytes and the block size is `B`,
/// this padding scheme appends `m` bytes with the value `m`. If the message is
/// already a multiple of the block size, an entire block of padding is
/// appended, i.e. `B` bytes with the value `B`.
///
/// Note that this scheme does not work for block sizes of 256 or more, since
/// 255 is the maximum value for a single byte.
#[derive(Debug, Clone, Copy, PartialEq, Eq)]
pub struct Pkcs7;

/// The number of padding bytes PKCS #7 appends to data of length `len` for
/// block size `n`: between 1 and `n`, bringing the total to a multiple of `n`.
pub open spec fn spec_pkcs7_fill(len: nat, n: nat) -> nat
    recommends
        n > 0,
{
    (n - (len as int % n as int)) as nat
}

impl Default for Pkcs7 {
    fn default() -> (r: Self)
        ensures
            r == Pkcs7,
    {
        Pkcs7
    }
}

impl Padding for Pkcs7 {
    open spec fn spec_pad(&self, data: Seq<u8>, n: nat) -> Seq<u8> {
        let m = spec_pkcs7_fill(data.len(), n);
        data + Seq::new(m, |i: int| m as u8)
    }

    open spec fn spec_unpad(&self, data: Seq<u8>, n: nat) -> Option<Seq<u8>> {
        if data.len() == 0 {
            None
        } else {
            let m = data.last() as int;
            if m == 0 || m > n || m > data.len() {
                None
            } else if exists|i: int| data.len() - m <= i < data.len() && (#[trigger] data[i]) != m {
                None
            } else {
                Some(data.take(data.len() - m))
            }
        }
    }

    #[verifier::loop_isolation(false)]
    fn pad(&self, data: Vec<u8>, n: usize) -> (r: Vec<u8>) {
        let mut data = data;
        let ghost orig = data@;
        // The amount of padding needed. If the data is already a multiple of
        // the block size, an entire block of padding is needed.
        let m = n - data.len() % n;
        proof {
            vstd::arithmetic::div_mod::lemma_mod_bound(orig.len() as int, n as int);
        }
        let b = m as u8;
        let ghost padded = self.spec_pad(data@, n as nat);
        let mut i: usize = 0;
        while i < m
            invariant
                i <= m,
                m == spec_pkcs7_fill(orig.len(), n as nat),
                0 < m <= n < 256,
                b == m as u8,
                padded == self.spec_pad(orig, n as nat),
                data@ == orig + Seq::new(i as nat, |j: int| b),
            decreases m - i,
        {
            data.push(b);
            assert(data@ =~= orig + Seq::new((i + 1) as nat, |j: int| b));
            i = i + 1;
        }
        assert(data@ =~= padded);
        assert(padded.len() == orig.len() + m);
        assert(padded.len() as int % (n as int) == 0) by {
            let l = orig.len() as int;
            let nn = n as int;
            vstd::arithmetic::div_mod::lemma_fundamental_div_mod(l, nn);
            assert(padded.len() as int == nn * (l / nn) + nn);
            assert(nn * (l / nn) + nn == (l / nn + 1) * nn) by (nonlinear_arith);
            vstd::arithmetic::div_mod::lemma_mod_multiples_basic(l / nn + 1, nn);
        }
        data
    }

    #[verifier::loop_isolation(false)]
    fn unpad(&self, data: Vec<u8>, n: usize) -> (r: Result<Vec<u8>, InvalidPadding>) {
        let mut data = data;
        let ghost orig = data@;
        if data.len() == 0 {
            return Err(InvalidPadding);
        }
        let m = data[data.len() - 1] as usize;
        if m == 0 || m > n || m > data.len() {
            return Err(InvalidPadding);
        }
        // Every one of the last m bytes must equal m.
        let start = data.len() - m;
        let mut i: usize = start;
        while i < data.len()
            invariant
                start <= i <= data@.len(),
                data@.len() > 0,
                start == data@.len() - m,
                0 < m <= n < 256,
                m == data@.last(),
                forall|j: int| start <= j < i ==> data@[j] == m,
            decreases data@.len() - i,
        {
            if data[i] as usize != m {
                proof {
                    let ml = data@.last() as int;
                    assert(data@.len() - ml <= i < data@.len() && data@[i as int] != ml);
                }
                return Err(InvalidPadding);
            }
            i = i + 1;
        }
        let ghost prefix = data@.take(data@.len() - m);
        data.truncate(start);
        assert(data@ =~= prefix);
        Ok(data)
    }

    proof fn lemma_pad_multiple(&self, data: Seq<u8>, n: nat) {
        let m = spec_pkcs7_fill(data.len(), n);
        let padded = self.spec_pad(data, n);
        assert(0 < m <= n) by {
            vstd::arithmetic::div_mod::lemma_mod_bound(data.len() as int, n as int);
        }
        assert(padded.len() as int % (n as int) == 0) by {
            let l = data.len() as int;
            let nn = n as int;
            vstd::arithmetic::div_mod::lemma_fundamental_div_mod(l, nn);
            assert(padded.len() as int == nn * (l / nn) + nn);
            assert(nn * (l / nn) + nn == (l / nn + 1) * nn) by (nonlinear_arith);
            vstd::arithmetic::div_mod::lemma_mod_multiples_basic(l / nn + 1, nn);
        }
    }

    proof fn lemma_unpad_pad(&self, data: Seq<u8>, n: nat) {
        let m = spec_pkcs7_fill(data.len(), n);
        let padded = self.spec_pad(data, n);
        assert(0 < m <= n) by {
            vstd::arithmetic::div_mod::lemma_mod_bound(data.len() as int, n as int);
        }
        assert(padded.len() == data.len() + m);
        assert(padded.last() == m as u8);
        assert(forall|i: int|
            padded.len() - m <= i < padded.len() ==> padded[i] == m as u8);
        assert(padded.take(padded.len() - m) =~= data);
    }
}

} // verus!
