//! Keys for elliptic-curve cryptography over secp256k1.

use vstd::prelude::*;
use crate::curve::{
    spec_on_curve,
    spec_point_reduced,
    spec_point_scale,
    spec_secp_n,
    spec_secp_p,
    Coordinates,
    Point,
    PointValue,
    Secp256k1,
};
use crate::num::Num;

verus! {

/// Error indicating that a private key is invalid.
#[derive(Debug, Clone, Copy, PartialEq, Eq)]
pub struct InvalidPrivateKey;

/// Error indicating that a public key is invalid.
#[derive(Debug, Clone, Copy, PartialEq, Eq)]
pub struct InvalidPublicKey;

/// Error indicating that a signature is invalid or failed to verify.
#[derive(Debug, Clone, Copy, PartialEq, Eq)]
pub struct InvalidSignature;

/// A private key: a non-zero scalar below the group order.
#[derive(Debug, Clone, Copy, PartialEq, Eq)]
pub struct PrivateKey(pub Num);

impl PrivateKey {
    /// A scalar makes a private key when it is non-zero and reduced modulo
    /// the group order.
    pub fn new(n: Num) -> (r: Result<PrivateKey, InvalidPrivateKey>)
        ensures
            match r {
                Ok(k) => 0 < n@ < spec_secp_n() && k.0 == n,
                Err(_) => !(0 < n@ < spec_secp_n()),
            },
    {
        // Verify that the private key is reduced modulo N and non-zero.
        let order = Secp256k1::n();
        if n < order && !n.is_zero() {
            Ok(PrivateKey(n))
        } else {
            Err(InvalidPrivateKey)
        }
    }

    /// Derive the [public key](PublicKey) from a private key, by multiplying
    /// the generator point by the private scalar.
    pub fn derive(&self) -> (r: PublicKey)
        ensures
            match spec_point_scale(crate::curve::spec_secp_g(), self.0@) {
                PointValue::Finite(x, y) => r.x@ == x && r.y@ == y,
                PointValue::Infinity => r.x@ == 0 && r.y@ == 0,
            },
            r.x@ < spec_secp_p() && r.y@ < spec_secp_p(),
    {
        let pt = Secp256k1::g().scale(self.0);
        match pt.coordinates() {
            Coordinates::Finite(x, y) => PublicKey { x, y },
            Coordinates::Infinity => PublicKey { x: Num::zero(), y: Num::zero() },
        }
    }
}

/// A public key: the affine coordinates of a finite curve point.
#[derive(Debug, Clone, Copy, PartialEq, Eq)]
pub struct PublicKey {
    pub x: Num,
    pub y: Num,
}

impl PublicKey {
    /// A finite point makes a public key; the point at infinity does not.
    pub fn new(p: Point) -> (r: Result<PublicKey, InvalidPublicKey>)
        ensures
            match r {
                Ok(k) => match p@ {
                    PointValue::Finite(x, y) => k.x@ == x && k.y@ == y,
                    PointValue::Infinity => false,
                },
                Err(_) => p@ is Infinity,
            },
    {
        match p.coordinates() {
            Coordinates::Infinity => Err(InvalidPublicKey),
            Coordinates::Finite(x, y) => Ok(PublicKey { x, y }),
        }
    }

    /// The point this key stands for: finite when the coordinates check
    /// out on the curve, infinity otherwise.
    pub fn point(&self) -> (r: Point)
        ensures
            r@ == (if spec_on_curve(self.x@, self.y@) && self.x@ < spec_secp_p() && self.y@
                < spec_secp_p() {
                PointValue::Finite(self.x@, self.y@)
            } else {
                PointValue::Infinity
            }),
            spec_point_reduced(r@),
    {
        match Point::new(self.x, self.y) {
            Ok(p) => p,
            Err(_) => Point::infinity(),
        }
    }

    /// The x coordinate.
    pub fn x(&self) -> (r: Num)
        ensures
            r == self.x,
    {
        self.x
    }

    /// The y coordinate.
    pub fn y(&self) -> (r: Num)
        ensures
            r == self.y,
    {
        self.y
    }
}

} // verus!
