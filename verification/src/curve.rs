//! The secp256k1 elliptic curve: parameters and affine point arithmetic.
//!
//! Points are either the point at infinity (the identity of the group) or
//! affine coordinates satisfying the curve equation `y^2 = x^3 + 7` over the
//! prime field of order [`Secp256k1::p`]. Point addition follows the
//! standard affine formulas, falling back to infinity whenever a slope
//! denominator vanishes; scalar multiplication is double-and-add over the
//! 256 bits of the scalar.

use vstd::prelude::*;
use vstd::arithmetic::power2::pow2;
use crate::num::{spec_num_inv, spec_sub_mod, Num};

verus! {

/// Error indicating that coordinates do not lie on the curve.
#[derive(Debug, Clone, Copy, PartialEq, Eq)]
pub struct InvalidPoint;

/// The field order of secp256k1.
pub open spec fn spec_secp_p() -> nat {
    0xFFFFFFFFFFFFFFFFFFFFFFFFFFFFFFFFFFFFFFFFFFFFFFFFFFFFFFFEFFFFFC2Fnat
}

/// The group order of secp256k1.
pub open spec fn spec_secp_n() -> nat {
    0xFFFFFFFFFFFFFFFFFFFFFFFFFFFFFFFEBAAEDCE6AF48A03BBFD25E8CD0364141nat
}

/// The x coordinate of the generator point.
pub open spec fn spec_secp_gx() -> nat {
    0x79BE667EF9DCBBAC55A06295CE870B07029BFCDB2DCE28D959F2815B16F81798nat
}

/// The y coordinate of the generator point.
pub open spec fn spec_secp_gy() -> nat {
    0x483ADA7726A3C4655DA4FBFC0E1108A8FD17B448A68554199C47D08FFB10D4B8nat
}

/// Whether `(x, y)` satisfies the curve equation `y^2 = x^3 + 7` in the
/// prime field, computed the way the reduced arithmetic computes it.
pub open spec fn spec_on_curve(x: nat, y: nat) -> bool {
    let p = spec_secp_p() as int;
    (y * y) as int % p == ((((x * x) as int % p) * x) % p + 7) % p
}

/// The value of a point: at infinity, or a pair of coordinate values.
pub enum PointValue {
    Infinity,
    Finite(nat, nat),
}

/// A point on the secp256k1 curve, possibly at infinity.
#[derive(Debug, Clone, Copy, PartialEq, Eq)]
pub struct Point(pub Coordinates);

/// The coordinates of a [`Point`].
#[derive(Debug, Clone, Copy, PartialEq, Eq)]
pub enum Coordinates {
    /// The point at infinity.
    Infinity,
    Finite(Num, Num),
}

impl View for Point {
    type V = PointValue;

    open spec fn view(&self) -> PointValue {
        match self.0 {
            Coordinates::Infinity => PointValue::Infinity,
            Coordinates::Finite(x, y) => PointValue::Finite(x@, y@),
        }
    }
}

/// Whether a point's coordinates are reduced modulo the field order. All
/// points the arithmetic here produces are reduced.
pub open spec fn spec_point_reduced(v: PointValue) -> bool {
    match v {
        PointValue::Infinity => true,
        PointValue::Finite(x, y) => x < spec_secp_p() && y < spec_secp_p(),
    }
}

/// The affine sum of two points, mirroring the reduced arithmetic step by
/// step: the doubling formula when the points coincide, the chord formula
/// otherwise, and infinity whenever a slope denominator vanishes.
pub open spec fn spec_point_add(a: PointValue, b: PointValue) -> PointValue {
    match (a, b) {
        (PointValue::Infinity, other) => other,
        (other, PointValue::Infinity) => other,
        (PointValue::Finite(x1, y1), PointValue::Finite(x2, y2)) => {
            let p = spec_secp_p();
            if x1 == x2 && y1 == y2 {
                // Point doubling: the tangent slope is 3 x^2 / 2 y.
                let den = ((2 * y1) as int % p as int) as nat;
                if den == 0 {
                    PointValue::Infinity
                } else {
                    let inv = spec_num_inv(den, p);
                    let h = ((((((3 * x1) as int % p as int) * x1) % p as int) * inv) % p
                        as int) as nat;
                    let x3 = spec_sub_mod(
                        ((h * h) as int % p as int) as nat,
                        ((2 * x1) as int % p as int) as nat,
                        p,
                    );
                    let s = spec_sub_mod(x1, x3, p);
                    let y3 = spec_sub_mod(((h * s) as int % p as int) as nat, y1, p);
                    PointValue::Finite(x3, y3)
                }
            } else {
                // Regular point addition: the chord slope is (y2-y1)/(x2-x1).
                let den = spec_sub_mod(x2, x1, p);
                if den == 0 {
                    PointValue::Infinity
                } else {
                    let inv = spec_num_inv(den, p);
                    let h = ((spec_sub_mod(y2, y1, p) * inv) as int % p as int) as nat;
                    let x3 = spec_sub_mod(
                        spec_sub_mod(((h * h) as int % p as int) as nat, x1, p),
                        x2,
                        p,
                    );
                    let s = spec_sub_mod(x1, x3, p);
                    let y3 = spec_sub_mod(((h * s) as int % p as int) as nat, y1, p);
                    PointValue::Finite(x3, y3)
                }
            }
        },
    }
}

/// The double-and-add loop after `i` of the 256 scalar bits have been
/// folded in: `acc` accumulates the result, `s` holds the running double.
pub open spec fn spec_scale_loop(acc: PointValue, s: PointValue, n: nat, i: nat) -> PointValue
    decreases 256 - i,
{
    if i >= 256 {
        acc
    } else {
        spec_scale_loop(
            if n as int / pow2(i) as int % 2 == 1 {
                spec_point_add(acc, s)
            } else {
                acc
            },
            spec_point_add(s, s),
            n,
            i + 1,
        )
    }
}

/// The scalar multiple of a point by double-and-add.
pub open spec fn spec_point_scale(s: PointValue, n: nat) -> PointValue {
    spec_scale_loop(PointValue::Infinity, s, n, 0)
}

/// The generator point as a value.
pub open spec fn spec_secp_g() -> PointValue {
    PointValue::Finite(spec_secp_gx(), spec_secp_gy())
}

impl Point {
    /// Coordinates make a point only when they lie on the curve and are
    /// reduced.
    pub fn new(x: Num, y: Num) -> (r: Result<Point, InvalidPoint>)
        ensures
            match r {
                Ok(pt) => spec_on_curve(x@, y@) && x@ < spec_secp_p() && y@ < spec_secp_p()
                    && pt@ == PointValue::Finite(x@, y@),
                Err(_) => !(spec_on_curve(x@, y@) && x@ < spec_secp_p() && y@ < spec_secp_p()),
            },
    {
        let p = Secp256k1::p();
        let px = Num(p.0);
        // Verify that (x, y) is reduced and lies on the curve.
        let ghost pv = spec_secp_p();
        let on_curve = y.mul(y, px).eq(x.mul(x, px).mul(x, px).add(Num::seven(), px), px);
        proof {
            vstd::arithmetic::div_mod::lemma_mod_bound((y@ * y@) as int, pv as int);
            vstd::arithmetic::div_mod::lemma_mod_twice((y@ * y@) as int, pv as int);
            let rhs = ((((x@ * x@) as int % pv as int) * x@) % pv as int + 7) % pv as int;
            vstd::arithmetic::div_mod::lemma_mod_bound(
                (((x@ * x@) as int % pv as int) * x@) % pv as int + 7,
                pv as int,
            );
            vstd::arithmetic::div_mod::lemma_mod_twice(
                (((x@ * x@) as int % pv as int) * x@) % pv as int + 7,
                pv as int,
            );
        }
        if on_curve && x < px && y < px {
            Ok(Point(Coordinates::Finite(x, y)))
        } else {
            Err(InvalidPoint)
        }
    }

    /// The point at infinity, the identity element of the group.
    pub fn infinity() -> (r: Point)
        ensures
            r@ == PointValue::Infinity,
    {
        Point(Coordinates::Infinity)
    }

    /// Get the point coordinates.
    pub fn coordinates(&self) -> (r: Coordinates)
        ensures
            r == self.0,
    {
        self.0
    }

    /// Add two points with the affine group formulas.
    pub fn add(self, rhs: Point) -> (r: Point)
        requires
            spec_point_reduced(self@),
            spec_point_reduced(rhs@),
        ensures
            r@ == spec_point_add(self@, rhs@),
            spec_point_reduced(r@),
    {
        let p = Secp256k1::p();
        match (self.0, rhs.0) {
            (Coordinates::Infinity, _) => rhs,
            (_, Coordinates::Infinity) => self,
            (Coordinates::Finite(x1, y1), Coordinates::Finite(x2, y2)) => {
                if x1 == x2 && y1 == y2 {
                    // Special formula for adding a point to itself, aka
                    // point doubling.
                    let den = Num::two().mul(y1, p);
                    let inv = match den.inv(p) {
                        Some(i) => i,
                        None => {
                            return Point(Coordinates::Infinity);
                        },
                    };
                    proof {
                        lemma_inv_reduced(den@, spec_secp_p());
                        vstd::arithmetic::div_mod::lemma_mod_bound(
                            (2 * x1@) as int,
                            spec_secp_p() as int,
                        );
                    }
                    let h = Num::three().mul(x1, p).mul(x1, p).mul(inv, p);
                    let x = h.mul(h, p).sub(Num::two().mul(x1, p), p);
                    let s = x1.sub(x, p);
                    let y = h.mul(s, p).sub(y1, p);
                    Point(Coordinates::Finite(x, y))
                } else {
                    // Regular point addition formula.
                    let den = x2.sub(x1, p);
                    let inv = match den.inv(p) {
                        Some(i) => i,
                        None => {
                            return Point(Coordinates::Infinity);
                        },
                    };
                    proof {
                        lemma_inv_reduced(den@, spec_secp_p());
                    }
                    let h = y2.sub(y1, p).mul(inv, p);
                    let x = h.mul(h, p).sub(x1, p).sub(x2, p);
                    let s = x1.sub(x, p);
                    let y = h.mul(s, p).sub(y1, p);
                    Point(Coordinates::Finite(x, y))
                }
            },
        }
    }

    /// Multiply the point by a scalar with the double-and-add method: walk
    /// the bits of the scalar, keep doubling the point, and fold the double
    /// into the result whenever the bit is set.
    #[verifier::loop_isolation(false)]
    pub fn scale(&self, n: Num) -> (r: Point)
        requires
            spec_point_reduced(self@),
        ensures
            r@ == spec_point_scale(self@, n@),
            spec_point_reduced(r@),
    {
        let mut s = *self;
        let mut result = Point::infinity();
        let mut i: usize = 0;
        while i < 256
            invariant
                i <= 256,
                spec_point_reduced(result@),
                spec_point_reduced(s@),
                spec_scale_loop(result@, s@, n@, i as nat) == spec_point_scale(self@, n@),
            decreases 256 - i,
        {
            if n.get_bit(i) {
                result = result.add(s);
            }
            s = s.add(s);
            i = i + 1;
        }
        result
    }
}

/// A computed inverse is a residue.
proof fn lemma_inv_reduced(a: nat, p: nat)
    requires
        p >= 2,
        a < p,
    ensures
        spec_num_inv(a, p) < p,
{
    vstd::arithmetic::div_mod::lemma_small_mod(a, p);
    lemma_inv_loop_reduced(a, p, 1, 0, p);
}

/// The Bezout coefficients the Euclidean loop tracks stay reduced.
proof fn lemma_inv_loop_reduced(u: nat, v: nat, x1: nat, x2: nat, p: nat)
    requires
        p >= 2,
        x1 < p,
        x2 < p,
    ensures
        crate::num::spec_inv_loop(u, v, x1, x2, p) < p,
    decreases u,
{
    if u != 0 {
        vstd::arithmetic::div_mod::lemma_mod_bound((v as int / u as int * x1) as int, p as int);
        lemma_inv_loop_reduced(
            v % u,
            u,
            spec_sub_mod(x2, ((v / u * x1) as int % p as int) as nat, p),
            x1,
            p,
        );
    }
}

/// The secp256k1 curve, with its parameters from SEC 2.
#[derive(Debug, Clone, Copy, PartialEq, Eq)]
pub struct Secp256k1;

impl Default for Secp256k1 {
    fn default() -> (r: Self)
        ensures
            r == Secp256k1,
    {
        Secp256k1
    }
}

impl Secp256k1 {
    /// The field order.
    pub fn p() -> (r: Num)
        ensures
            r@ == spec_secp_p(),
    {
        let r = Num::from_le_words(
            [0xFFFFFFFEFFFFFC2F, 0xFFFFFFFFFFFFFFFF, 0xFFFFFFFFFFFFFFFF, 0xFFFFFFFFFFFFFFFF],
        );
        proof {
            crate::num::lemma_nat_of_4(r.0@);
        }
        r
    }

    /// The group order: the order of the generator point.
    pub fn n() -> (r: Num)
        ensures
            r@ == spec_secp_n(),
    {
        let r = Num::from_le_words(
            [0xBFD25E8CD0364141, 0xBAAEDCE6AF48A03B, 0xFFFFFFFFFFFFFFFE, 0xFFFFFFFFFFFFFFFF],
        );
        proof {
            crate::num::lemma_nat_of_4(r.0@);
        }
        r
    }

    /// The curve coefficient `a`, which is zero for secp256k1.
    pub fn a() -> (r: Num)
        ensures
            r@ == 0,
    {
        Num::zero()
    }

    /// The curve coefficient `b`, which is seven for secp256k1.
    pub fn b() -> (r: Num)
        ensures
            r@ == 7,
    {
        Num::seven()
    }

    /// The generator point.
    pub fn g() -> (r: Point)
        ensures
            r@ == PointValue::Finite(spec_secp_gx(), spec_secp_gy()),
            spec_point_reduced(r@),
    {
        let x = Num::from_le_words(
            [0x59F2815B16F81798, 0x029BFCDB2DCE28D9, 0x55A06295CE870B07, 0x79BE667EF9DCBBAC],
        );
        let y = Num::from_le_words(
            [0x9C47D08FFB10D4B8, 0xFD17B448A6855419, 0x5DA4FBFC0E1108A8, 0x483ADA7726A3C465],
        );
        proof {
            crate::num::lemma_nat_of_4(x.0@);
            crate::num::lemma_nat_of_4(y.0@);
        }
        Point(Coordinates::Finite(x, y))
    }
}

} // verus!
