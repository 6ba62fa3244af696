//! Free vectors of 3-space and their mathematical model.
//!
//! A vector holds three integer coordinates over one positive
//! denominator, so the triple `(x/d, y/d, z/d)` is exact.  A free vector
//! has direction and magnitude only: a transform never translates it.

use vstd::prelude::*;
use crate::scalar::{ib, lim, lemma_ib_product, srat_wf, srat_bounded, SRat, Rat, LIM};

verus! {

/// Mathematical value of a vector or of a point: the triple
/// `(x/d, y/d, z/d)`.
pub struct SVec {
    pub x: int,
    pub y: int,
    pub z: int,
    pub d: int,
}

/// The denominator is positive.
pub open spec fn svec_wf(a: SVec) -> bool {
    a.d > 0
}

/// Every part is within the operation entry bound.
pub open spec fn svec_bounded(a: SVec) -> bool {
    ib(a.x) && ib(a.y) && ib(a.z) && 0 < a.d && a.d <= lim()
}

/// The two triples denote the same value, coordinate by coordinate.
pub open spec fn svec_eq(a: SVec, b: SVec) -> bool {
    &&& a.x * b.d == b.x * a.d
    &&& a.y * b.d == b.y * a.d
    &&& a.z * b.d == b.z * a.d
}

/// The zero vector.
pub open spec fn svec_zero() -> SVec {
    SVec { x: 0, y: 0, z: 0, d: 1 }
}

/// Exact sum of two triples.
pub open spec fn svec_add(a: SVec, b: SVec) -> SVec {
    SVec {
        x: a.x * b.d + b.x * a.d,
        y: a.y * b.d + b.y * a.d,
        z: a.z * b.d + b.z * a.d,
        d: a.d * b.d,
    }
}

/// Exact difference of two triples.
pub open spec fn svec_sub(a: SVec, b: SVec) -> SVec {
    SVec {
        x: a.x * b.d - b.x * a.d,
        y: a.y * b.d - b.y * a.d,
        z: a.z * b.d - b.z * a.d,
        d: a.d * b.d,
    }
}

/// The triple scaled by the fraction `s`.
pub open spec fn svec_scale(s: SRat, a: SVec) -> SVec {
    SVec { x: s.n * a.x, y: s.n * a.y, z: s.n * a.z, d: s.d * a.d }
}

/// Every coordinate leaves room for taking its magnitude.
pub open spec fn svec_in_range(a: SVec) -> bool {
    &&& -(i128::MAX as int) <= a.x
    &&& -(i128::MAX as int) <= a.y
    &&& -(i128::MAX as int) <= a.z
}

/// The triple with every part divided by the greatest common divisor
/// of all four.
pub open spec fn svec_reduced(a: SVec) -> SVec {
    let g = crate::gcd::gcd(crate::gcd::gcd(crate::gcd::gcd(crate::gcd::iabs(a.x), crate::gcd::iabs(a.y)), crate::gcd::iabs(a.z)), a.d);
    SVec { x: a.x / g, y: a.y / g, z: a.z / g, d: a.d / g }
}

/// A free vector with exact coordinates `(x/d, y/d, z/d)`.
#[derive(Clone, Copy, Debug)]
pub struct Vec3 {
    pub x: i128,
    pub y: i128,
    pub z: i128,
    pub d: i128,
}

impl View for Vec3 {
    type V = SVec;

    open spec fn view(&self) -> SVec {
        SVec { x: self.x as int, y: self.y as int, z: self.z as int, d: self.d as int }
    }
}

impl Vec3 {
    /// The denominator is positive.
    pub open spec fn wf(self) -> bool {
        svec_wf(self@)
    }

    /// The vector may enter an arithmetic operation.
    pub open spec fn bounded(self) -> bool {
        svec_bounded(self@)
    }

    /// The zero vector.
    pub fn zero() -> (r: Vec3)
        ensures
            r@ == svec_zero(),
            r.bounded(),
    {
        Vec3 { x: 0, y: 0, z: 0, d: 1 }
    }

    /// The vector `(x/d, y/d, z/d)`, brought to a positive denominator.
    /// Absent exactly when `d` is zero.
    pub fn new(x: i128, y: i128, z: i128, d: i128) -> (r: Option<Vec3>)
        requires
            ib(x as int),
            ib(y as int),
            ib(z as int),
            ib(d as int),
        ensures
            r is Some <==> d != 0,
            r is Some ==> {
                let v = r->Some_0;
                &&& v.bounded()
                &&& svec_eq(v@, SVec { x: x as int, y: y as int, z: z as int, d: d as int })
            },
    {
        if d == 0 {
            None
        } else if d < 0 {
            proof {
                assert((-x as int) * (d as int) == (x as int) * (-d as int)) by (nonlinear_arith);
                assert((-y as int) * (d as int) == (y as int) * (-d as int)) by (nonlinear_arith);
                assert((-z as int) * (d as int) == (z as int) * (-d as int)) by (nonlinear_arith);
            }
            Some(Vec3 { x: -x, y: -y, z: -z, d: -d })
        } else {
            Some(Vec3 { x, y, z, d })
        }
    }

    /// Exact sum of two vectors.
    pub fn add_v(&self, other: &Vec3) -> (r: Vec3)
        requires
            self.bounded(),
            other.bounded(),
        ensures
            r@ == svec_add(self@, other@),
            r.wf(),
    {
        proof {
            lemma_pair_products(self@, other@);
        }
        Vec3 {
            x: self.x * other.d + other.x * self.d,
            y: self.y * other.d + other.y * self.d,
            z: self.z * other.d + other.z * self.d,
            d: self.d * other.d,
        }
    }

    /// Exact difference of two vectors.
    pub fn sub_v(&self, other: &Vec3) -> (r: Vec3)
        requires
            self.bounded(),
            other.bounded(),
        ensures
            r@ == svec_sub(self@, other@),
            r.wf(),
    {
        proof {
            lemma_pair_products(self@, other@);
        }
        Vec3 {
            x: self.x * other.d - other.x * self.d,
            y: self.y * other.d - other.y * self.d,
            z: self.z * other.d - other.z * self.d,
            d: self.d * other.d,
        }
    }

    /// The vector scaled by the scalar `s`.
    pub fn mul_s(&self, s: &Rat) -> (r: Vec3)
        requires
            self.bounded(),
            srat_bounded(s@),
        ensures
            r@ == svec_scale(s@, self@),
            r.wf(),
    {
        proof {
            lemma_ib_product(s@.n, self@.x);
            lemma_ib_product(s@.n, self@.y);
            lemma_ib_product(s@.n, self@.z);
            lemma_ib_product(s@.d, self@.d);
            assert(s@.d * self@.d > 0) by (nonlinear_arith)
                requires s@.d > 0 && self@.d > 0;
        }
        Vec3 { x: s.n * self.x, y: s.n * self.y, z: s.n * self.z, d: s.d * self.d }
    }

    /// The same value brought to lowest terms; absent exactly when even
    /// the reduced parts exceed the operation entry bound.  This is how
    /// a value grown by composition or inversion re-enters the bounded
    /// domain.
    pub fn reduce(&self) -> (r: Option<Vec3>)
        requires
            self.wf(),
            svec_in_range(self@),
        ensures
            r is Some <==> svec_bounded(svec_reduced(self@)),
            r is Some ==> {
                let v = r->Some_0;
                &&& v@ == svec_reduced(self@)
                &&& svec_eq(v@, self@)
                &&& v.bounded()
            },
    {
        let ax: u128 = if self.x < 0 { (-self.x) as u128 } else { self.x as u128 };
        let ay: u128 = if self.y < 0 { (-self.y) as u128 } else { self.y as u128 };
        let az: u128 = if self.z < 0 { (-self.z) as u128 } else { self.z as u128 };
        let ad: u128 = self.d as u128;
        let g1 = crate::gcd::gcd_u128(ax, ay);
        let g2 = crate::gcd::gcd_u128(g1, az);
        let g = crate::gcd::gcd_u128(g2, ad);
        proof {
            crate::gcd::lemma_gcd_props(ax as int, ay as int);
            crate::gcd::lemma_gcd_props(g1 as int, az as int);
            crate::gcd::lemma_gcd_props(g2 as int, ad as int);
            crate::gcd::lemma_divides_trans(g as int, g2 as int, g1 as int);
            crate::gcd::lemma_divides_trans(g as int, g2 as int, az as int);
            crate::gcd::lemma_divides_trans(g as int, g1 as int, ax as int);
            crate::gcd::lemma_divides_trans(g as int, g1 as int, ay as int);
            assert(crate::gcd::iabs(self@.x) == ax as int);
            crate::gcd::lemma_divides_abs(g as int, self@.x);
            assert(crate::gcd::iabs(self@.y) == ay as int);
            crate::gcd::lemma_divides_abs(g as int, self@.y);
            assert(crate::gcd::iabs(self@.z) == az as int);
            crate::gcd::lemma_divides_abs(g as int, self@.z);
        }
        let qx = ax / g;
        let qy = ay / g;
        let qz = az / g;
        let qd = ad / g;
        proof {
            crate::gcd::lemma_exact_div(ax as int, g as int);
            crate::gcd::lemma_signed_div(self@.x, g as int, qx as int);
            crate::gcd::lemma_exact_div(ay as int, g as int);
            crate::gcd::lemma_signed_div(self@.y, g as int, qy as int);
            crate::gcd::lemma_exact_div(az as int, g as int);
            crate::gcd::lemma_signed_div(self@.z, g as int, qz as int);
            crate::gcd::lemma_exact_div(ad as int, g as int);
            assert(qd as int > 0) by (nonlinear_arith)
                requires (g as int) * (qd as int) == ad as int, ad as int > 0, g as int > 0;
            assert(self@.x == (g as int) * (self@.x / (g as int))) by (nonlinear_arith)
                requires
                    self@.x / (g as int) == (if self@.x < 0 { -(qx as int) } else { qx as int }),
                    (g as int) * (qx as int) == crate::gcd::iabs(self@.x),
                    crate::gcd::iabs(self@.x) == (if self@.x < 0 { -self@.x } else { self@.x }),
            ;
            assert(self@.y == (g as int) * (self@.y / (g as int))) by (nonlinear_arith)
                requires
                    self@.y / (g as int) == (if self@.y < 0 { -(qy as int) } else { qy as int }),
                    (g as int) * (qy as int) == crate::gcd::iabs(self@.y),
                    crate::gcd::iabs(self@.y) == (if self@.y < 0 { -self@.y } else { self@.y }),
            ;
            assert(self@.z == (g as int) * (self@.z / (g as int))) by (nonlinear_arith)
                requires
                    self@.z / (g as int) == (if self@.z < 0 { -(qz as int) } else { qz as int }),
                    (g as int) * (qz as int) == crate::gcd::iabs(self@.z),
                    crate::gcd::iabs(self@.z) == (if self@.z < 0 { -self@.z } else { self@.z }),
            ;
            assert((self@.x / (g as int)) * (ad as int) == self@.x * (qd as int)) by (nonlinear_arith)
                requires
                    self@.x == (g as int) * (self@.x / (g as int)),
                    ad as int == (g as int) * (qd as int),
            ;
            assert((self@.y / (g as int)) * (ad as int) == self@.y * (qd as int)) by (nonlinear_arith)
                requires
                    self@.y == (g as int) * (self@.y / (g as int)),
                    ad as int == (g as int) * (qd as int),
            ;
            assert((self@.z / (g as int)) * (ad as int) == self@.z * (qd as int)) by (nonlinear_arith)
                requires
                    self@.z == (g as int) * (self@.z / (g as int)),
                    ad as int == (g as int) * (qd as int),
            ;
        }
        let limu: u128 = LIM as u128;
        if qx <= limu && qy <= limu && qz <= limu && qd <= limu {
            Some(Vec3 {
                x: if self.x < 0 { -(qx as i128) } else { qx as i128 },
                y: if self.y < 0 { -(qy as i128) } else { qy as i128 },
                z: if self.z < 0 { -(qz as i128) } else { qz as i128 },
                d: qd as i128,
            })
        } else {
            None
        }
    }

    /// The two vectors denote the same value.
    pub fn same_value(&self, other: &Vec3) -> (r: bool)
        requires
            self.bounded(),
            other.bounded(),
        ensures
            r == svec_eq(self@, other@),
    {
        proof {
            lemma_pair_products(self@, other@);
        }
        self.x * other.d == other.x * self.d && self.y * other.d == other.y * self.d
            && self.z * other.d == other.z * self.d
    }
}

/// Every cross product of the parts of two bounded triples stays far
/// inside the machine range, and the product of the denominators is
/// positive.
pub proof fn lemma_pair_products(a: SVec, b: SVec)
    by (nonlinear_arith)
    requires
        svec_bounded(a),
        svec_bounded(b),
    ensures
        -lim() * lim() <= a.x * b.d <= lim() * lim(),
        -lim() * lim() <= a.y * b.d <= lim() * lim(),
        -lim() * lim() <= a.z * b.d <= lim() * lim(),
        -lim() * lim() <= b.x * a.d <= lim() * lim(),
        -lim() * lim() <= b.y * a.d <= lim() * lim(),
        -lim() * lim() <= b.z * a.d <= lim() * lim(),
        0 < a.d * b.d <= lim() * lim(),
{
}

} // verus!
