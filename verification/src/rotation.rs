//! The rotation component: an exact linear map of 3-space.
//!
//! The transform algebra needs of its rotation only that it is a linear
//! map with an exact inverse, so this type carries any such map: nine
//! integer entries over one positive denominator.  Nothing here
//! validates orthonormality; callers are responsible for supplying a
//! proper rotation, and a malformed one gives malformed output rather
//! than an error.

use vstd::prelude::*;
use crate::scalar::{ib, lim, LIM};
use crate::point::Pnt3;
use crate::vector::{svec_bounded, SVec, Vec3};

verus! {

/// Mathematical value of a linear map: the matrix of fractions
/// `m__ / d`.
pub struct SMat {
    pub m00: int,
    pub m01: int,
    pub m02: int,
    pub m10: int,
    pub m11: int,
    pub m12: int,
    pub m20: int,
    pub m21: int,
    pub m22: int,
    pub d: int,
}

/// The denominator is positive.
pub open spec fn smat_wf(m: SMat) -> bool {
    m.d > 0
}

/// Every part is within the operation entry bound.
pub open spec fn smat_bounded(m: SMat) -> bool {
    &&& ib(m.m00) && ib(m.m01) && ib(m.m02)
    &&& ib(m.m10) && ib(m.m11) && ib(m.m12)
    &&& ib(m.m20) && ib(m.m21) && ib(m.m22)
    &&& 0 < m.d && m.d <= lim()
}

/// The identity map.
pub open spec fn smat_id() -> SMat {
    SMat {
        m00: 1,
        m01: 0,
        m02: 0,
        m10: 0,
        m11: 1,
        m12: 0,
        m20: 0,
        m21: 0,
        m22: 1,
        d: 1,
    }
}

/// The two matrices denote the same linear map, entry by entry.
pub open spec fn smat_eq(a: SMat, b: SMat) -> bool {
    &&& a.m00 * b.d == b.m00 * a.d
    &&& a.m01 * b.d == b.m01 * a.d
    &&& a.m02 * b.d == b.m02 * a.d
    &&& a.m10 * b.d == b.m10 * a.d
    &&& a.m11 * b.d == b.m11 * a.d
    &&& a.m12 * b.d == b.m12 * a.d
    &&& a.m20 * b.d == b.m20 * a.d
    &&& a.m21 * b.d == b.m21 * a.d
    &&& a.m22 * b.d == b.m22 * a.d
}

/// Image of the triple `v` under the map.
pub open spec fn smat_apply(m: SMat, v: SVec) -> SVec {
    SVec {
        x: m.m00 * v.x + m.m01 * v.y + m.m02 * v.z,
        y: m.m10 * v.x + m.m11 * v.y + m.m12 * v.z,
        z: m.m20 * v.x + m.m21 * v.y + m.m22 * v.z,
        d: m.d * v.d,
    }
}

/// The map equivalent to applying `first`, then `then`: the matrix
/// product `then * first`.
pub open spec fn smat_mul(first: SMat, then: SMat) -> SMat {
    SMat {
        m00: then.m00 * first.m00 + then.m01 * first.m10 + then.m02 * first.m20,
        m01: then.m00 * first.m01 + then.m01 * first.m11 + then.m02 * first.m21,
        m02: then.m00 * first.m02 + then.m01 * first.m12 + then.m02 * first.m22,
        m10: then.m10 * first.m00 + then.m11 * first.m10 + then.m12 * first.m20,
        m11: then.m10 * first.m01 + then.m11 * first.m11 + then.m12 * first.m21,
        m12: then.m10 * first.m02 + then.m11 * first.m12 + then.m12 * first.m22,
        m20: then.m20 * first.m00 + then.m21 * first.m10 + then.m22 * first.m20,
        m21: then.m20 * first.m01 + then.m21 * first.m11 + then.m22 * first.m21,
        m22: then.m20 * first.m02 + then.m21 * first.m12 + then.m22 * first.m22,
        d: then.d * first.d,
    }
}

/// Determinant of the numerator matrix; the map is invertible exactly
/// when it is not zero.
pub open spec fn smat_det(m: SMat) -> int {
    m.m00 * (m.m11 * m.m22 - m.m12 * m.m21) - m.m01 * (m.m10 * m.m22 - m.m12 * m.m20) + m.m02 * (m.m10 * m.m21 - m.m11 * m.m20)
}

/// The inverse map, defined when the determinant is not zero: the
/// adjugate scaled back by the denominator, brought to a positive
/// denominator.
pub open spec fn smat_inverse(m: SMat) -> SMat {
    let dt = smat_det(m);
    let num = if dt < 0 { -m.d } else { m.d };
    let den = if dt < 0 { -dt } else { dt };
    SMat {
        m00: num * ((m.m11 * m.m22 - m.m12 * m.m21)),
        m01: num * (-(m.m01 * m.m22 - m.m02 * m.m21)),
        m02: num * ((m.m01 * m.m12 - m.m02 * m.m11)),
        m10: num * (-(m.m10 * m.m22 - m.m12 * m.m20)),
        m11: num * ((m.m00 * m.m22 - m.m02 * m.m20)),
        m12: num * (-(m.m00 * m.m12 - m.m02 * m.m10)),
        m20: num * ((m.m10 * m.m21 - m.m11 * m.m20)),
        m21: num * (-(m.m00 * m.m21 - m.m01 * m.m20)),
        m22: num * ((m.m00 * m.m11 - m.m01 * m.m10)),
        d: den,
    }
}

/// Every product of an entry of `b` with an entry of `a` stays far
/// inside the machine range.
pub proof fn lemma_matmul_bounds(a: SMat, b: SMat)
    by (nonlinear_arith)
    requires
        smat_bounded(a),
        smat_bounded(b),
    ensures
        -lim() * lim() <= b.m00 * a.m00 <= lim() * lim(),
        -lim() * lim() <= b.m01 * a.m10 <= lim() * lim(),
        -lim() * lim() <= b.m02 * a.m20 <= lim() * lim(),
        -lim() * lim() <= b.m00 * a.m01 <= lim() * lim(),
        -lim() * lim() <= b.m01 * a.m11 <= lim() * lim(),
        -lim() * lim() <= b.m02 * a.m21 <= lim() * lim(),
        -lim() * lim() <= b.m00 * a.m02 <= lim() * lim(),
        -lim() * lim() <= b.m01 * a.m12 <= lim() * lim(),
        -lim() * lim() <= b.m02 * a.m22 <= lim() * lim(),
        -lim() * lim() <= b.m10 * a.m00 <= lim() * lim(),
        -lim() * lim() <= b.m11 * a.m10 <= lim() * lim(),
        -lim() * lim() <= b.m12 * a.m20 <= lim() * lim(),
        -lim() * lim() <= b.m10 * a.m01 <= lim() * lim(),
        -lim() * lim() <= b.m11 * a.m11 <= lim() * lim(),
        -lim() * lim() <= b.m12 * a.m21 <= lim() * lim(),
        -lim() * lim() <= b.m10 * a.m02 <= lim() * lim(),
        -lim() * lim() <= b.m11 * a.m12 <= lim() * lim(),
        -lim() * lim() <= b.m12 * a.m22 <= lim() * lim(),
        -lim() * lim() <= b.m20 * a.m00 <= lim() * lim(),
        -lim() * lim() <= b.m21 * a.m10 <= lim() * lim(),
        -lim() * lim() <= b.m22 * a.m20 <= lim() * lim(),
        -lim() * lim() <= b.m20 * a.m01 <= lim() * lim(),
        -lim() * lim() <= b.m21 * a.m11 <= lim() * lim(),
        -lim() * lim() <= b.m22 * a.m21 <= lim() * lim(),
        -lim() * lim() <= b.m20 * a.m02 <= lim() * lim(),
        -lim() * lim() <= b.m21 * a.m12 <= lim() * lim(),
        -lim() * lim() <= b.m22 * a.m22 <= lim() * lim(),
        0 < b.d * a.d <= lim() * lim(),
{
}

/// Every product of an entry of the map with a part of the triple stays
/// far inside the machine range.
pub proof fn lemma_apply_bounds(m: SMat, v: SVec)
    by (nonlinear_arith)
    requires
        smat_bounded(m),
        svec_bounded(v),
    ensures
        -lim() * lim() <= m.m00 * v.x <= lim() * lim(),
        -lim() * lim() <= m.m01 * v.y <= lim() * lim(),
        -lim() * lim() <= m.m02 * v.z <= lim() * lim(),
        -lim() * lim() <= m.m10 * v.x <= lim() * lim(),
        -lim() * lim() <= m.m11 * v.y <= lim() * lim(),
        -lim() * lim() <= m.m12 * v.z <= lim() * lim(),
        -lim() * lim() <= m.m20 * v.x <= lim() * lim(),
        -lim() * lim() <= m.m21 * v.y <= lim() * lim(),
        -lim() * lim() <= m.m22 * v.z <= lim() * lim(),
        0 < m.d * v.d <= lim() * lim(),
{
}

/// Every entry leaves room for taking its magnitude.
pub open spec fn smat_in_range(m: SMat) -> bool {
    &&& -(i128::MAX as int) <= m.m00
    &&& -(i128::MAX as int) <= m.m01
    &&& -(i128::MAX as int) <= m.m02
    &&& -(i128::MAX as int) <= m.m10
    &&& -(i128::MAX as int) <= m.m11
    &&& -(i128::MAX as int) <= m.m12
    &&& -(i128::MAX as int) <= m.m20
    &&& -(i128::MAX as int) <= m.m21
    &&& -(i128::MAX as int) <= m.m22
}

/// The matrix with every part divided by the greatest common divisor
/// of all ten.
pub open spec fn smat_reduced(m: SMat) -> SMat {
    let g = crate::gcd::gcd(crate::gcd::gcd(crate::gcd::gcd(crate::gcd::gcd(crate::gcd::gcd(crate::gcd::gcd(crate::gcd::gcd(crate::gcd::gcd(crate::gcd::gcd(crate::gcd::iabs(m.m00), crate::gcd::iabs(m.m01)), crate::gcd::iabs(m.m02)), crate::gcd::iabs(m.m10)), crate::gcd::iabs(m.m11)), crate::gcd::iabs(m.m12)), crate::gcd::iabs(m.m20)), crate::gcd::iabs(m.m21)), crate::gcd::iabs(m.m22)), m.d);
    SMat {
        m00: m.m00 / g,
        m01: m.m01 / g,
        m02: m.m02 / g,
        m10: m.m10 / g,
        m11: m.m11 / g,
        m12: m.m12 / g,
        m20: m.m20 / g,
        m21: m.m21 / g,
        m22: m.m22 / g,
        d: m.d / g,
    }
}

/// An exact linear map: the matrix of fractions `m__ / d`, the rotation
/// component of a decomposed transform.
#[derive(Clone, Copy, Debug)]
pub struct Rot3 {
    pub m00: i128,
    pub m01: i128,
    pub m02: i128,
    pub m10: i128,
    pub m11: i128,
    pub m12: i128,
    pub m20: i128,
    pub m21: i128,
    pub m22: i128,
    pub d: i128,
}

impl View for Rot3 {
    type V = SMat;

    open spec fn view(&self) -> SMat {
        SMat {
            m00: self.m00 as int,
            m01: self.m01 as int,
            m02: self.m02 as int,
            m10: self.m10 as int,
            m11: self.m11 as int,
            m12: self.m12 as int,
            m20: self.m20 as int,
            m21: self.m21 as int,
            m22: self.m22 as int,
            d: self.d as int,
        }
    }
}

impl Rot3 {
    /// The denominator is positive.
    pub open spec fn wf(self) -> bool {
        smat_wf(self@)
    }

    /// The map may enter an arithmetic operation.
    pub open spec fn bounded(self) -> bool {
        smat_bounded(self@)
    }

    /// The identity map.
    pub fn identity() -> (r: Rot3)
        ensures
            r@ == smat_id(),
            r.bounded(),
    {
        Rot3 {
            m00: 1,
            m01: 0,
            m02: 0,
            m10: 0,
            m11: 1,
            m12: 0,
            m20: 0,
            m21: 0,
            m22: 1,
            d: 1,
        }
    }

    /// The map with the given rows over the denominator `d`; absent
    /// exactly when `d` is not positive.
    pub fn new(
        m00: i128, m01: i128, m02: i128,
        m10: i128, m11: i128, m12: i128,
        m20: i128, m21: i128, m22: i128,
        d: i128,
    ) -> (r: Option<Rot3>)
        requires
            ib(m00 as int), ib(m01 as int), ib(m02 as int),
            ib(m10 as int), ib(m11 as int), ib(m12 as int),
            ib(m20 as int), ib(m21 as int), ib(m22 as int),
            ib(d as int),
        ensures
            r is Some <==> d > 0,
            r is Some ==> {
                let v = r->Some_0;
                &&& v.bounded()
                &&& v@ == (SMat {
                    m00: m00 as int, m01: m01 as int, m02: m02 as int,
                    m10: m10 as int, m11: m11 as int, m12: m12 as int,
                    m20: m20 as int, m21: m21 as int, m22: m22 as int,
                    d: d as int,
                })
            },
    {
        if d <= 0 {
            None
        } else {
            Some(Rot3 { m00, m01, m02, m10, m11, m12, m20, m21, m22, d })
        }
    }

    /// Image of a free vector under the map.
    pub fn rotate_vector(&self, v: &Vec3) -> (r: Vec3)
        requires
            self.bounded(),
            v.bounded(),
        ensures
            r@ == smat_apply(self@, v@),
            r.wf(),
    {
        proof {
            lemma_apply_bounds(self@, v@);
        }
        Vec3 {
            x: self.m00 * v.x + self.m01 * v.y + self.m02 * v.z,
            y: self.m10 * v.x + self.m11 * v.y + self.m12 * v.z,
            z: self.m20 * v.x + self.m21 * v.y + self.m22 * v.z,
            d: self.d * v.d,
        }
    }

    /// Image of a point under the map; a pure rotation moves positions
    /// and directions alike.
    pub fn rotate_point(&self, p: &Pnt3) -> (r: Pnt3)
        requires
            self.bounded(),
            p.bounded(),
        ensures
            r@ == smat_apply(self@, p@),
            r.wf(),
    {
        proof {
            lemma_apply_bounds(self@, p@);
        }
        Pnt3 {
            x: self.m00 * p.x + self.m01 * p.y + self.m02 * p.z,
            y: self.m10 * p.x + self.m11 * p.y + self.m12 * p.z,
            z: self.m20 * p.x + self.m21 * p.y + self.m22 * p.z,
            d: self.d * p.d,
        }
    }

    /// The map equivalent to applying `self`, then `other`.
    pub fn concat(&self, other: &Rot3) -> (r: Rot3)
        requires
            self.bounded(),
            other.bounded(),
        ensures
            r@ == smat_mul(self@, other@),
            r.wf(),
    {
        proof {
            lemma_matmul_bounds(self@, other@);
        }
        Rot3 {
            m00: other.m00 * self.m00 + other.m01 * self.m10 + other.m02 * self.m20,
            m01: other.m00 * self.m01 + other.m01 * self.m11 + other.m02 * self.m21,
            m02: other.m00 * self.m02 + other.m01 * self.m12 + other.m02 * self.m22,
            m10: other.m10 * self.m00 + other.m11 * self.m10 + other.m12 * self.m20,
            m11: other.m10 * self.m01 + other.m11 * self.m11 + other.m12 * self.m21,
            m12: other.m10 * self.m02 + other.m11 * self.m12 + other.m12 * self.m22,
            m20: other.m20 * self.m00 + other.m21 * self.m10 + other.m22 * self.m20,
            m21: other.m20 * self.m01 + other.m21 * self.m11 + other.m22 * self.m21,
            m22: other.m20 * self.m02 + other.m21 * self.m12 + other.m22 * self.m22,
            d: other.d * self.d,
        }
    }

    /// The same map brought to lowest terms; absent exactly when even
    /// the reduced parts exceed the operation entry bound.  This is how
    /// a map grown by composition or inversion re-enters the bounded
    /// domain.
    #[verifier::rlimit(100)]
    pub fn reduce(&self) -> (r: Option<Rot3>)
        requires
            self.wf(),
            smat_in_range(self@),
        ensures
            r is Some <==> smat_bounded(smat_reduced(self@)),
            r is Some ==> {
                let v = r->Some_0;
                &&& v@ == smat_reduced(self@)
                &&& smat_eq(v@, self@)
                &&& v.bounded()
            },
    {
        let am00: u128 = if self.m00 < 0 { (-self.m00) as u128 } else { self.m00 as u128 };
        let am01: u128 = if self.m01 < 0 { (-self.m01) as u128 } else { self.m01 as u128 };
        let am02: u128 = if self.m02 < 0 { (-self.m02) as u128 } else { self.m02 as u128 };
        let am10: u128 = if self.m10 < 0 { (-self.m10) as u128 } else { self.m10 as u128 };
        let am11: u128 = if self.m11 < 0 { (-self.m11) as u128 } else { self.m11 as u128 };
        let am12: u128 = if self.m12 < 0 { (-self.m12) as u128 } else { self.m12 as u128 };
        let am20: u128 = if self.m20 < 0 { (-self.m20) as u128 } else { self.m20 as u128 };
        let am21: u128 = if self.m21 < 0 { (-self.m21) as u128 } else { self.m21 as u128 };
        let am22: u128 = if self.m22 < 0 { (-self.m22) as u128 } else { self.m22 as u128 };
        let ad: u128 = self.d as u128;
        let g1 = crate::gcd::gcd_u128(am00, am01);
        let g2 = crate::gcd::gcd_u128(g1, am02);
        let g3 = crate::gcd::gcd_u128(g2, am10);
        let g4 = crate::gcd::gcd_u128(g3, am11);
        let g5 = crate::gcd::gcd_u128(g4, am12);
        let g6 = crate::gcd::gcd_u128(g5, am20);
        let g7 = crate::gcd::gcd_u128(g6, am21);
        let g8 = crate::gcd::gcd_u128(g7, am22);
        let g = crate::gcd::gcd_u128(g8, ad);
        proof {
            crate::gcd::lemma_gcd_props(am00 as int, am01 as int);
            crate::gcd::lemma_gcd_props(g1 as int, am02 as int);
            crate::gcd::lemma_gcd_props(g2 as int, am10 as int);
            crate::gcd::lemma_gcd_props(g3 as int, am11 as int);
            crate::gcd::lemma_gcd_props(g4 as int, am12 as int);
            crate::gcd::lemma_gcd_props(g5 as int, am20 as int);
            crate::gcd::lemma_gcd_props(g6 as int, am21 as int);
            crate::gcd::lemma_gcd_props(g7 as int, am22 as int);
            crate::gcd::lemma_gcd_props(g8 as int, ad as int);
            crate::gcd::lemma_divides_trans(g as int, g8 as int, g7 as int);
            crate::gcd::lemma_divides_trans(g as int, g8 as int, am22 as int);
            crate::gcd::lemma_divides_trans(g as int, g7 as int, g6 as int);
            crate::gcd::lemma_divides_trans(g as int, g7 as int, am21 as int);
            crate::gcd::lemma_divides_trans(g as int, g6 as int, g5 as int);
            crate::gcd::lemma_divides_trans(g as int, g6 as int, am20 as int);
            crate::gcd::lemma_divides_trans(g as int, g5 as int, g4 as int);
            crate::gcd::lemma_divides_trans(g as int, g5 as int, am12 as int);
            crate::gcd::lemma_divides_trans(g as int, g4 as int, g3 as int);
            crate::gcd::lemma_divides_trans(g as int, g4 as int, am11 as int);
            crate::gcd::lemma_divides_trans(g as int, g3 as int, g2 as int);
            crate::gcd::lemma_divides_trans(g as int, g3 as int, am10 as int);
            crate::gcd::lemma_divides_trans(g as int, g2 as int, g1 as int);
            crate::gcd::lemma_divides_trans(g as int, g2 as int, am02 as int);
            crate::gcd::lemma_divides_trans(g as int, g1 as int, am00 as int);
            crate::gcd::lemma_divides_trans(g as int, g1 as int, am01 as int);
            assert(crate::gcd::iabs(self@.m00) == am00 as int);
            crate::gcd::lemma_divides_abs(g as int, self@.m00);
            assert(crate::gcd::iabs(self@.m01) == am01 as int);
            crate::gcd::lemma_divides_abs(g as int, self@.m01);
            assert(crate::gcd::iabs(self@.m02) == am02 as int);
            crate::gcd::lemma_divides_abs(g as int, self@.m02);
            assert(crate::gcd::iabs(self@.m10) == am10 as int);
            crate::gcd::lemma_divides_abs(g as int, self@.m10);
            assert(crate::gcd::iabs(self@.m11) == am11 as int);
            crate::gcd::lemma_divides_abs(g as int, self@.m11);
            assert(crate::gcd::iabs(self@.m12) == am12 as int);
            crate::gcd::lemma_divides_abs(g as int, self@.m12);
            assert(crate::gcd::iabs(self@.m20) == am20 as int);
            crate::gcd::lemma_divides_abs(g as int, self@.m20);
            assert(crate::gcd::iabs(self@.m21) == am21 as int);
            crate::gcd::lemma_divides_abs(g as int, self@.m21);
            assert(crate::gcd::iabs(self@.m22) == am22 as int);
            crate::gcd::lemma_divides_abs(g as int, self@.m22);
        }
        let qm00 = am00 / g;
        let qm01 = am01 / g;
        let qm02 = am02 / g;
        let qm10 = am10 / g;
        let qm11 = am11 / g;
        let qm12 = am12 / g;
        let qm20 = am20 / g;
        let qm21 = am21 / g;
        let qm22 = am22 / g;
        let qd = ad / g;
        proof {
            crate::gcd::lemma_exact_div(am00 as int, g as int);
            crate::gcd::lemma_signed_div(self@.m00, g as int, qm00 as int);
            crate::gcd::lemma_exact_div(am01 as int, g as int);
            crate::gcd::lemma_signed_div(self@.m01, g as int, qm01 as int);
            crate::gcd::lemma_exact_div(am02 as int, g as int);
            crate::gcd::lemma_signed_div(self@.m02, g as int, qm02 as int);
            crate::gcd::lemma_exact_div(am10 as int, g as int);
            crate::gcd::lemma_signed_div(self@.m10, g as int, qm10 as int);
            crate::gcd::lemma_exact_div(am11 as int, g as int);
            crate::gcd::lemma_signed_div(self@.m11, g as int, qm11 as int);
            crate::gcd::lemma_exact_div(am12 as int, g as int);
            crate::gcd::lemma_signed_div(self@.m12, g as int, qm12 as int);
            crate::gcd::lemma_exact_div(am20 as int, g as int);
            crate::gcd::lemma_signed_div(self@.m20, g as int, qm20 as int);
            crate::gcd::lemma_exact_div(am21 as int, g as int);
            crate::gcd::lemma_signed_div(self@.m21, g as int, qm21 as int);
            crate::gcd::lemma_exact_div(am22 as int, g as int);
            crate::gcd::lemma_signed_div(self@.m22, g as int, qm22 as int);
            crate::gcd::lemma_exact_div(ad as int, g as int);
            assert(qd as int > 0) by (nonlinear_arith)
                requires (g as int) * (qd as int) == ad as int, ad as int > 0, g as int > 0;
            assert(self@.m00 == (g as int) * (self@.m00 / (g as int))) by (nonlinear_arith)
                requires
                    self@.m00 / (g as int) == (if self@.m00 < 0 { -(qm00 as int) } else { qm00 as int }),
                    (g as int) * (qm00 as int) == crate::gcd::iabs(self@.m00),
                    crate::gcd::iabs(self@.m00) == (if self@.m00 < 0 { -self@.m00 } else { self@.m00 }),
            ;
            assert(self@.m01 == (g as int) * (self@.m01 / (g as int))) by (nonlinear_arith)
                requires
                    self@.m01 / (g as int) == (if self@.m01 < 0 { -(qm01 as int) } else { qm01 as int }),
                    (g as int) * (qm01 as int) == crate::gcd::iabs(self@.m01),
                    crate::gcd::iabs(self@.m01) == (if self@.m01 < 0 { -self@.m01 } else { self@.m01 }),
            ;
            assert(self@.m02 == (g as int) * (self@.m02 / (g as int))) by (nonlinear_arith)
                requires
                    self@.m02 / (g as int) == (if self@.m02 < 0 { -(qm02 as int) } else { qm02 as int }),
                    (g as int) * (qm02 as int) == crate::gcd::iabs(self@.m02),
                    crate::gcd::iabs(self@.m02) == (if self@.m02 < 0 { -self@.m02 } else { self@.m02 }),
            ;
            assert(self@.m10 == (g as int) * (self@.m10 / (g as int))) by (nonlinear_arith)
                requires
                    self@.m10 / (g as int) == (if self@.m10 < 0 { -(qm10 as int) } else { qm10 as int }),
                    (g as int) * (qm10 as int) == crate::gcd::iabs(self@.m10),
                    crate::gcd::iabs(self@.m10) == (if self@.m10 < 0 { -self@.m10 } else { self@.m10 }),
            ;
            assert(self@.m11 == (g as int) * (self@.m11 / (g as int))) by (nonlinear_arith)
                requires
                    self@.m11 / (g as int) == (if self@.m11 < 0 { -(qm11 as int) } else { qm11 as int }),
                    (g as int) * (qm11 as int) == crate::gcd::iabs(self@.m11),
                    crate::gcd::iabs(self@.m11) == (if self@.m11 < 0 { -self@.m11 } else { self@.m11 }),
            ;
            assert(self@.m12 == (g as int) * (self@.m12 / (g as int))) by (nonlinear_arith)
                requires
                    self@.m12 / (g as int) == (if self@.m12 < 0 { -(qm12 as int) } else { qm12 as int }),
                    (g as int) * (qm12 as int) == crate::gcd::iabs(self@.m12),
                    crate::gcd::iabs(self@.m12) == (if self@.m12 < 0 { -self@.m12 } else { self@.m12 }),
            ;
            assert(self@.m20 == (g as int) * (self@.m20 / (g as int))) by (nonlinear_arith)
                requires
                    self@.m20 / (g as int) == (if self@.m20 < 0 { -(qm20 as int) } else { qm20 as int }),
                    (g as int) * (qm20 as int) == crate::gcd::iabs(self@.m20),
                    crate::gcd::iabs(self@.m20) == (if self@.m20 < 0 { -self@.m20 } else { self@.m20 }),
            ;
            assert(self@.m21 == (g as int) * (self@.m21 / (g as int))) by (nonlinear_arith)
                requires
                    self@.m21 / (g as int) == (if self@.m21 < 0 { -(qm21 as int) } else { qm21 as int }),
                    (g as int) * (qm21 as int) == crate::gcd::iabs(self@.m21),
                    crate::gcd::iabs(self@.m21) == (if self@.m21 < 0 { -self@.m21 } else { self@.m21 }),
            ;
            assert(self@.m22 == (g as int) * (self@.m22 / (g as int))) by (nonlinear_arith)
                requires
                    self@.m22 / (g as int) == (if self@.m22 < 0 { -(qm22 as int) } else { qm22 as int }),
                    (g as int) * (qm22 as int) == crate::gcd::iabs(self@.m22),
                    crate::gcd::iabs(self@.m22) == (if self@.m22 < 0 { -self@.m22 } else { self@.m22 }),
            ;
            assert((self@.m00 / (g as int)) * (ad as int) == self@.m00 * (qd as int)) by (nonlinear_arith)
                requires
                    self@.m00 == (g as int) * (self@.m00 / (g as int)),
                    ad as int == (g as int) * (qd as int),
            ;
            assert((self@.m01 / (g as int)) * (ad as int) == self@.m01 * (qd as int)) by (nonlinear_arith)
                requires
                    self@.m01 == (g as int) * (self@.m01 / (g as int)),
                    ad as int == (g as int) * (qd as int),
            ;
            assert((self@.m02 / (g as int)) * (ad as int) == self@.m02 * (qd as int)) by (nonlinear_arith)
                requires
                    self@.m02 == (g as int) * (self@.m02 / (g as int)),
                    ad as int == (g as int) * (qd as int),
            ;
            assert((self@.m10 / (g as int)) * (ad as int) == self@.m10 * (qd as int)) by (nonlinear_arith)
                requires
                    self@.m10 == (g as int) * (self@.m10 / (g as int)),
                    ad as int == (g as int) * (qd as int),
            ;
            assert((self@.m11 / (g as int)) * (ad as int) == self@.m11 * (qd as int)) by (nonlinear_arith)
                requires
                    self@.m11 == (g as int) * (self@.m11 / (g as int)),
                    ad as int == (g as int) * (qd as int),
            ;
            assert((self@.m12 / (g as int)) * (ad as int) == self@.m12 * (qd as int)) by (nonlinear_arith)
                requires
                    self@.m12 == (g as int) * (self@.m12 / (g as int)),
                    ad as int == (g as int) * (qd as int),
            ;
            assert((self@.m20 / (g as int)) * (ad as int) == self@.m20 * (qd as int)) by (nonlinear_arith)
                requires
                    self@.m20 == (g as int) * (self@.m20 / (g as int)),
                    ad as int == (g as int) * (qd as int),
            ;
            assert((self@.m21 / (g as int)) * (ad as int) == self@.m21 * (qd as int)) by (nonlinear_arith)
                requires
                    self@.m21 == (g as int) * (self@.m21 / (g as int)),
                    ad as int == (g as int) * (qd as int),
            ;
            assert((self@.m22 / (g as int)) * (ad as int) == self@.m22 * (qd as int)) by (nonlinear_arith)
                requires
                    self@.m22 == (g as int) * (self@.m22 / (g as int)),
                    ad as int == (g as int) * (qd as int),
            ;
        }
        let limu: u128 = LIM as u128;
        if qm00 <= limu && qm01 <= limu && qm02 <= limu && qm10 <= limu && qm11 <= limu && qm12 <= limu && qm20 <= limu && qm21 <= limu && qm22 <= limu && qd <= limu {
            Some(Rot3 {
                m00: if self.m00 < 0 { -(qm00 as i128) } else { qm00 as i128 },
                m01: if self.m01 < 0 { -(qm01 as i128) } else { qm01 as i128 },
                m02: if self.m02 < 0 { -(qm02 as i128) } else { qm02 as i128 },
                m10: if self.m10 < 0 { -(qm10 as i128) } else { qm10 as i128 },
                m11: if self.m11 < 0 { -(qm11 as i128) } else { qm11 as i128 },
                m12: if self.m12 < 0 { -(qm12 as i128) } else { qm12 as i128 },
                m20: if self.m20 < 0 { -(qm20 as i128) } else { qm20 as i128 },
                m21: if self.m21 < 0 { -(qm21 as i128) } else { qm21 as i128 },
                m22: if self.m22 < 0 { -(qm22 as i128) } else { qm22 as i128 },
                d: qd as i128,
            })
        } else {
            None
        }
    }

    /// The inverse map, absent exactly when the determinant is zero.
    pub fn invert(&self) -> (r: Option<Rot3>)
        requires
            self.bounded(),
        ensures
            r is Some <==> smat_det(self@) != 0,
            r is Some ==> {
                let v = r->Some_0;
                &&& v@ == smat_inverse(self@)
                &&& v.wf()
                &&& -6 * lim() * lim() * lim() <= v@.m00 <= 6 * lim() * lim() * lim()
                &&& -6 * lim() * lim() * lim() <= v@.m01 <= 6 * lim() * lim() * lim()
                &&& -6 * lim() * lim() * lim() <= v@.m02 <= 6 * lim() * lim() * lim()
                &&& -6 * lim() * lim() * lim() <= v@.m10 <= 6 * lim() * lim() * lim()
                &&& -6 * lim() * lim() * lim() <= v@.m11 <= 6 * lim() * lim() * lim()
                &&& -6 * lim() * lim() * lim() <= v@.m12 <= 6 * lim() * lim() * lim()
                &&& -6 * lim() * lim() * lim() <= v@.m20 <= 6 * lim() * lim() * lim()
                &&& -6 * lim() * lim() * lim() <= v@.m21 <= 6 * lim() * lim() * lim()
                &&& -6 * lim() * lim() * lim() <= v@.m22 <= 6 * lim() * lim() * lim()
                &&& 0 < v@.d <= 6 * lim() * lim() * lim()
            },
    {
        proof {
            lemma_matmul_bounds(self@, self@);
            assert(-2 * lim() * lim() <= ((self@.m11 * self@.m22 - self@.m12 * self@.m21)) <= 2 * lim() * lim()) by (nonlinear_arith)
                requires smat_bounded(self@);
            assert(-2 * lim() * lim() <= (-(self@.m01 * self@.m22 - self@.m02 * self@.m21)) <= 2 * lim() * lim()) by (nonlinear_arith)
                requires smat_bounded(self@);
            assert(-2 * lim() * lim() <= ((self@.m01 * self@.m12 - self@.m02 * self@.m11)) <= 2 * lim() * lim()) by (nonlinear_arith)
                requires smat_bounded(self@);
            assert(-2 * lim() * lim() <= (-(self@.m10 * self@.m22 - self@.m12 * self@.m20)) <= 2 * lim() * lim()) by (nonlinear_arith)
                requires smat_bounded(self@);
            assert(-2 * lim() * lim() <= ((self@.m00 * self@.m22 - self@.m02 * self@.m20)) <= 2 * lim() * lim()) by (nonlinear_arith)
                requires smat_bounded(self@);
            assert(-2 * lim() * lim() <= (-(self@.m00 * self@.m12 - self@.m02 * self@.m10)) <= 2 * lim() * lim()) by (nonlinear_arith)
                requires smat_bounded(self@);
            assert(-2 * lim() * lim() <= ((self@.m10 * self@.m21 - self@.m11 * self@.m20)) <= 2 * lim() * lim()) by (nonlinear_arith)
                requires smat_bounded(self@);
            assert(-2 * lim() * lim() <= (-(self@.m00 * self@.m21 - self@.m01 * self@.m20)) <= 2 * lim() * lim()) by (nonlinear_arith)
                requires smat_bounded(self@);
            assert(-2 * lim() * lim() <= ((self@.m00 * self@.m11 - self@.m01 * self@.m10)) <= 2 * lim() * lim()) by (nonlinear_arith)
                requires smat_bounded(self@);
        }
        let c0: i128 = self.m11 * self.m22 - self.m12 * self.m21;
        let c1: i128 = self.m10 * self.m22 - self.m12 * self.m20;
        let c2: i128 = self.m10 * self.m21 - self.m11 * self.m20;
        proof {
            assert(-2 * lim() * lim() * lim() <= self@.m00 * (c0 as int) <= 2 * lim() * lim() * lim())
                by (nonlinear_arith)
                requires
                    -lim() <= self@.m00 <= lim(),
                    -2 * lim() * lim() <= c0 as int <= 2 * lim() * lim();
            assert(-2 * lim() * lim() * lim() <= self@.m01 * (c1 as int) <= 2 * lim() * lim() * lim())
                by (nonlinear_arith)
                requires
                    -lim() <= self@.m01 <= lim(),
                    -2 * lim() * lim() <= c1 as int <= 2 * lim() * lim();
            assert(-2 * lim() * lim() * lim() <= self@.m02 * (c2 as int) <= 2 * lim() * lim() * lim())
                by (nonlinear_arith)
                requires
                    -lim() <= self@.m02 <= lim(),
                    -2 * lim() * lim() <= c2 as int <= 2 * lim() * lim();
        }
        let det: i128 = self.m00 * c0 - self.m01 * c1 + self.m02 * c2;
        if det == 0 {
            return None;
        }
        let num: i128 = if det < 0 { -self.d } else { self.d };
        let a00: i128 = (self.m11 * self.m22 - self.m12 * self.m21);
        let a01: i128 = -(self.m01 * self.m22 - self.m02 * self.m21);
        let a02: i128 = (self.m01 * self.m12 - self.m02 * self.m11);
        let a10: i128 = -(self.m10 * self.m22 - self.m12 * self.m20);
        let a11: i128 = (self.m00 * self.m22 - self.m02 * self.m20);
        let a12: i128 = -(self.m00 * self.m12 - self.m02 * self.m10);
        let a20: i128 = (self.m10 * self.m21 - self.m11 * self.m20);
        let a21: i128 = -(self.m00 * self.m21 - self.m01 * self.m20);
        let a22: i128 = (self.m00 * self.m11 - self.m01 * self.m10);
        proof {
            assert(-2 * lim() * lim() * lim() <= (num as int) * (a00 as int) <= 2 * lim() * lim() * lim()) by (nonlinear_arith)
                requires -lim() <= num as int <= lim(), -2 * lim() * lim() <= a00 as int <= 2 * lim() * lim();
            assert(-2 * lim() * lim() * lim() <= (num as int) * (a01 as int) <= 2 * lim() * lim() * lim()) by (nonlinear_arith)
                requires -lim() <= num as int <= lim(), -2 * lim() * lim() <= a01 as int <= 2 * lim() * lim();
            assert(-2 * lim() * lim() * lim() <= (num as int) * (a02 as int) <= 2 * lim() * lim() * lim()) by (nonlinear_arith)
                requires -lim() <= num as int <= lim(), -2 * lim() * lim() <= a02 as int <= 2 * lim() * lim();
            assert(-2 * lim() * lim() * lim() <= (num as int) * (a10 as int) <= 2 * lim() * lim() * lim()) by (nonlinear_arith)
                requires -lim() <= num as int <= lim(), -2 * lim() * lim() <= a10 as int <= 2 * lim() * lim();
            assert(-2 * lim() * lim() * lim() <= (num as int) * (a11 as int) <= 2 * lim() * lim() * lim()) by (nonlinear_arith)
                requires -lim() <= num as int <= lim(), -2 * lim() * lim() <= a11 as int <= 2 * lim() * lim();
            assert(-2 * lim() * lim() * lim() <= (num as int) * (a12 as int) <= 2 * lim() * lim() * lim()) by (nonlinear_arith)
                requires -lim() <= num as int <= lim(), -2 * lim() * lim() <= a12 as int <= 2 * lim() * lim();
            assert(-2 * lim() * lim() * lim() <= (num as int) * (a20 as int) <= 2 * lim() * lim() * lim()) by (nonlinear_arith)
                requires -lim() <= num as int <= lim(), -2 * lim() * lim() <= a20 as int <= 2 * lim() * lim();
            assert(-2 * lim() * lim() * lim() <= (num as int) * (a21 as int) <= 2 * lim() * lim() * lim()) by (nonlinear_arith)
                requires -lim() <= num as int <= lim(), -2 * lim() * lim() <= a21 as int <= 2 * lim() * lim();
            assert(-2 * lim() * lim() * lim() <= (num as int) * (a22 as int) <= 2 * lim() * lim() * lim()) by (nonlinear_arith)
                requires -lim() <= num as int <= lim(), -2 * lim() * lim() <= a22 as int <= 2 * lim() * lim();
        }
        Some(Rot3 {
            m00: num * a00,
            m01: num * a01,
            m02: num * a02,
            m10: num * a10,
            m11: num * a11,
            m12: num * a12,
            m20: num * a20,
            m21: num * a21,
            m22: num * a22,
            d: if det < 0 { -det } else { det },
        })
    }
}

} // verus!
