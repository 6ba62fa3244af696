//! The dense homogeneous-matrix representation of a transform.
//!
//! An [`AffineMatrix3`] carries the affine map directly as the entries
//! of its matrix: the linear part, the translation column, and one
//! positive denominator; the homogeneous bottom row is implicit.  Its
//! model is therefore the stored numbers themselves, which makes it the
//! canonical representation for downstream consumption, while
//! [`crate::transform::Decomposed`] remains the information-preserving
//! one.  [`crate::transform::Decomposed::to_matrix4`] converts
//! losslessly; the converse would need a numerical decomposition and is
//! not provided.

use vstd::prelude::*;
use crate::model::{aff_apply_pt, aff_apply_vec, aff_compose, aff_eq, aff_id, AffModel};
use crate::point::Pnt3;
use crate::ray::Ray3;
use crate::scalar::{ib, lim, lemma_mul_bound, lemma_mul_pos};
use crate::transform::Decomposed;
use crate::vector::{svec_eq, SVec, Vec3};

verus! {

/// Every entry of the model is within the operation entry bound.
pub open spec fn aff_bounded(m: AffModel) -> bool {
    &&& ib(m.m00) && ib(m.m01) && ib(m.m02)
    &&& ib(m.m10) && ib(m.m11) && ib(m.m12)
    &&& ib(m.m20) && ib(m.m21) && ib(m.m22)
    &&& ib(m.t0) && ib(m.t1) && ib(m.t2)
    &&& 0 < m.d && m.d <= lim()
}

/// Every product of an entry of `b` with an entry of `a` stays far
/// inside the machine range.
pub proof fn lemma_concat_bounds(a: AffModel, b: AffModel)
    by (nonlinear_arith)
    requires
        aff_bounded(a),
        aff_bounded(b),
    ensures
        -lim() * lim() <= b.m00 * a.m00 <= lim() * lim(),
        -lim() * lim() <= b.m00 * a.m01 <= lim() * lim(),
        -lim() * lim() <= b.m00 * a.m02 <= lim() * lim(),
        -lim() * lim() <= b.m00 * a.t0 <= lim() * lim(),
        -lim() * lim() <= b.m01 * a.m10 <= lim() * lim(),
        -lim() * lim() <= b.m01 * a.m11 <= lim() * lim(),
        -lim() * lim() <= b.m01 * a.m12 <= lim() * lim(),
        -lim() * lim() <= b.m01 * a.t1 <= lim() * lim(),
        -lim() * lim() <= b.m02 * a.m20 <= lim() * lim(),
        -lim() * lim() <= b.m02 * a.m21 <= lim() * lim(),
        -lim() * lim() <= b.m02 * a.m22 <= lim() * lim(),
        -lim() * lim() <= b.m02 * a.t2 <= lim() * lim(),
        -lim() * lim() <= b.t0 * a.d <= lim() * lim(),
        -lim() * lim() <= b.m10 * a.m00 <= lim() * lim(),
        -lim() * lim() <= b.m10 * a.m01 <= lim() * lim(),
        -lim() * lim() <= b.m10 * a.m02 <= lim() * lim(),
        -lim() * lim() <= b.m10 * a.t0 <= lim() * lim(),
        -lim() * lim() <= b.m11 * a.m10 <= lim() * lim(),
        -lim() * lim() <= b.m11 * a.m11 <= lim() * lim(),
        -lim() * lim() <= b.m11 * a.m12 <= lim() * lim(),
        -lim() * lim() <= b.m11 * a.t1 <= lim() * lim(),
        -lim() * lim() <= b.m12 * a.m20 <= lim() * lim(),
        -lim() * lim() <= b.m12 * a.m21 <= lim() * lim(),
        -lim() * lim() <= b.m12 * a.m22 <= lim() * lim(),
        -lim() * lim() <= b.m12 * a.t2 <= lim() * lim(),
        -lim() * lim() <= b.t1 * a.d <= lim() * lim(),
        -lim() * lim() <= b.m20 * a.m00 <= lim() * lim(),
        -lim() * lim() <= b.m20 * a.m01 <= lim() * lim(),
        -lim() * lim() <= b.m20 * a.m02 <= lim() * lim(),
        -lim() * lim() <= b.m20 * a.t0 <= lim() * lim(),
        -lim() * lim() <= b.m21 * a.m10 <= lim() * lim(),
        -lim() * lim() <= b.m21 * a.m11 <= lim() * lim(),
        -lim() * lim() <= b.m21 * a.m12 <= lim() * lim(),
        -lim() * lim() <= b.m21 * a.t1 <= lim() * lim(),
        -lim() * lim() <= b.m22 * a.m20 <= lim() * lim(),
        -lim() * lim() <= b.m22 * a.m21 <= lim() * lim(),
        -lim() * lim() <= b.m22 * a.m22 <= lim() * lim(),
        -lim() * lim() <= b.m22 * a.t2 <= lim() * lim(),
        -lim() * lim() <= b.t2 * a.d <= lim() * lim(),
        0 < b.d * a.d <= lim() * lim(),
{
}

/// Every product of an entry of the map with a part of the triple stays
/// far inside the machine range.
pub proof fn lemma_mat_apply_bounds(m: AffModel, v: SVec)
    by (nonlinear_arith)
    requires
        aff_bounded(m),
        crate::vector::svec_bounded(v),
    ensures
        -lim() * lim() <= m.m00 * v.x <= lim() * lim(),
        -lim() * lim() <= m.m01 * v.y <= lim() * lim(),
        -lim() * lim() <= m.m02 * v.z <= lim() * lim(),
        -lim() * lim() <= m.t0 * v.d <= lim() * lim(),
        -lim() * lim() <= m.m10 * v.x <= lim() * lim(),
        -lim() * lim() <= m.m11 * v.y <= lim() * lim(),
        -lim() * lim() <= m.m12 * v.z <= lim() * lim(),
        -lim() * lim() <= m.t1 * v.d <= lim() * lim(),
        -lim() * lim() <= m.m20 * v.x <= lim() * lim(),
        -lim() * lim() <= m.m21 * v.y <= lim() * lim(),
        -lim() * lim() <= m.m22 * v.z <= lim() * lim(),
        -lim() * lim() <= m.t2 * v.d <= lim() * lim(),
        0 < m.d * v.d <= lim() * lim(),
{
}

/// A homogeneous transformation matrix: the affine map's entries over
/// one positive denominator, bottom row implicit.
#[derive(Clone, Copy, Debug)]
pub struct AffineMatrix3 {
    pub m00: i128,
    pub m01: i128,
    pub m02: i128,
    pub m10: i128,
    pub m11: i128,
    pub m12: i128,
    pub m20: i128,
    pub m21: i128,
    pub m22: i128,
    pub t0: i128,
    pub t1: i128,
    pub t2: i128,
    pub d: i128,
}

impl AffineMatrix3 {
    /// The affine map this matrix denotes: its own entries.
    pub open spec fn model(self) -> AffModel {
        AffModel {
            m00: self.m00 as int,
            m01: self.m01 as int,
            m02: self.m02 as int,
            m10: self.m10 as int,
            m11: self.m11 as int,
            m12: self.m12 as int,
            m20: self.m20 as int,
            m21: self.m21 as int,
            m22: self.m22 as int,
            t0: self.t0 as int,
            t1: self.t1 as int,
            t2: self.t2 as int,
            d: self.d as int,
        }
    }

    /// The denominator is positive.
    pub open spec fn wf(self) -> bool {
        self.d > 0
    }

    /// The matrix may enter an arithmetic operation.
    pub open spec fn bounded(self) -> bool {
        aff_bounded(self.model())
    }

    /// The identity matrix.
    pub fn identity() -> (r: AffineMatrix3)
        ensures
            r.model() == aff_id(),
            r.wf(),
            r.bounded(),
    {
        AffineMatrix3 {
            m00: 1,
            m01: 0,
            m02: 0,
            m10: 0,
            m11: 1,
            m12: 0,
            m20: 0,
            m21: 0,
            m22: 1,
            t0: 0,
            t1: 0,
            t2: 0,
            d: 1,
        }
    }

    /// Image of a free vector: the linear part only; a direction is
    /// marked by a zero homogeneous component and never translated.
    pub fn transform_vector(&self, v: &Vec3) -> (r: Vec3)
        requires
            self.wf(),
            self.bounded(),
            v.bounded(),
        ensures
            r.wf(),
            r@ == aff_apply_vec(self.model(), v@),
            svec_eq(r@, aff_apply_vec(self.model(), v@)),
    {
        proof {
            lemma_mat_apply_bounds(self.model(), v@);
        }
        Vec3 {
            x: self.m00 * v.x + self.m01 * v.y + self.m02 * v.z,
            y: self.m10 * v.x + self.m11 * v.y + self.m12 * v.z,
            z: self.m20 * v.x + self.m21 * v.y + self.m22 * v.z,
            d: self.d * v.d,
        }
    }

    /// Image of a point: the linear part, then the translation that the
    /// point's unit homogeneous component brings in.
    pub fn transform_point(&self, p: &Pnt3) -> (r: Pnt3)
        requires
            self.wf(),
            self.bounded(),
            p.bounded(),
        ensures
            r.wf(),
            r@ == aff_apply_pt(self.model(), p@),
            svec_eq(r@, aff_apply_pt(self.model(), p@)),
    {
        proof {
            lemma_mat_apply_bounds(self.model(), p@);
        }
        Pnt3 {
            x: self.m00 * p.x + self.m01 * p.y + self.m02 * p.z + self.t0 * p.d,
            y: self.m10 * p.x + self.m11 * p.y + self.m12 * p.z + self.t1 * p.d,
            z: self.m20 * p.x + self.m21 * p.y + self.m22 * p.z + self.t2 * p.d,
            d: self.d * p.d,
        }
    }

    /// Image of a ray: the origin moves as a point, the direction as a
    /// free vector.
    pub fn transform_ray(&self, ray: &Ray3) -> (r: Ray3)
        requires
            self.wf(),
            self.bounded(),
            ray.bounded(),
        ensures
            r.wf(),
            svec_eq(r.origin@, aff_apply_pt(self.model(), ray.origin@)),
            svec_eq(r.direction@, aff_apply_vec(self.model(), ray.direction@)),
    {
        Ray3::new(self.transform_point(&ray.origin), self.transform_vector(&ray.direction))
    }

    /// The matrix equivalent to applying `self` first, then `other`:
    /// its model is exactly the composition of the two models.
    pub fn concat(&self, other: &AffineMatrix3) -> (r: AffineMatrix3)
        requires
            self.wf(),
            self.bounded(),
            other.wf(),
            other.bounded(),
        ensures
            r.wf(),
            r.model() == aff_compose(self.model(), other.model()),
            aff_eq(r.model(), aff_compose(self.model(), other.model())),
    {
        proof {
            lemma_concat_bounds(self.model(), other.model());
        }
        AffineMatrix3 {
            m00: other.m00 * self.m00 + other.m01 * self.m10 + other.m02 * self.m20,
            m01: other.m00 * self.m01 + other.m01 * self.m11 + other.m02 * self.m21,
            m02: other.m00 * self.m02 + other.m01 * self.m12 + other.m02 * self.m22,
            m10: other.m10 * self.m00 + other.m11 * self.m10 + other.m12 * self.m20,
            m11: other.m10 * self.m01 + other.m11 * self.m11 + other.m12 * self.m21,
            m12: other.m10 * self.m02 + other.m11 * self.m12 + other.m12 * self.m22,
            m20: other.m20 * self.m00 + other.m21 * self.m10 + other.m22 * self.m20,
            m21: other.m20 * self.m01 + other.m21 * self.m11 + other.m22 * self.m21,
            m22: other.m20 * self.m02 + other.m21 * self.m12 + other.m22 * self.m22,
            t0: other.m00 * self.t0 + other.m01 * self.t1 + other.m02 * self.t2 + other.t0 * self.d,
            t1: other.m10 * self.t0 + other.m11 * self.t1 + other.m12 * self.t2 + other.t1 * self.d,
            t2: other.m20 * self.t0 + other.m21 * self.t1 + other.m22 * self.t2 + other.t2 * self.d,
            d: other.d * self.d,
        }
    }


}

impl Decomposed {
    /// This transform as a homogeneous matrix: the rotation scaled
    /// uniformly, the displacement as the translation column.  The
    /// conversion is lossless: the matrix denotes exactly the same
    /// affine map.
    pub fn to_matrix4(&self) -> (r: AffineMatrix3)
        requires
            self.wf(),
            self.bounded(),
        ensures
            r.wf(),
            r.model() == self.model(),
            aff_eq(r.model(), self.model()),
    {
        proof {
            lemma_to_matrix_bounds(self.scale@, self.rot@, self.disp@);
        }
        AffineMatrix3 {
            m00: self.scale.n * self.rot.m00 * self.disp.d,
            m01: self.scale.n * self.rot.m01 * self.disp.d,
            m02: self.scale.n * self.rot.m02 * self.disp.d,
            m10: self.scale.n * self.rot.m10 * self.disp.d,
            m11: self.scale.n * self.rot.m11 * self.disp.d,
            m12: self.scale.n * self.rot.m12 * self.disp.d,
            m20: self.scale.n * self.rot.m20 * self.disp.d,
            m21: self.scale.n * self.rot.m21 * self.disp.d,
            m22: self.scale.n * self.rot.m22 * self.disp.d,
            t0: self.disp.x * (self.scale.d * self.rot.d),
            t1: self.disp.y * (self.scale.d * self.rot.d),
            t2: self.disp.z * (self.scale.d * self.rot.d),
            d: self.scale.d * self.rot.d * self.disp.d,
        }
    }
}

/// Every product of the conversion stays far inside the machine range.
pub proof fn lemma_to_matrix_bounds(
    s: crate::scalar::SRat,
    m: crate::rotation::SMat,
    t: SVec,
)
    by (nonlinear_arith)
    requires
        crate::scalar::srat_bounded(s),
        crate::rotation::smat_bounded(m),
        crate::vector::svec_bounded(t),
    ensures
        -lim() * lim() <= s.n * m.m00 <= lim() * lim(),
        -lim() * lim() <= s.n * m.m01 <= lim() * lim(),
        -lim() * lim() <= s.n * m.m02 <= lim() * lim(),
        -lim() * lim() <= s.n * m.m10 <= lim() * lim(),
        -lim() * lim() <= s.n * m.m11 <= lim() * lim(),
        -lim() * lim() <= s.n * m.m12 <= lim() * lim(),
        -lim() * lim() <= s.n * m.m20 <= lim() * lim(),
        -lim() * lim() <= s.n * m.m21 <= lim() * lim(),
        -lim() * lim() <= s.n * m.m22 <= lim() * lim(),
        -lim() * lim() * lim() <= (s.n * m.m00) * t.d <= lim() * lim() * lim(),
        -lim() * lim() * lim() <= (s.n * m.m01) * t.d <= lim() * lim() * lim(),
        -lim() * lim() * lim() <= (s.n * m.m02) * t.d <= lim() * lim() * lim(),
        -lim() * lim() * lim() <= (s.n * m.m10) * t.d <= lim() * lim() * lim(),
        -lim() * lim() * lim() <= (s.n * m.m11) * t.d <= lim() * lim() * lim(),
        -lim() * lim() * lim() <= (s.n * m.m12) * t.d <= lim() * lim() * lim(),
        -lim() * lim() * lim() <= (s.n * m.m20) * t.d <= lim() * lim() * lim(),
        -lim() * lim() * lim() <= (s.n * m.m21) * t.d <= lim() * lim() * lim(),
        -lim() * lim() * lim() <= (s.n * m.m22) * t.d <= lim() * lim() * lim(),
        0 < s.d * m.d <= lim() * lim(),
        -lim() * lim() * lim() <= t.x * (s.d * m.d) <= lim() * lim() * lim(),
        -lim() * lim() * lim() <= t.y * (s.d * m.d) <= lim() * lim() * lim(),
        -lim() * lim() * lim() <= t.z * (s.d * m.d) <= lim() * lim() * lim(),
        0 < s.d * m.d * t.d <= lim() * lim() * lim(),
{
}

} // verus!
