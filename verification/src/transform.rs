//! The transform representations and their shared contract.
//!
//! A [`Decomposed`] value carries an affine map as an explicit
//! (scale, rotation, displacement) triple.  Applying it to a point is
//! scale, then rotation, then displacement; a free vector skips the
//! displacement.  Every operation's contract relates the result to the
//! [`crate::model::AffModel`] the value denotes, so the algebraic laws
//! of composition and inversion are stated and proved over one model.

use vstd::prelude::*;
use crate::model::{aff_apply_pt, aff_apply_vec, aff_eq, aff_id, aff_wf, lemma_mul_comm, lemma_prod_cross, AffModel};
use crate::point::Pnt3;
use crate::ray::Ray3;
use crate::rotation::{smat_bounded, smat_det, smat_eq, smat_id, smat_in_range, smat_inverse, smat_mul, smat_reduced, smat_apply, SMat, Rot3};
use crate::scalar::{lemma_mul_bound, lemma_mul_pos, lim, srat_bounded, srat_eq, srat_in_range, srat_is_zero, srat_mul, srat_one, srat_reduced, SRat, Rat};
use crate::vector::{svec_bounded, svec_eq, svec_in_range, svec_reduced, svec_scale, svec_zero, SVec, Vec3};

verus! {

/// A transformation kept as its parts: uniform scale, rotation,
/// displacement.  Applying it to a point `p` yields
/// `rotate(p * scale) + disp`; to a free vector, `rotate(v * scale)`.
#[derive(Clone, Copy, Debug)]
pub struct Decomposed {
    pub scale: Rat,
    pub rot: Rot3,
    pub disp: Vec3,
}

impl Decomposed {
    /// Every part is well formed.
    pub open spec fn wf(self) -> bool {
        self.scale.wf() && self.rot.wf() && self.disp.wf()
    }

    /// Every part may enter an arithmetic operation.
    pub open spec fn bounded(self) -> bool {
        self.scale.bounded() && self.rot.bounded() && self.disp.bounded()
    }

    /// The affine map this value denotes.
    pub open spec fn model(self) -> AffModel {
        AffModel {
        m00: self.scale@.n * self.rot@.m00 * self.disp@.d,
        m01: self.scale@.n * self.rot@.m01 * self.disp@.d,
        m02: self.scale@.n * self.rot@.m02 * self.disp@.d,
        m10: self.scale@.n * self.rot@.m10 * self.disp@.d,
        m11: self.scale@.n * self.rot@.m11 * self.disp@.d,
        m12: self.scale@.n * self.rot@.m12 * self.disp@.d,
        m20: self.scale@.n * self.rot@.m20 * self.disp@.d,
        m21: self.scale@.n * self.rot@.m21 * self.disp@.d,
        m22: self.scale@.n * self.rot@.m22 * self.disp@.d,
            t0: self.disp@.x * (self.scale@.d * self.rot@.d),
            t1: self.disp@.y * (self.scale@.d * self.rot@.d),
            t2: self.disp@.z * (self.scale@.d * self.rot@.d),
            d: self.scale@.d * self.rot@.d * self.disp@.d,
        }
    }

    /// The transform can be undone: neither the scale nor the rotation
    /// is degenerate.
    pub open spec fn invertible(self) -> bool {
        !srat_is_zero(self.scale@) && smat_det(self.rot@) != 0
    }

    /// A well-formed value denotes a well-formed map.
    pub proof fn lemma_model_wf(self)
        requires
            self.wf(),
        ensures
            aff_wf(self.model()),
    {
        assert(self.scale@.d * self.rot@.d * self.disp@.d > 0) by (nonlinear_arith)
            requires self.scale@.d > 0 && self.rot@.d > 0 && self.disp@.d > 0;
    }

    /// The transform that does nothing: unit scale, identity rotation,
    /// zero displacement.  It denotes exactly the identity map.
    pub fn identity() -> (r: Decomposed)
        ensures
            r.scale@ == srat_one(),
            r.rot@ == smat_id(),
            r.disp@ == svec_zero(),
            r.model() == aff_id(),
            r.wf(),
            r.bounded(),
    {
        Decomposed { scale: Rat::one(), rot: Rot3::identity(), disp: Vec3::zero() }
    }

    /// The transform a viewer with rotation `rot` at `eye` sees: unit
    /// scale, the rotation itself, and as displacement the rotation's
    /// image of the offset from `eye` back to the origin — so the eye
    /// maps to the local origin.  Computing the rotation itself from a
    /// direction and an up reference needs square roots, which exact
    /// fractions cannot represent, so the rotation is taken as an
    /// argument here rather than built from `center - eye` and `up`.
    pub fn look_at_with(rot: &Rot3, eye: &Pnt3) -> (r: Decomposed)
        requires
            rot.wf(),
            rot.bounded(),
            eye.bounded(),
        ensures
            r.wf(),
            r.scale@ == srat_one(),
            r.rot@ == rot@,
            svec_eq(r.disp@, smat_apply(rot@, crate::vector::svec_sub(svec_zero(), eye@))),
    {
        let origin = Pnt3::origin();
        let disp = rot.rotate_vector(&origin.sub_p(eye));
        Decomposed { scale: Rat::one(), rot: *rot, disp }
    }

    /// Image of a free vector: scale and rotation only, never the
    /// displacement.
    pub fn transform_vector(&self, v: &Vec3) -> (r: Vec3)
        requires
            self.wf(),
            self.bounded(),
            v.bounded(),
        ensures
            r.wf(),
            r@ == smat_apply(self.rot@, svec_scale(self.scale@, v@)),
            svec_eq(r@, aff_apply_vec(self.model(), v@)),
    {
        proof {
            lemma_mul_bound(self.scale@.n, v@.x, lim(), lim());
            lemma_mul_bound(self.scale@.n, v@.y, lim(), lim());
            lemma_mul_bound(self.scale@.n, v@.z, lim(), lim());
            lemma_mul_bound(self.rot@.m00, self.scale@.n * v@.x, lim(), lim() * lim());
            lemma_mul_bound(self.rot@.m01, self.scale@.n * v@.y, lim(), lim() * lim());
            lemma_mul_bound(self.rot@.m02, self.scale@.n * v@.z, lim(), lim() * lim());
            lemma_mul_bound(self.rot@.m10, self.scale@.n * v@.x, lim(), lim() * lim());
            lemma_mul_bound(self.rot@.m11, self.scale@.n * v@.y, lim(), lim() * lim());
            lemma_mul_bound(self.rot@.m12, self.scale@.n * v@.z, lim(), lim() * lim());
            lemma_mul_bound(self.rot@.m20, self.scale@.n * v@.x, lim(), lim() * lim());
            lemma_mul_bound(self.rot@.m21, self.scale@.n * v@.y, lim(), lim() * lim());
            lemma_mul_bound(self.rot@.m22, self.scale@.n * v@.z, lim(), lim() * lim());
            lemma_mul_bound(self.scale@.d, v@.d, lim(), lim());
            lemma_mul_pos(self.scale@.d, v@.d);
            lemma_mul_bound(self.rot@.d, self.scale@.d * v@.d, lim(), lim() * lim());
            lemma_mul_pos(self.rot@.d, self.scale@.d * v@.d);
            lemma_srt_vec_model(
                self.rot@.m00, self.rot@.m01, self.rot@.m02,
                self.rot@.d, self.scale@.n, self.scale@.d, self.disp@.d,
                v@.x, v@.y, v@.z, v@.d,
            );
            lemma_srt_vec_model(
                self.rot@.m10, self.rot@.m11, self.rot@.m12,
                self.rot@.d, self.scale@.n, self.scale@.d, self.disp@.d,
                v@.x, v@.y, v@.z, v@.d,
            );
            lemma_srt_vec_model(
                self.rot@.m20, self.rot@.m21, self.rot@.m22,
                self.rot@.d, self.scale@.n, self.scale@.d, self.disp@.d,
                v@.x, v@.y, v@.z, v@.d,
            );
        }
        Vec3 {
            x: self.rot.m00 * (self.scale.n * v.x) + self.rot.m01 * (self.scale.n * v.y)
                + self.rot.m02 * (self.scale.n * v.z),
            y: self.rot.m10 * (self.scale.n * v.x) + self.rot.m11 * (self.scale.n * v.y)
                + self.rot.m12 * (self.scale.n * v.z),
            z: self.rot.m20 * (self.scale.n * v.x) + self.rot.m21 * (self.scale.n * v.y)
                + self.rot.m22 * (self.scale.n * v.z),
            d: self.rot.d * (self.scale.d * v.d),
        }
    }

    /// Image of a point: scale, then rotation, then displacement.
    pub fn transform_point(&self, p: &Pnt3) -> (r: Pnt3)
        requires
            self.wf(),
            self.bounded(),
            p.bounded(),
        ensures
            r.wf(),
            svec_eq(r@, aff_apply_pt(self.model(), p@)),
    {
        proof {
            lemma_mul_bound(self.scale@.n, p@.x, lim(), lim());
            lemma_mul_bound(self.scale@.n, p@.y, lim(), lim());
            lemma_mul_bound(self.scale@.n, p@.z, lim(), lim());
            lemma_mul_bound(self.rot@.m00, self.scale@.n * p@.x, lim(), lim() * lim());
            lemma_mul_bound(self.rot@.m01, self.scale@.n * p@.y, lim(), lim() * lim());
            lemma_mul_bound(self.rot@.m02, self.scale@.n * p@.z, lim(), lim() * lim());
            lemma_mul_bound(self.rot@.m10, self.scale@.n * p@.x, lim(), lim() * lim());
            lemma_mul_bound(self.rot@.m11, self.scale@.n * p@.y, lim(), lim() * lim());
            lemma_mul_bound(self.rot@.m12, self.scale@.n * p@.z, lim(), lim() * lim());
            lemma_mul_bound(self.rot@.m20, self.scale@.n * p@.x, lim(), lim() * lim());
            lemma_mul_bound(self.rot@.m21, self.scale@.n * p@.y, lim(), lim() * lim());
            lemma_mul_bound(self.rot@.m22, self.scale@.n * p@.z, lim(), lim() * lim());
            lemma_mul_bound(self.scale@.d, p@.d, lim(), lim());
            lemma_mul_pos(self.scale@.d, p@.d);
            lemma_mul_bound(self.rot@.d, self.scale@.d * p@.d, lim(), lim() * lim());
            lemma_mul_pos(self.rot@.d, self.scale@.d * p@.d);
        }
        let bx: i128 = self.rot.m00 * (self.scale.n * p.x) + self.rot.m01 * (self.scale.n * p.y)
            + self.rot.m02 * (self.scale.n * p.z);
        let by: i128 = self.rot.m10 * (self.scale.n * p.x) + self.rot.m11 * (self.scale.n * p.y)
            + self.rot.m12 * (self.scale.n * p.z);
        let bz: i128 = self.rot.m20 * (self.scale.n * p.x) + self.rot.m21 * (self.scale.n * p.y)
            + self.rot.m22 * (self.scale.n * p.z);
        let bd: i128 = self.rot.d * (self.scale.d * p.d);
        proof {
            lemma_mul_bound(bx as int, self.disp@.d, 3 * lim() * lim() * lim(), lim());
            lemma_mul_bound(by as int, self.disp@.d, 3 * lim() * lim() * lim(), lim());
            lemma_mul_bound(bz as int, self.disp@.d, 3 * lim() * lim() * lim(), lim());
            lemma_mul_bound(self.disp@.x, bd as int, lim(), lim() * lim() * lim());
            lemma_mul_bound(self.disp@.y, bd as int, lim(), lim() * lim() * lim());
            lemma_mul_bound(self.disp@.z, bd as int, lim(), lim() * lim() * lim());
            lemma_mul_bound(bd as int, self.disp@.d, lim() * lim() * lim(), lim());
            lemma_mul_pos(bd as int, self.disp@.d);
            lemma_srt_pt_model(
                self.rot@.m00, self.rot@.m01, self.rot@.m02,
                self.rot@.d, self.scale@.n, self.scale@.d, self.disp@.x, self.disp@.d,
                p@.x, p@.y, p@.z, p@.d,
            );
            lemma_srt_pt_model(
                self.rot@.m10, self.rot@.m11, self.rot@.m12,
                self.rot@.d, self.scale@.n, self.scale@.d, self.disp@.y, self.disp@.d,
                p@.x, p@.y, p@.z, p@.d,
            );
            lemma_srt_pt_model(
                self.rot@.m20, self.rot@.m21, self.rot@.m22,
                self.rot@.d, self.scale@.n, self.scale@.d, self.disp@.z, self.disp@.d,
                p@.x, p@.y, p@.z, p@.d,
            );
        }
        Pnt3 {
            x: bx * self.disp.d + self.disp.x * bd,
            y: by * self.disp.d + self.disp.y * bd,
            z: bz * self.disp.d + self.disp.z * bd,
            d: bd * self.disp.d,
        }
    }

    /// Image of a ray: the origin moves as a point, the direction as a
    /// free vector.  Nothing keeps the direction unit length.
    pub fn transform_ray(&self, ray: &Ray3) -> (r: Ray3)
        requires
            self.wf(),
            self.bounded(),
            ray.bounded(),
        ensures
            r.wf(),
            svec_eq(r.origin@, aff_apply_pt(self.model(), ray.origin@)),
            svec_eq(r.direction@, aff_apply_vec(self.model(), ray.direction@)),
    {
        Ray3::new(self.transform_point(&ray.origin), self.transform_vector(&ray.direction))
    }

    /// Image of a raw triple taken as a position: embed at the origin,
    /// transform, read the position back.  This is how a displacement is
    /// re-expressed through another transform under composition.
    pub fn transform_as_point(&self, v: &Vec3) -> (r: Vec3)
        requires
            self.wf(),
            self.bounded(),
            v.bounded(),
        ensures
            r.wf(),
            svec_eq(r@, aff_apply_pt(self.model(), v@)),
    {
        self.transform_point(&Pnt3::from_vec(v)).to_vec()
    }

    /// The transform equivalent to applying `self` first, then `other`:
    /// scales multiply, rotations compose in the same order, and
    /// `self`'s displacement is carried through `other`.
    pub fn concat(&self, other: &Decomposed) -> (r: Decomposed)
        requires
            self.wf(),
            self.bounded(),
            other.wf(),
            other.bounded(),
        ensures
            r.wf(),
            r.scale@ == srat_mul(self.scale@, other.scale@),
            r.rot@ == smat_mul(self.rot@, other.rot@),
            svec_eq(r.disp@, aff_apply_pt(other.model(), self.disp@)),
    {
        Decomposed {
            scale: self.scale.times(&other.scale),
            rot: self.rot.concat(&other.rot),
            disp: other.transform_as_point(&self.disp),
        }
    }

    /// The transform that undoes this one, absent exactly when the
    /// scale denotes zero or the rotation's determinant is zero.  The
    /// parts invert separately: the scale's reciprocal, the rotation's
    /// inverse, and the displacement sent backwards through both.
    pub fn invert(&self) -> (r: Option<Decomposed>)
        requires
            self.wf(),
            self.bounded(),
        ensures
            r is Some <==> self.invertible(),
            r is Some ==> {
                let v = r->Some_0;
                &&& v.wf()
                &&& v.scale.bounded()
                &&& -20 * lim() * lim() * lim() * lim() * lim() <= v.disp@.x
                    <= 20 * lim() * lim() * lim() * lim() * lim()
                &&& -20 * lim() * lim() * lim() * lim() * lim() <= v.disp@.y
                    <= 20 * lim() * lim() * lim() * lim() * lim()
                &&& -20 * lim() * lim() * lim() * lim() * lim() <= v.disp@.z
                    <= 20 * lim() * lim() * lim() * lim() * lim()
                &&& 0 < v.disp@.d <= 20 * lim() * lim() * lim() * lim() * lim()
                &&& srat_eq(srat_mul(self.scale@, v.scale@), srat_one())
                &&& v.rot@ == smat_inverse(self.rot@)
                &&& v.disp@ == svec_scale(
                    SRat { n: -v.scale@.n, d: v.scale@.d },
                    smat_apply(v.rot@, self.disp@),
                )
            },
    {
        let s = match self.scale.recip() {
            None => { return None; },
            Some(s) => s,
        };
        let rot = match self.rot.invert() {
            None => { return None; },
            Some(rot) => rot,
        };
        let sneg = s.negate();
        proof {
            lemma_inverse_entry_bounds(rot@, self.disp@, sneg@);
            lemma_scaled_row_bounds(
                sneg@.n, sneg@.d,
                rot@.m00 * self.disp@.x + rot@.m01 * self.disp@.y + rot@.m02 * self.disp@.z,
                rot@.d * self.disp@.d,
            );
            lemma_scaled_row_bounds(
                sneg@.n, sneg@.d,
                rot@.m10 * self.disp@.x + rot@.m11 * self.disp@.y + rot@.m12 * self.disp@.z,
                rot@.d * self.disp@.d,
            );
            lemma_scaled_row_bounds(
                sneg@.n, sneg@.d,
                rot@.m20 * self.disp@.x + rot@.m21 * self.disp@.y + rot@.m22 * self.disp@.z,
                rot@.d * self.disp@.d,
            );
        }
        let disp = Vec3 {
            x: sneg.n * (rot.m00 * self.disp.x + rot.m01 * self.disp.y + rot.m02 * self.disp.z),
            y: sneg.n * (rot.m10 * self.disp.x + rot.m11 * self.disp.y + rot.m12 * self.disp.z),
            z: sneg.n * (rot.m20 * self.disp.x + rot.m21 * self.disp.y + rot.m22 * self.disp.z),
            d: sneg.d * (rot.d * self.disp.d),
        };
        Some(Decomposed { scale: s, rot, disp })
    }

    /// The same transform with every part brought to lowest terms;
    /// absent exactly when even the reduced parts of some component
    /// exceed the operation entry bound.  Composition and inversion
    /// multiply denominators, so this is how their results re-enter the
    /// bounded domain that the other operations require.
    pub fn reduce(&self) -> (r: Option<Decomposed>)
        requires
            self.wf(),
            srat_in_range(self.scale@),
            smat_in_range(self.rot@),
            svec_in_range(self.disp@),
        ensures
            r is Some <==> (srat_bounded(srat_reduced(self.scale@))
                && smat_bounded(smat_reduced(self.rot@))
                && svec_bounded(svec_reduced(self.disp@))),
            r is Some ==> {
                let v = r->Some_0;
                &&& v.wf()
                &&& v.bounded()
                &&& srat_eq(v.scale@, self.scale@)
                &&& smat_eq(v.rot@, self.rot@)
                &&& svec_eq(v.disp@, self.disp@)
                &&& aff_eq(v.model(), self.model())
            },
    {
        let scale = match self.scale.reduce() {
            None => { return None; },
            Some(v) => v,
        };
        let rot = match self.rot.reduce() {
            None => { return None; },
            Some(v) => v,
        };
        let disp = match self.disp.reduce() {
            None => { return None; },
            Some(v) => v,
        };
        let r = Decomposed { scale, rot, disp };
        proof {
            lemma_model_respects_parts(r, *self);
        }
        Some(r)
    }


    /// Replace this transform with `self`-then-`other`, in place.
    pub fn concat_self(&mut self, other: &Decomposed)
        requires
            old(self).wf(),
            old(self).bounded(),
            other.wf(),
            other.bounded(),
        ensures
            final(self).wf(),
            final(self).scale@ == srat_mul(old(self).scale@, other.scale@),
            final(self).rot@ == smat_mul(old(self).rot@, other.rot@),
            svec_eq(final(self).disp@, aff_apply_pt(other.model(), old(self).disp@)),
    {
        *self = self.concat(other);
    }

    /// Replace this transform with its inverse, in place.  Inverting a
    /// degenerate transform is a programming error, so the caller must
    /// establish invertibility first; the recoverable path is
    /// [`Decomposed::invert`].
    pub fn invert_self(&mut self)
        requires
            old(self).wf(),
            old(self).bounded(),
            old(self).invertible(),
        ensures
            final(self).wf(),
            srat_eq(srat_mul(old(self).scale@, final(self).scale@), srat_one()),
            final(self).rot@ == smat_inverse(old(self).rot@),
            final(self).disp@ == svec_scale(
                SRat { n: -final(self).scale@.n, d: final(self).scale@.d },
                smat_apply(final(self).rot@, old(self).disp@),
            ),
    {
        *self = self.invert().unwrap();
    }

    /// The parts of the transform: the scale broadcast into a uniform
    /// triple, the rotation, and the displacement.
    pub fn decompose(&self) -> (r: (Vec3, Rot3, Vec3))
        requires
            self.wf(),
            self.bounded(),
        ensures
            r.0@ == (SVec { x: self.scale@.n, y: self.scale@.n, z: self.scale@.n, d: self.scale@.d }),
            r.1 == self.rot,
            r.2 == self.disp,
    {
        (
            Vec3 { x: self.scale.n, y: self.scale.n, z: self.scale.n, d: self.scale.d },
            self.rot,
            self.disp,
        )
    }
}


/// Every intermediate product of the inverse displacement computation
/// stays inside the machine range: the inverse rotation's entries are
/// at most six third powers of the entry bound, the displacement and
/// the scale at most the bound itself.
pub proof fn lemma_inverse_entry_bounds(inv: SMat, v: SVec, s: SRat)
    by (nonlinear_arith)
    requires
        -6 * lim() * lim() * lim() <= inv.m00 <= 6 * lim() * lim() * lim(),
        -6 * lim() * lim() * lim() <= inv.m01 <= 6 * lim() * lim() * lim(),
        -6 * lim() * lim() * lim() <= inv.m02 <= 6 * lim() * lim() * lim(),
        -6 * lim() * lim() * lim() <= inv.m10 <= 6 * lim() * lim() * lim(),
        -6 * lim() * lim() * lim() <= inv.m11 <= 6 * lim() * lim() * lim(),
        -6 * lim() * lim() * lim() <= inv.m12 <= 6 * lim() * lim() * lim(),
        -6 * lim() * lim() * lim() <= inv.m20 <= 6 * lim() * lim() * lim(),
        -6 * lim() * lim() * lim() <= inv.m21 <= 6 * lim() * lim() * lim(),
        -6 * lim() * lim() * lim() <= inv.m22 <= 6 * lim() * lim() * lim(),
        0 < inv.d <= 6 * lim() * lim() * lim(),
        crate::vector::svec_bounded(v),
        crate::scalar::srat_bounded(s),
    ensures
        -6 * lim() * lim() * lim() * lim() <= inv.m00 * v.x <= 6 * lim() * lim() * lim() * lim(),
        -6 * lim() * lim() * lim() * lim() <= inv.m01 * v.y <= 6 * lim() * lim() * lim() * lim(),
        -6 * lim() * lim() * lim() * lim() <= inv.m02 * v.z <= 6 * lim() * lim() * lim() * lim(),
        -6 * lim() * lim() * lim() * lim() <= inv.m10 * v.x <= 6 * lim() * lim() * lim() * lim(),
        -6 * lim() * lim() * lim() * lim() <= inv.m11 * v.y <= 6 * lim() * lim() * lim() * lim(),
        -6 * lim() * lim() * lim() * lim() <= inv.m12 * v.z <= 6 * lim() * lim() * lim() * lim(),
        -6 * lim() * lim() * lim() * lim() <= inv.m20 * v.x <= 6 * lim() * lim() * lim() * lim(),
        -6 * lim() * lim() * lim() * lim() <= inv.m21 * v.y <= 6 * lim() * lim() * lim() * lim(),
        -6 * lim() * lim() * lim() * lim() <= inv.m22 * v.z <= 6 * lim() * lim() * lim() * lim(),
        0 < inv.d * v.d <= 6 * lim() * lim() * lim() * lim(),
{
}

/// A scalar numerator times an already-summed row, and a scalar
/// denominator times an already-multiplied denominator, stay inside the
/// machine range.
pub proof fn lemma_scaled_row_bounds(n: int, d: int, row: int, den: int)
    by (nonlinear_arith)
    requires
        -lim() <= n <= lim(),
        0 < d <= lim(),
        -18 * lim() * lim() * lim() * lim() <= row <= 18 * lim() * lim() * lim() * lim(),
        0 < den <= 6 * lim() * lim() * lim() * lim(),
    ensures
        -18 * lim() * lim() * lim() * lim() * lim() <= n * row <= 18 * lim() * lim() * lim() * lim() * lim(),
        0 < d * den <= 6 * lim() * lim() * lim() * lim() * lim(),
{
}

/// The scalar identity behind the free-vector contract: applying scale
/// then one rotation row in exec order denotes the same value as one
/// row of the affine model.
pub proof fn lemma_srt_vec_model(
    m0: int, m1: int, m2: int, md: int, sn: int, sd: int, td: int,
    vx: int, vy: int, vz: int, vd: int,
)
    ensures
        (m0 * (sn * vx) + m1 * (sn * vy) + m2 * (sn * vz)) * ((sd * md * td) * vd)
            == ((sn * m0 * td) * vx + (sn * m1 * td) * vy + (sn * m2 * td) * vz)
                * (md * (sd * vd)),
{
    crate::model::lemma_distrib3(
        m0 * (sn * vx), m1 * (sn * vy), m2 * (sn * vz), (sd * md * td) * vd);
    crate::model::lemma_distrib3(
        (sn * m0 * td) * vx, (sn * m1 * td) * vy, (sn * m2 * td) * vz, md * (sd * vd));
    lemma_vec_term(m0, sn, sd, md, td, vx, vd);
    lemma_vec_term(m1, sn, sd, md, td, vy, vd);
    lemma_vec_term(m2, sn, sd, md, td, vz, vd);
}

/// The scalar identity behind the point contract: applying scale, one
/// rotation row and the displacement in exec order denotes the same
/// value as one row of the affine model.
pub proof fn lemma_srt_pt_model(
    m0: int, m1: int, m2: int, md: int, sn: int, sd: int, t: int, td: int,
    px: int, py: int, pz: int, pd: int,
)
    ensures
        ((m0 * (sn * px) + m1 * (sn * py) + m2 * (sn * pz)) * td + t * (md * (sd * pd)))
            * ((sd * md * td) * pd)
            == ((sn * m0 * td) * px + (sn * m1 * td) * py + (sn * m2 * td) * pz
                + (t * (sd * md)) * pd) * ((md * (sd * pd)) * td),
{
    let a = m0 * (sn * px) + m1 * (sn * py) + m2 * (sn * pz);
    crate::model::lemma_distrib2(a * td, t * (md * (sd * pd)), (sd * md * td) * pd);
    crate::model::lemma_distrib3(m0 * (sn * px), m1 * (sn * py), m2 * (sn * pz), td);
    crate::model::lemma_distrib3(
        (m0 * (sn * px)) * td, (m1 * (sn * py)) * td, (m2 * (sn * pz)) * td,
        (sd * md * td) * pd);
    crate::model::lemma_distrib4(
        (sn * m0 * td) * px, (sn * m1 * td) * py, (sn * m2 * td) * pz,
        (t * (sd * md)) * pd, (md * (sd * pd)) * td);
    lemma_pt_term(m0, sn, sd, md, td, px, pd);
    lemma_pt_term(m1, sn, sd, md, td, py, pd);
    lemma_pt_term(m2, sn, sd, md, td, pz, pd);
    lemma_pt_disp_term(t, sn, sd, md, td, pd);
}

/// One term of the free-vector identity, brought from exec bracketing
/// to model bracketing.
pub proof fn lemma_vec_term(m: int, sn: int, sd: int, md: int, td: int, v: int, vd: int)
    ensures
        (m * (sn * v)) * ((sd * md * td) * vd) == ((sn * m * td) * v) * (md * (sd * vd)),
{
    crate::model::lemma_mul_assoc(m, sn, v);
    crate::model::lemma_mul_comm(sn, m);
    assert(((m * sn) * v) * (((sd * md) * td) * vd) == (((m * sn) * td) * v) * (md * (sd * vd)))
        by (nonlinear_arith);
}

/// One linear-part term of the point identity, brought from exec
/// bracketing to model bracketing.
#[verifier::rlimit(100)]
pub proof fn lemma_pt_term(m: int, sn: int, sd: int, md: int, td: int, p: int, pd: int)
    by (nonlinear_arith)
    ensures
        ((m * (sn * p)) * td) * ((sd * md * td) * pd) == ((sn * m * td) * p) * ((md * (sd * pd)) * td),
{
}

/// The displacement term of the point identity, brought from exec
/// bracketing to model bracketing.
#[verifier::rlimit(100)]
pub proof fn lemma_pt_disp_term(t: int, sn: int, sd: int, md: int, td: int, pd: int)
    by (nonlinear_arith)
    ensures
        (t * (md * (sd * pd))) * ((sd * md * td) * pd) == ((t * (sd * md)) * pd) * ((md * (sd * pd)) * td),
{
}

/// Transforms whose scale, rotation and displacement denote the same
/// values part for part denote the same affine map.
pub proof fn lemma_model_respects_parts(a: Decomposed, b: Decomposed)
    requires
        a.wf(),
        b.wf(),
        srat_eq(a.scale@, b.scale@),
        smat_eq(a.rot@, b.rot@),
        svec_eq(a.disp@, b.disp@),
    ensures
        aff_eq(a.model(), b.model()),
{
    lemma_mul_comm(a.disp@.d, b.disp@.d);
    lemma_mul_comm(a.scale@.d * a.rot@.d, b.scale@.d * b.rot@.d);
    lemma_mul_comm(b.disp@.d, b.scale@.d * b.rot@.d);
    lemma_mul_comm(a.disp@.d, a.scale@.d * a.rot@.d);
    lemma_prod_cross(
        a.scale@.n, b.scale@.n, b.scale@.d, a.scale@.d,
        a.rot@.m00, b.rot@.m00, b.rot@.d, a.rot@.d,
    );
    lemma_prod_cross(
        a.scale@.n * a.rot@.m00, b.scale@.n * b.rot@.m00,
        b.scale@.d * b.rot@.d, a.scale@.d * a.rot@.d,
        a.disp@.d, b.disp@.d, b.disp@.d, a.disp@.d,
    );
    lemma_prod_cross(
        a.scale@.n, b.scale@.n, b.scale@.d, a.scale@.d,
        a.rot@.m01, b.rot@.m01, b.rot@.d, a.rot@.d,
    );
    lemma_prod_cross(
        a.scale@.n * a.rot@.m01, b.scale@.n * b.rot@.m01,
        b.scale@.d * b.rot@.d, a.scale@.d * a.rot@.d,
        a.disp@.d, b.disp@.d, b.disp@.d, a.disp@.d,
    );
    lemma_prod_cross(
        a.scale@.n, b.scale@.n, b.scale@.d, a.scale@.d,
        a.rot@.m02, b.rot@.m02, b.rot@.d, a.rot@.d,
    );
    lemma_prod_cross(
        a.scale@.n * a.rot@.m02, b.scale@.n * b.rot@.m02,
        b.scale@.d * b.rot@.d, a.scale@.d * a.rot@.d,
        a.disp@.d, b.disp@.d, b.disp@.d, a.disp@.d,
    );
    lemma_prod_cross(
        a.scale@.n, b.scale@.n, b.scale@.d, a.scale@.d,
        a.rot@.m10, b.rot@.m10, b.rot@.d, a.rot@.d,
    );
    lemma_prod_cross(
        a.scale@.n * a.rot@.m10, b.scale@.n * b.rot@.m10,
        b.scale@.d * b.rot@.d, a.scale@.d * a.rot@.d,
        a.disp@.d, b.disp@.d, b.disp@.d, a.disp@.d,
    );
    lemma_prod_cross(
        a.scale@.n, b.scale@.n, b.scale@.d, a.scale@.d,
        a.rot@.m11, b.rot@.m11, b.rot@.d, a.rot@.d,
    );
    lemma_prod_cross(
        a.scale@.n * a.rot@.m11, b.scale@.n * b.rot@.m11,
        b.scale@.d * b.rot@.d, a.scale@.d * a.rot@.d,
        a.disp@.d, b.disp@.d, b.disp@.d, a.disp@.d,
    );
    lemma_prod_cross(
        a.scale@.n, b.scale@.n, b.scale@.d, a.scale@.d,
        a.rot@.m12, b.rot@.m12, b.rot@.d, a.rot@.d,
    );
    lemma_prod_cross(
        a.scale@.n * a.rot@.m12, b.scale@.n * b.rot@.m12,
        b.scale@.d * b.rot@.d, a.scale@.d * a.rot@.d,
        a.disp@.d, b.disp@.d, b.disp@.d, a.disp@.d,
    );
    lemma_prod_cross(
        a.scale@.n, b.scale@.n, b.scale@.d, a.scale@.d,
        a.rot@.m20, b.rot@.m20, b.rot@.d, a.rot@.d,
    );
    lemma_prod_cross(
        a.scale@.n * a.rot@.m20, b.scale@.n * b.rot@.m20,
        b.scale@.d * b.rot@.d, a.scale@.d * a.rot@.d,
        a.disp@.d, b.disp@.d, b.disp@.d, a.disp@.d,
    );
    lemma_prod_cross(
        a.scale@.n, b.scale@.n, b.scale@.d, a.scale@.d,
        a.rot@.m21, b.rot@.m21, b.rot@.d, a.rot@.d,
    );
    lemma_prod_cross(
        a.scale@.n * a.rot@.m21, b.scale@.n * b.rot@.m21,
        b.scale@.d * b.rot@.d, a.scale@.d * a.rot@.d,
        a.disp@.d, b.disp@.d, b.disp@.d, a.disp@.d,
    );
    lemma_prod_cross(
        a.scale@.n, b.scale@.n, b.scale@.d, a.scale@.d,
        a.rot@.m22, b.rot@.m22, b.rot@.d, a.rot@.d,
    );
    lemma_prod_cross(
        a.scale@.n * a.rot@.m22, b.scale@.n * b.rot@.m22,
        b.scale@.d * b.rot@.d, a.scale@.d * a.rot@.d,
        a.disp@.d, b.disp@.d, b.disp@.d, a.disp@.d,
    );
    lemma_prod_cross(
        a.disp@.x, b.disp@.x, b.disp@.d, a.disp@.d,
        a.scale@.d * a.rot@.d, b.scale@.d * b.rot@.d,
        b.scale@.d * b.rot@.d, a.scale@.d * a.rot@.d,
    );
    lemma_prod_cross(
        a.disp@.y, b.disp@.y, b.disp@.d, a.disp@.d,
        a.scale@.d * a.rot@.d, b.scale@.d * b.rot@.d,
        b.scale@.d * b.rot@.d, a.scale@.d * a.rot@.d,
    );
    lemma_prod_cross(
        a.disp@.z, b.disp@.z, b.disp@.d, a.disp@.d,
        a.scale@.d * a.rot@.d, b.scale@.d * b.rot@.d,
        b.scale@.d * b.rot@.d, a.scale@.d * a.rot@.d,
    );
}

} // verus!
