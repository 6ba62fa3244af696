//! Points of 3-space: affine positions, distinct from free vectors.
//!
//! A point shares the free vector's exact representation and model, but
//! not its algebra: subtracting two points yields a vector, adding a
//! vector to a point yields a point, and a transform translates points
//! while it leaves free vectors in place.

use vstd::prelude::*;
use crate::scalar::ib;
use crate::vector::{svec_bounded, svec_eq, svec_wf, svec_zero, lemma_pair_products, SVec, Vec3};

verus! {

/// An affine position with exact coordinates `(x/d, y/d, z/d)`.
#[derive(Clone, Copy, Debug)]
pub struct Pnt3 {
    pub x: i128,
    pub y: i128,
    pub z: i128,
    pub d: i128,
}

impl View for Pnt3 {
    type V = SVec;

    open spec fn view(&self) -> SVec {
        SVec { x: self.x as int, y: self.y as int, z: self.z as int, d: self.d as int }
    }
}

impl Pnt3 {
    /// The denominator is positive.
    pub open spec fn wf(self) -> bool {
        svec_wf(self@)
    }

    /// The point may enter an arithmetic operation.
    pub open spec fn bounded(self) -> bool {
        svec_bounded(self@)
    }

    /// The reference origin.
    pub fn origin() -> (r: Pnt3)
        ensures
            r@ == svec_zero(),
            r.bounded(),
    {
        Pnt3 { x: 0, y: 0, z: 0, d: 1 }
    }

    /// The point `(x/d, y/d, z/d)`, brought to a positive denominator.
    /// Absent exactly when `d` is zero.
    pub fn new(x: i128, y: i128, z: i128, d: i128) -> (r: Option<Pnt3>)
        requires
            ib(x as int),
            ib(y as int),
            ib(z as int),
            ib(d as int),
        ensures
            r is Some <==> d != 0,
            r is Some ==> {
                let v = r->Some_0;
                &&& v.bounded()
                &&& svec_eq(v@, SVec { x: x as int, y: y as int, z: z as int, d: d as int })
            },
    {
        match Vec3::new(x, y, z, d) {
            None => None,
            Some(v) => Some(Pnt3 { x: v.x, y: v.y, z: v.z, d: v.d }),
        }
    }

    /// The position of the point, as a displacement from the origin.
    pub fn to_vec(&self) -> (r: Vec3)
        ensures
            r@ == self@,
    {
        Vec3 { x: self.x, y: self.y, z: self.z, d: self.d }
    }

    /// The point the displacement `v` reaches from the origin.
    pub fn from_vec(v: &Vec3) -> (r: Pnt3)
        ensures
            r@ == v@,
    {
        Pnt3 { x: v.x, y: v.y, z: v.z, d: v.d }
    }

    /// The displacement from `other` to `self`: point difference is a
    /// free vector.
    pub fn sub_p(&self, other: &Pnt3) -> (r: Vec3)
        requires
            self.bounded(),
            other.bounded(),
        ensures
            r@ == crate::vector::svec_sub(self@, other@),
            r.wf(),
    {
        self.to_vec().sub_v(&other.to_vec())
    }

    /// The point reached from `self` by the displacement `v`.
    pub fn add_v(&self, v: &Vec3) -> (r: Pnt3)
        requires
            self.bounded(),
            v.bounded(),
        ensures
            r@ == crate::vector::svec_add(self@, v@),
            r.wf(),
    {
        let w = self.to_vec().add_v(v);
        Pnt3 { x: w.x, y: w.y, z: w.z, d: w.d }
    }

    /// The point scaled by the scalar `s`, as a position scaled from
    /// the origin.
    pub fn mul_s(&self, s: &crate::scalar::Rat) -> (r: Pnt3)
        requires
            self.bounded(),
            crate::scalar::srat_bounded(s@),
        ensures
            r@ == crate::vector::svec_scale(s@, self@),
            r.wf(),
    {
        let w = self.to_vec().mul_s(s);
        Pnt3 { x: w.x, y: w.y, z: w.z, d: w.d }
    }

    /// The two points denote the same position.
    pub fn same_value(&self, other: &Pnt3) -> (r: bool)
        requires
            self.bounded(),
            other.bounded(),
        ensures
            r == svec_eq(self@, other@),
    {
        proof {
            lemma_pair_products(self@, other@);
        }
        self.x * other.d == other.x * self.d && self.y * other.d == other.y * self.d
            && self.z * other.d == other.z * self.d
    }
}

} // verus!
