//! Rays: an origin point together with a direction vector.
//!
//! A transform moves the origin as a point and the direction as a free
//! vector.  Nothing keeps the direction unit length, and a transform
//! with non-unit scale will change its magnitude.

use vstd::prelude::*;
use crate::point::Pnt3;
use crate::vector::Vec3;

verus! {

/// A ray of 3-space.
#[derive(Clone, Copy, Debug)]
pub struct Ray3 {
    pub origin: Pnt3,
    pub direction: Vec3,
}

impl Ray3 {
    /// Both parts are well formed.
    pub open spec fn wf(self) -> bool {
        self.origin.wf() && self.direction.wf()
    }

    /// Both parts may enter an arithmetic operation.
    pub open spec fn bounded(self) -> bool {
        self.origin.bounded() && self.direction.bounded()
    }

    /// The ray leaving `origin` along `direction`.
    pub fn new(origin: Pnt3, direction: Vec3) -> (r: Ray3)
        ensures
            r.origin == origin,
            r.direction == direction,
    {
        Ray3 { origin, direction }
    }
}

} // verus!
