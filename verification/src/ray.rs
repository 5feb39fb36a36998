//! A ray: origin plus direction, evaluated as `origin + direction * t`.
use vstd::prelude::*;

use crate::fx::Fx;
use crate::vec3::{vadd, vfits, vscale, Vec3, V3};

verus! {

#[derive(Clone, Copy, Debug, PartialEq, Eq, Structural)]
pub struct Ray {
    pub orig: Vec3,
    pub dir: Vec3,
}

/// The point of a ray at raw parameter `t`.
pub open spec fn ray_at(r: Ray, t: int) -> V3 {
    vadd(r.orig@, vscale(r.dir@, t))
}

/// The fits conditions along the evaluation of `ray_at`.
pub open spec fn ray_at_ok(r: Ray, t: int) -> bool {
    vfits(vscale(r.dir@, t)) && vfits(ray_at(r, t))
}

impl Ray {
    pub fn new(orig: Vec3, dir: Vec3) -> (r: Ray)
        ensures
            r.orig == orig,
            r.dir == dir,
    {
        Ray { orig, dir }
    }

    pub fn point_at_parameter(&self, t: Fx) -> (p: Vec3)
        requires
            ray_at_ok(*self, t@),
        ensures
            p@ == ray_at(*self, t@),
    {
        self.orig.plus(self.dir.scale(t))
    }

    /// Checked evaluation: `None` exactly when a component leaves the range.
    pub fn try_point_at(&self, t: Fx) -> (p: Option<Vec3>)
        ensures
            match p {
                Some(v) => ray_at_ok(*self, t@) && v@ == ray_at(*self, t@),
                None => !ray_at_ok(*self, t@),
            },
    {
        let sc: Vec3 = match self.dir.try_scale(t) {
            Some(v) => v,
            None => { return None; },
        };
        self.orig.try_plus(sc)
    }
}

} // verus!
