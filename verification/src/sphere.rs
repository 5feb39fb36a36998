//! The sphere primitive and its intersection query.
//!
//! The quadratic `|ray(t) - center|^2 = radius^2` is solved over the
//! fixed-point model; any intermediate that leaves the representable range is
//! treated as a miss, which the ghost model states explicitly.
use vstd::prelude::*;

use crate::fx::{fits, sdiv, smul, ssqrt, Fx};
use crate::hitable::{hit_matches, HitRecord, Hitable, SHit};
use crate::material::Material;
use crate::ray::{ray_at, ray_at_ok, Ray};
use crate::vec3::{dot_fits, sdot, vdiv_scalar, vfits, vsub, Vec3, V3};

verus! {

#[derive(Clone, Copy, Debug, PartialEq, Eq, Structural)]
pub struct Sphere {
    pub center: Vec3,
    pub radius: Fx,
    pub material: Material,
}

/// `origin - center`.
pub open spec fn sph_oc(s: Sphere, r: Ray) -> V3 {
    vsub(r.orig@, s.center@)
}

/// Quadratic coefficient `a = dir . dir`.
pub open spec fn sph_a(r: Ray) -> int {
    sdot(r.dir@, r.dir@)
}

/// Quadratic coefficient `b = oc . dir`.
pub open spec fn sph_b(s: Sphere, r: Ray) -> int {
    sdot(sph_oc(s, r), r.dir@)
}

/// Quadratic coefficient `c = oc . oc - radius^2`.
pub open spec fn sph_c(s: Sphere, r: Ray) -> int {
    sdot(sph_oc(s, r), sph_oc(s, r)) - smul(s.radius@, s.radius@)
}

/// Discriminant `b^2 - a * c`.
pub open spec fn sph_disc(s: Sphere, r: Ray) -> int {
    smul(sph_b(s, r), sph_b(s, r)) - smul(sph_a(r), sph_c(s, r))
}

/// The fits conditions up to and including the discriminant.
pub open spec fn sph_pre_ok(s: Sphere, r: Ray) -> bool {
    vfits(sph_oc(s, r)) && dot_fits(r.dir@, r.dir@) && dot_fits(sph_oc(s, r), r.dir@) && dot_fits(
        sph_oc(s, r),
        sph_oc(s, r),
    ) && fits(smul(s.radius@, s.radius@)) && fits(sph_c(s, r)) && fits(
        smul(sph_b(s, r), sph_b(s, r)),
    ) && fits(smul(sph_a(r), sph_c(s, r))) && fits(sph_disc(s, r))
}

/// Numerator of the nearer root, `-b - sqrt(disc)`.
pub open spec fn sph_num1(s: Sphere, r: Ray) -> int {
    -sph_b(s, r) - ssqrt(sph_disc(s, r))
}

/// Numerator of the farther root, `-b + sqrt(disc)`.
pub open spec fn sph_num2(s: Sphere, r: Ray) -> int {
    -sph_b(s, r) + ssqrt(sph_disc(s, r))
}

/// A root numerator divides through without leaving the range.
pub open spec fn sph_root_ok(s: Sphere, r: Ray, num: int) -> bool {
    fits(num) && fits(sdiv(num, sph_a(r)))
}

pub open spec fn sph_t1(s: Sphere, r: Ray) -> int {
    sdiv(sph_num1(s, r), sph_a(r))
}

pub open spec fn sph_t2(s: Sphere, r: Ray) -> int {
    sdiv(sph_num2(s, r), sph_a(r))
}

/// Outward normal at the hit point: `(p - center) / radius`.
pub open spec fn sph_normal(s: Sphere, r: Ray, t: int) -> V3 {
    vdiv_scalar(vsub(ray_at(r, t), s.center@), s.radius@)
}

/// The fits conditions along building a hit record at parameter `t`.
pub open spec fn sph_rec_ok(s: Sphere, r: Ray, t: int) -> bool {
    ray_at_ok(r, t) && vfits(vsub(ray_at(r, t), s.center@)) && s.radius@ != 0 && vfits(
        sph_normal(s, r, t),
    )
}

/// The hit record at parameter `t`, or `None` when it cannot be represented.
pub open spec fn sph_rec(s: Sphere, r: Ray, t: int) -> Option<SHit> {
    if sph_rec_ok(s, r, t) {
        Some(
            SHit {
                t,
                p: ray_at(r, t),
                normal: sph_normal(s, r, t),
                material: s.material,
            },
        )
    } else {
        None
    }
}

/// The ghost intersection query: the nearer root is preferred; a root counts
/// only strictly inside `(t_min, t_max)`; a non-positive discriminant, a
/// degenerate direction, or any value outside the representable range is a
/// miss.
pub open spec fn sphere_hit_spec(s: Sphere, r: Ray, t_min: int, t_max: int) -> Option<SHit> {
    if !sph_pre_ok(s, r) {
        None
    } else if !(sph_disc(s, r) > 0) {
        None
    } else if !(sph_a(r) > 0) {
        None
    } else if !sph_root_ok(s, r, sph_num1(s, r)) {
        None
    } else if t_min < sph_t1(s, r) && sph_t1(s, r) < t_max {
        sph_rec(s, r, sph_t1(s, r))
    } else if !sph_root_ok(s, r, sph_num2(s, r)) {
        None
    } else if t_min < sph_t2(s, r) && sph_t2(s, r) < t_max {
        sph_rec(s, r, sph_t2(s, r))
    } else {
        None
    }
}

impl Sphere {
    pub fn new(center: Vec3, radius: Fx, material: Material) -> (s: Sphere)
        requires
            radius@ > 0,
        ensures
            s.center == center,
            s.radius == radius,
            s.material == material,
    {
        Sphere { center, radius, material }
    }

    /// Builds the hit record at parameter `t`, or reports a miss when it
    /// cannot be represented.
    fn make_record(&self, ray: &Ray, t: Fx) -> (res: Option<HitRecord>)
        ensures
            hit_matches(res, sph_rec(*self, *ray, t@)),
    {
        let p: Vec3 = match ray.try_point_at(t) {
            Some(v) => v,
            None => { return None; },
        };
        let pm: Vec3 = match p.try_minus(self.center) {
            Some(v) => v,
            None => { return None; },
        };
        let normal: Vec3 = match pm.try_div_scalar(self.radius) {
            Some(v) => v,
            None => { return None; },
        };
        Some(HitRecord { t, p, normal, material: self.material })
    }
}

impl Hitable for Sphere {
    open spec fn hit_spec(&self, r: Ray, t_min: int, t_max: int) -> Option<SHit> {
        sphere_hit_spec(*self, r, t_min, t_max)
    }

    fn hit(&self, ray: &Ray, t_min: Fx, t_max: Fx) -> (res: Option<HitRecord>) {
        let oc: Vec3 = match ray.orig.try_minus(self.center) {
            Some(v) => v,
            None => { return None; },
        };
        let a: Fx = match ray.dir.try_dot(&ray.dir) {
            Some(v) => v,
            None => { return None; },
        };
        let b: Fx = match oc.try_dot(&ray.dir) {
            Some(v) => v,
            None => { return None; },
        };
        let oc2: Fx = match oc.try_dot(&oc) {
            Some(v) => v,
            None => { return None; },
        };
        let rr: Fx = match self.radius.try_times(self.radius) {
            Some(v) => v,
            None => { return None; },
        };
        let c: Fx = match oc2.try_minus(rr) {
            Some(v) => v,
            None => { return None; },
        };
        let bb: Fx = match b.try_times(b) {
            Some(v) => v,
            None => { return None; },
        };
        let ac: Fx = match a.try_times(c) {
            Some(v) => v,
            None => { return None; },
        };
        let disc: Fx = match bb.try_minus(ac) {
            Some(v) => v,
            None => { return None; },
        };
        if disc.raw <= 0 {
            return None;
        }
        if a.raw <= 0 {
            return None;
        }
        let sq: Fx = disc.sqrt();
        let nb: Fx = b.neg();
        let num1: Fx = match nb.try_minus(sq) {
            Some(v) => v,
            None => { return None; },
        };
        let t1: Fx = match num1.try_divide(a) {
            Some(v) => v,
            None => { return None; },
        };
        if t_min.raw < t1.raw && t1.raw < t_max.raw {
            return self.make_record(ray, t1);
        }
        let num2: Fx = match nb.try_plus(sq) {
            Some(v) => v,
            None => { return None; },
        };
        let t2: Fx = match num2.try_divide(a) {
            Some(v) => v,
            None => { return None; },
        };
        if t_min.raw < t2.raw && t2.raw < t_max.raw {
            return self.make_record(ray, t2);
        }
        None
    }
}

/// A non-positive discriminant is always a miss.
pub proof fn lemma_sphere_nonpositive_disc_misses(s: Sphere, r: Ray, t_min: int, t_max: int)
    requires
        sph_disc(s, r) <= 0,
    ensures
        sphere_hit_spec(s, r, t_min, t_max) is None,
{
}

/// A reported hit lies strictly inside the query window.
pub proof fn lemma_sphere_hit_in_window(s: Sphere, r: Ray, t_min: int, t_max: int)
    ensures
        sphere_hit_spec(s, r, t_min, t_max) matches Some(h) ==> t_min < h.t < t_max,
{
}

/// Shrinking the far end of the window past a reported hit leaves the query
/// result unchanged.
pub proof fn lemma_sphere_hit_shrink(s: Sphere, r: Ray, t_min: int, w1: int, w2: int)
    requires
        w2 <= w1,
        sphere_hit_spec(s, r, t_min, w1) matches Some(h) && h.t < w2,
    ensures
        sphere_hit_spec(s, r, t_min, w2) == sphere_hit_spec(s, r, t_min, w1),
{
}

/// A sphere missed over a window is also missed over any narrower window.
pub proof fn lemma_sphere_miss_shrink(s: Sphere, r: Ray, t_min: int, w1: int, w2: int)
    requires
        w2 <= w1,
        sphere_hit_spec(s, r, t_min, w1) is None,
    ensures
        sphere_hit_spec(s, r, t_min, w2) is None,
{
    if sph_pre_ok(s, r) && sph_disc(s, r) > 0 && sph_a(r) > 0 && sph_root_ok(
        s,
        r,
        sph_num1(s, r),
    ) {
        crate::fx::lemma_sqrt_floor_nonneg(sph_disc(s, r) * (crate::fx::SCALE as int));
        if sph_root_ok(s, r, sph_num2(s, r)) {
            crate::fx::lemma_sdiv_mono(sph_num1(s, r), sph_num2(s, r), sph_a(r));
        }
    }
}

} // verus!
