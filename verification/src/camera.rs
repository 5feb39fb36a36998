//! The camera: an orthonormal image-plane basis derived once from the view
//! parameters, and per-sample ray generation with an optional thin-lens
//! aperture (depth of field).
use vstd::prelude::*;

use crate::fx::{fits, mag, sdiv, smul, Fx, SCALE};
use crate::ray::Ray;
use crate::utils::{in_unit_disk, random_in_unit_disk};
use crate::vec3::{
    cross_fits, vadd, vcross, vfits, vscale, vsub, vunit, vunit_ok, Vec3, V3,
};

verus! {

#[derive(Clone, Copy, Debug, PartialEq, Eq, Structural)]
pub struct Camera {
    pub origin: Vec3,
    pub lower_left_corner: Vec3,
    pub horizontal: Vec3,
    pub vertical: Vec3,
    pub u: Vec3,
    pub v: Vec3,
    pub w: Vec3,
    pub lens_radius: Fx,
}

/// Basis vector pointing from the target to the eye.
pub open spec fn cam_w(lf: V3, la: V3) -> V3 {
    vunit(vsub(lf, la))
}

/// Basis vector spanning the image plane horizontally.
pub open spec fn cam_u(lf: V3, la: V3, up: V3) -> V3 {
    vunit(vcross(up, cam_w(lf, la)))
}

/// Basis vector spanning the image plane vertically.
pub open spec fn cam_v(lf: V3, la: V3, up: V3) -> V3 {
    vcross(cam_w(lf, la), cam_u(lf, la, up))
}

/// Lens radius: half the aperture.
pub open spec fn cam_lens(ap: int) -> int {
    sdiv(ap, 2 * (SCALE as int))
}

/// Half the image plane width: `aspect * half_height`.
pub open spec fn cam_hw(hh: int, aspect: int) -> int {
    smul(aspect, hh)
}

pub open spec fn cam_horizontal(lf: V3, la: V3, up: V3, hh: int, aspect: int, fd: int) -> V3 {
    vscale(vscale(vscale(cam_u(lf, la, up), 2 * (SCALE as int)), cam_hw(hh, aspect)), fd)
}

pub open spec fn cam_vertical(lf: V3, la: V3, up: V3, hh: int, fd: int) -> V3 {
    vscale(vscale(vscale(cam_v(lf, la, up), 2 * (SCALE as int)), hh), fd)
}

pub open spec fn cam_llc(lf: V3, la: V3, up: V3, hh: int, aspect: int, fd: int) -> V3 {
    vsub(
        vsub(
            vsub(lf, vscale(vscale(cam_u(lf, la, up), cam_hw(hh, aspect)), fd)),
            vscale(vscale(cam_v(lf, la, up), hh), fd),
        ),
        vscale(cam_w(lf, la), fd),
    )
}

/// Size bounds under which ray generation stays within the numeric range:
/// unit-scale basis vectors and scene-scale extents.
pub open spec fn cam_wf(c: Camera) -> bool {
    mag(c.u@.x) <= 4 * (SCALE as int) && mag(c.u@.y) <= 4 * (SCALE as int) && mag(c.u@.z) <= 4 * (
    SCALE as int) && mag(c.v@.x) <= 4 * (SCALE as int) && mag(c.v@.y) <= 4 * (SCALE as int) && mag(
        c.v@.z,
    ) <= 4 * (SCALE as int) && mag(c.origin@.x) <= 0x1000_0000_0000 && mag(c.origin@.y)
        <= 0x1000_0000_0000 && mag(c.origin@.z) <= 0x1000_0000_0000 && mag(c.lower_left_corner@.x)
        <= 0x1000_0000_0000 && mag(c.lower_left_corner@.y) <= 0x1000_0000_0000 && mag(
        c.lower_left_corner@.z,
    ) <= 0x1000_0000_0000 && mag(c.horizontal@.x) <= 0x1000_0000_0000 && mag(c.horizontal@.y)
        <= 0x1000_0000_0000 && mag(c.horizontal@.z) <= 0x1000_0000_0000 && mag(c.vertical@.x)
        <= 0x1000_0000_0000 && mag(c.vertical@.y) <= 0x1000_0000_0000 && mag(c.vertical@.z)
        <= 0x1000_0000_0000 && 0 <= c.lens_radius@ <= 0x1000_0000_0000
}

/// Every intermediate of the construction is representable, the two
/// normalizations are possible, and the result obeys the ray-generation
/// bounds.
pub open spec fn camera_ok(lf: V3, la: V3, up: V3, hh: int, aspect: int, ap: int, fd: int) -> bool {
    vfits(vsub(lf, la)) && vunit_ok(vsub(lf, la)) && cross_fits(up, cam_w(lf, la)) && vunit_ok(
        vcross(up, cam_w(lf, la)),
    ) && cross_fits(cam_w(lf, la), cam_u(lf, la, up)) && fits(cam_lens(ap)) && fits(
        cam_hw(hh, aspect),
    ) && vfits(vscale(cam_u(lf, la, up), 2 * (SCALE as int))) && vfits(
        vscale(vscale(cam_u(lf, la, up), 2 * (SCALE as int)), cam_hw(hh, aspect)),
    ) && vfits(cam_horizontal(lf, la, up, hh, aspect, fd)) && vfits(
        vscale(cam_v(lf, la, up), 2 * (SCALE as int)),
    ) && vfits(vscale(vscale(cam_v(lf, la, up), 2 * (SCALE as int)), hh)) && vfits(
        cam_vertical(lf, la, up, hh, fd),
    ) && vfits(vscale(cam_u(lf, la, up), cam_hw(hh, aspect))) && vfits(
        vscale(vscale(cam_u(lf, la, up), cam_hw(hh, aspect)), fd),
    ) && vfits(vscale(cam_v(lf, la, up), hh)) && vfits(vscale(vscale(cam_v(lf, la, up), hh), fd))
        && vfits(vscale(cam_w(lf, la), fd)) && vfits(
        vsub(lf, vscale(vscale(cam_u(lf, la, up), cam_hw(hh, aspect)), fd)),
    ) && vfits(
        vsub(
            vsub(lf, vscale(vscale(cam_u(lf, la, up), cam_hw(hh, aspect)), fd)),
            vscale(vscale(cam_v(lf, la, up), hh), fd),
        ),
    ) && vfits(cam_llc(lf, la, up, hh, aspect, fd)) && cam_wf(
        Camera {
            origin: Vec3 { x: Fx { raw: lf.x as i64 }, y: Fx { raw: lf.y as i64 }, z: Fx { raw: lf.z as i64 } },
            lower_left_corner: v3_to_vec(cam_llc(lf, la, up, hh, aspect, fd)),
            horizontal: v3_to_vec(cam_horizontal(lf, la, up, hh, aspect, fd)),
            vertical: v3_to_vec(cam_vertical(lf, la, up, hh, fd)),
            u: v3_to_vec(cam_u(lf, la, up)),
            v: v3_to_vec(cam_v(lf, la, up)),
            w: v3_to_vec(cam_w(lf, la)),
            lens_radius: Fx { raw: cam_lens(ap) as i64 },
        },
    )
}

/// Ghost conversion of a raw vector back to its executable form (meaningful
/// only when the components fit).
pub open spec fn v3_to_vec(a: V3) -> Vec3 {
    Vec3 { x: Fx { raw: a.x as i64 }, y: Fx { raw: a.y as i64 }, z: Fx { raw: a.z as i64 } }
}

/// Lens offset of a ray sampled at disk point `rd`.
pub open spec fn cam_offset(c: Camera, rd: V3) -> V3 {
    vadd(
        vscale(c.u@, smul(rd.x, c.lens_radius@)),
        vscale(c.v@, smul(rd.y, c.lens_radius@)),
    )
}

/// Direction of the generated ray for plane coordinates `(s, t)`.
pub open spec fn cam_dir(c: Camera, s: int, t: int, rd: V3) -> V3 {
    vsub(
        vsub(
            vadd(
                vadd(c.lower_left_corner@, vscale(c.horizontal@, s)),
                vscale(c.vertical@, t),
            ),
            c.origin@,
        ),
        cam_offset(c, rd),
    )
}

impl Camera {
    /// Builds a camera from eye position, target, up vector, the tangent of
    /// half the vertical field of view, aspect ratio, aperture and focus
    /// distance; `None` exactly when a basis vector degenerates or a value
    /// leaves the numeric range.
    pub fn try_new(
        lookfrom: Vec3,
        lookat: Vec3,
        vup: Vec3,
        half_height: Fx,
        aspect: Fx,
        aperture: Fx,
        focus_dist: Fx,
    ) -> (res: Option<Camera>)
        ensures
            res is Some <==> camera_ok(
                lookfrom@,
                lookat@,
                vup@,
                half_height@,
                aspect@,
                aperture@,
                focus_dist@,
            ),
            res matches Some(c) ==> c.origin == lookfrom && c.w@ == cam_w(lookfrom@, lookat@)
                && c.u@ == cam_u(lookfrom@, lookat@, vup@) && c.v@ == cam_v(
                lookfrom@,
                lookat@,
                vup@,
            ) && c.lens_radius@ == cam_lens(aperture@) && c.horizontal@ == cam_horizontal(
                lookfrom@,
                lookat@,
                vup@,
                half_height@,
                aspect@,
                focus_dist@,
            ) && c.vertical@ == cam_vertical(
                lookfrom@,
                lookat@,
                vup@,
                half_height@,
                focus_dist@,
            ) && c.lower_left_corner@ == cam_llc(
                lookfrom@,
                lookat@,
                vup@,
                half_height@,
                aspect@,
                focus_dist@,
            ) && cam_wf(c),
    {
        let wd: Vec3 = match lookfrom.try_minus(lookat) {
            Some(v) => v,
            None => { return None; },
        };
        let w: Vec3 = match wd.try_normalized() {
            Some(v) => v,
            None => { return None; },
        };
        let uc: Vec3 = match vup.try_cross(w) {
            Some(v) => v,
            None => { return None; },
        };
        let u: Vec3 = match uc.try_normalized() {
            Some(v) => v,
            None => { return None; },
        };
        let v: Vec3 = match w.try_cross(u) {
            Some(vv) => vv,
            None => { return None; },
        };
        let lens_radius: Fx = match aperture.try_divide(Fx::from_raw(2 * SCALE)) {
            Some(l) => l,
            None => { return None; },
        };
        let half_width: Fx = match aspect.try_times(half_height) {
            Some(h) => h,
            None => { return None; },
        };
        let two: Fx = Fx::from_raw(2 * SCALE);
        let h0: Vec3 = match u.try_scale(two) {
            Some(x) => x,
            None => { return None; },
        };
        let h1: Vec3 = match h0.try_scale(half_width) {
            Some(x) => x,
            None => { return None; },
        };
        let horizontal: Vec3 = match h1.try_scale(focus_dist) {
            Some(x) => x,
            None => { return None; },
        };
        let v0: Vec3 = match v.try_scale(two) {
            Some(x) => x,
            None => { return None; },
        };
        let v1: Vec3 = match v0.try_scale(half_height) {
            Some(x) => x,
            None => { return None; },
        };
        let vertical: Vec3 = match v1.try_scale(focus_dist) {
            Some(x) => x,
            None => { return None; },
        };
        let a1: Vec3 = match u.try_scale(half_width) {
            Some(x) => x,
            None => { return None; },
        };
        let a2: Vec3 = match a1.try_scale(focus_dist) {
            Some(x) => x,
            None => { return None; },
        };
        let b1: Vec3 = match v.try_scale(half_height) {
            Some(x) => x,
            None => { return None; },
        };
        let b2: Vec3 = match b1.try_scale(focus_dist) {
            Some(x) => x,
            None => { return None; },
        };
        let c1: Vec3 = match w.try_scale(focus_dist) {
            Some(x) => x,
            None => { return None; },
        };
        let l1: Vec3 = match lookfrom.try_minus(a2) {
            Some(x) => x,
            None => { return None; },
        };
        let l2: Vec3 = match l1.try_minus(b2) {
            Some(x) => x,
            None => { return None; },
        };
        let lower_left_corner: Vec3 = match l2.try_minus(c1) {
            Some(x) => x,
            None => { return None; },
        };
        let cam = Camera {
            origin: lookfrom,
            lower_left_corner,
            horizontal,
            vertical,
            u,
            v,
            w,
            lens_radius,
        };
        if cam.is_well_formed() {
            Some(cam)
        } else {
            None
        }
    }

    /// As `try_new`, for callers that can guarantee the construction is
    /// representable.
    pub fn new(
        lookfrom: Vec3,
        lookat: Vec3,
        vup: Vec3,
        half_height: Fx,
        aspect: Fx,
        aperture: Fx,
        focus_dist: Fx,
    ) -> (c: Camera)
        requires
            camera_ok(lookfrom@, lookat@, vup@, half_height@, aspect@, aperture@, focus_dist@),
        ensures
            c.origin == lookfrom,
            c.w@ == cam_w(lookfrom@, lookat@),
            c.u@ == cam_u(lookfrom@, lookat@, vup@),
            c.v@ == cam_v(lookfrom@, lookat@, vup@),
            c.lens_radius@ == cam_lens(aperture@),
            c.horizontal@ == cam_horizontal(
                lookfrom@,
                lookat@,
                vup@,
                half_height@,
                aspect@,
                focus_dist@,
            ),
            c.vertical@ == cam_vertical(lookfrom@, lookat@, vup@, half_height@, focus_dist@),
            c.lower_left_corner@ == cam_llc(
                lookfrom@,
                lookat@,
                vup@,
                half_height@,
                aspect@,
                focus_dist@,
            ),
            cam_wf(c),
    {
        match Self::try_new(lookfrom, lookat, vup, half_height, aspect, aperture, focus_dist) {
            Some(c) => c,
            None => {
                // unreachable: try_new succeeds exactly on the inputs this
                // function requires
                proof {
                    assert(false);
                }
                Camera {
                    origin: lookfrom,
                    lower_left_corner: lookat,
                    horizontal: vup,
                    vertical: vup,
                    u: vup,
                    v: vup,
                    w: vup,
                    lens_radius: aperture,
                }
            },
        }
    }

    /// Runtime check of the ray-generation bounds.
    pub fn is_well_formed(&self) -> (r: bool)
        ensures
            r == cam_wf(*self),
    {
        let lim: i64 = 0x1000_0000_0000;
        let ulim: i64 = 4 * SCALE;
        in_mag(self.u.x.raw, ulim) && in_mag(self.u.y.raw, ulim) && in_mag(self.u.z.raw, ulim)
            && in_mag(self.v.x.raw, ulim) && in_mag(self.v.y.raw, ulim) && in_mag(
            self.v.z.raw,
            ulim,
        ) && in_mag(self.origin.x.raw, lim) && in_mag(self.origin.y.raw, lim) && in_mag(
            self.origin.z.raw,
            lim,
        ) && in_mag(self.lower_left_corner.x.raw, lim) && in_mag(self.lower_left_corner.y.raw, lim)
            && in_mag(self.lower_left_corner.z.raw, lim) && in_mag(self.horizontal.x.raw, lim)
            && in_mag(self.horizontal.y.raw, lim) && in_mag(self.horizontal.z.raw, lim) && in_mag(
            self.vertical.x.raw,
            lim,
        ) && in_mag(self.vertical.y.raw, lim) && in_mag(self.vertical.z.raw, lim) && 0
            <= self.lens_radius.raw && self.lens_radius.raw <= lim
    }

    /// The ray through plane coordinates `(s, t)`, its origin jittered inside
    /// the lens aperture. With a zero lens radius the ray is a deterministic
    /// function of `(s, t)` and starts exactly at the camera origin.
    pub fn get_ray(&self, s: Fx, t: Fx) -> (r: Ray)
        requires
            cam_wf(*self),
            0 <= s@ <= SCALE as int,
            0 <= t@ <= SCALE as int,
        ensures
            exists|rd: V3|
                in_unit_disk(rd) && r.orig@ == vadd(self.origin@, cam_offset(*self, rd))
                    && r.dir@ == cam_dir(*self, s@, t@, rd),
            mag(r.orig@.x - self.origin@.x) <= 8 * self.lens_radius@,
            mag(r.orig@.y - self.origin@.y) <= 8 * self.lens_radius@,
            mag(r.orig@.z - self.origin@.z) <= 8 * self.lens_radius@,
            self.lens_radius@ == 0 ==> r.orig == self.origin && r.dir@ == cam_dir(
                *self,
                s@,
                t@,
                V3 { x: 0, y: 0, z: 0 },
            ),
    {
        let rd: Vec3 = random_in_unit_disk();
        proof {
            lemma_get_ray_bounds(*self, s@, t@, rd@);
        }
        let rdx: Fx = rd.x.times(self.lens_radius);
        let rdy: Fx = rd.y.times(self.lens_radius);
        let offset: Vec3 = self.u.scale(rdx).plus(self.v.scale(rdy));
        let orig: Vec3 = self.origin.plus(offset);
        let dir: Vec3 = self
            .lower_left_corner
            .plus(self.horizontal.scale(s))
            .plus(self.vertical.scale(t))
            .minus(self.origin)
            .minus(offset);
        proof {
            assert(orig@ == vadd(self.origin@, cam_offset(*self, rd@)));
            assert(dir@ == cam_dir(*self, s@, t@, rd@));
            if self.lens_radius@ == 0 {
                lemma_offset_zero_lens(*self, rd@);
            }
        }
        Ray::new(orig, dir)
    }
}

fn in_mag(x: i64, lim: i64) -> (r: bool)
    requires
        lim >= 0,
    ensures
        r == (mag(x as int) <= lim as int),
{
    -lim <= x && x <= lim
}

/// With a zero lens radius the lens offset vanishes for every disk point.
proof fn lemma_offset_zero_lens(c: Camera, rd: V3)
    requires
        c.lens_radius@ == 0,
    ensures
        cam_offset(c, rd) == cam_offset(c, V3 { x: 0, y: 0, z: 0 }),
        cam_offset(c, rd) == (V3 { x: 0, y: 0, z: 0 }),
        vadd(c.origin@, cam_offset(c, rd)) == c.origin@,
{
    crate::fx::lemma_smul_le(rd.x, 0, mag(rd.x), 0);
    crate::fx::lemma_smul_le(rd.y, 0, mag(rd.y), 0);
    crate::fx::lemma_smul_le(c.u@.x, smul(rd.x, 0), mag(c.u@.x), 0);
    crate::fx::lemma_smul_le(c.u@.y, smul(rd.x, 0), mag(c.u@.y), 0);
    crate::fx::lemma_smul_le(c.u@.z, smul(rd.x, 0), mag(c.u@.z), 0);
    crate::fx::lemma_smul_le(c.v@.x, smul(rd.y, 0), mag(c.v@.x), 0);
    crate::fx::lemma_smul_le(c.v@.y, smul(rd.y, 0), mag(c.v@.y), 0);
    crate::fx::lemma_smul_le(c.v@.z, smul(rd.y, 0), mag(c.v@.z), 0);
}

/// All intermediates of ray generation stay within the numeric range for a
/// well-formed camera, plane coordinates in `[0, 1]` and a disk point.
proof fn lemma_get_ray_bounds(c: Camera, s: int, t: int, rd: V3)
    requires
        cam_wf(c),
        0 <= s <= SCALE as int,
        0 <= t <= SCALE as int,
        in_unit_disk(rd),
    ensures
        fits(smul(rd.x, c.lens_radius@)),
        fits(smul(rd.y, c.lens_radius@)),
        vfits(vscale(c.u@, smul(rd.x, c.lens_radius@))),
        vfits(vscale(c.v@, smul(rd.y, c.lens_radius@))),
        vfits(cam_offset(c, rd)),
        vfits(vadd(c.origin@, cam_offset(c, rd))),
        vfits(vscale(c.horizontal@, s)),
        vfits(vscale(c.vertical@, t)),
        vfits(vadd(c.lower_left_corner@, vscale(c.horizontal@, s))),
        vfits(
            vadd(vadd(c.lower_left_corner@, vscale(c.horizontal@, s)), vscale(c.vertical@, t)),
        ),
        vfits(
            vsub(
                vadd(
                    vadd(c.lower_left_corner@, vscale(c.horizontal@, s)),
                    vscale(c.vertical@, t),
                ),
                c.origin@,
            ),
        ),
        vfits(cam_dir(c, s, t, rd)),
        mag(cam_offset(c, rd).x) <= 8 * c.lens_radius@,
        mag(cam_offset(c, rd).y) <= 8 * c.lens_radius@,
        mag(cam_offset(c, rd).z) <= 8 * c.lens_radius@,
{
    let sc = SCALE as int;
    let lim: int = 0x1000_0000_0000;
    let lens = c.lens_radius@;
    crate::fx::lemma_smul_le(rd.x, lens, sc, lens);
    crate::fx::lemma_smul_le(rd.y, lens, sc, lens);
    vstd::arithmetic::div_mod::lemma_div_multiples_vanish(lens, sc);
    let rx = smul(rd.x, c.lens_radius@);
    let ry = smul(rd.y, c.lens_radius@);
    crate::fx::lemma_smul_le(c.u@.x, rx, 4 * sc, lens);
    crate::fx::lemma_smul_le(c.u@.y, rx, 4 * sc, lens);
    crate::fx::lemma_smul_le(c.u@.z, rx, 4 * sc, lens);
    crate::fx::lemma_smul_le(c.v@.x, ry, 4 * sc, lens);
    crate::fx::lemma_smul_le(c.v@.y, ry, 4 * sc, lens);
    crate::fx::lemma_smul_le(c.v@.z, ry, 4 * sc, lens);
    assert(4 * sc * lens == sc * (4 * lens)) by (nonlinear_arith);
    vstd::arithmetic::div_mod::lemma_div_multiples_vanish(4 * lens, sc);
    crate::fx::lemma_smul_le(c.u@.x, rx, 4 * sc, lim);
    crate::fx::lemma_smul_le(c.u@.y, rx, 4 * sc, lim);
    crate::fx::lemma_smul_le(c.u@.z, rx, 4 * sc, lim);
    crate::fx::lemma_smul_le(c.v@.x, ry, 4 * sc, lim);
    crate::fx::lemma_smul_le(c.v@.y, ry, 4 * sc, lim);
    crate::fx::lemma_smul_le(c.v@.z, ry, 4 * sc, lim);
    crate::fx::lemma_smul_le(c.horizontal@.x, s, lim, sc);
    crate::fx::lemma_smul_le(c.horizontal@.y, s, lim, sc);
    crate::fx::lemma_smul_le(c.horizontal@.z, s, lim, sc);
    crate::fx::lemma_smul_le(c.vertical@.x, t, lim, sc);
    crate::fx::lemma_smul_le(c.vertical@.y, t, lim, sc);
    crate::fx::lemma_smul_le(c.vertical@.z, t, lim, sc);
}

} // verus!
