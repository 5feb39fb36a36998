//! Reflection, refraction, the Schlick reflectance approximation, and
//! rejection sampling of points in the unit sphere and unit disk.
use vstd::prelude::*;

use crate::fx::{fits, mag, sclamp, sdiv, smul, ssqrt, Fx, SCALE};
use crate::vec3::{
    dot_fits, lemma_sdot_self_nonneg, sdot, vfits, vscale, vsub, vunit, vunit_ok, Vec3, V3,
};

verus! {

/// Relies on rand::random: a uniformly distributed `u32` from the process-wide
/// generator; nothing is assumed of the value. The thread-local generator it
/// uses panics if operating-system randomness is unavailable at first use or
/// at a reseed — an input-independent environment failure, like running out
/// of memory, that no precondition could exclude.
#[verifier::external_body]
fn random_u32() -> u32 {
    rand::random::<u32>()
}

/// A uniformly sampled fixed-point value in `[0, 1)`.
pub fn random_unit_fraction() -> (r: Fx)
    ensures
        0 <= r@ < SCALE as int,
{
    let u: u32 = random_u32();
    Fx::from_raw((u % 65536) as i64)
}

/// Strictly inside the unit sphere: every component and the squared length
/// are representable, and the squared length is below one.
pub open spec fn in_unit_sphere(v: V3) -> bool {
    mag(v.x) <= SCALE as int && mag(v.y) <= SCALE as int && mag(v.z) <= SCALE as int && dot_fits(
        v,
        v,
    ) && sdot(v, v) < SCALE as int
}

/// A component sampled uniformly from `[-1, 1)`.
fn random_symmetric_fraction() -> (r: Fx)
    ensures
        mag(r@) <= SCALE as int,
{
    let u: u32 = random_u32();
    Fx::from_raw(2 * ((u % 65536) as i64) - SCALE)
}

/// A point strictly inside the unit sphere, by rejection sampling from the
/// enclosing cube; after too many rejections the center is returned.
pub fn random_in_unit_sphere() -> (p: Vec3)
    ensures
        in_unit_sphere(p@),
{
    let mut tries: u32 = 0;
    while tries < 64
        invariant
            tries <= 64,
        decreases 64 - tries,
    {
        let p = Vec3::new(
            random_symmetric_fraction(),
            random_symmetric_fraction(),
            random_symmetric_fraction(),
        );
        proof {
            lemma_cube_dot_fits(p@);
        }
        let sl: Fx = p.squared_length();
        if sl.raw < SCALE {
            return p;
        }
        tries = tries + 1;
    }
    proof {
        lemma_cube_dot_fits(V3 { x: 0, y: 0, z: 0 });
    }
    Vec3::zero()
}

/// Strictly inside the unit disk of the xy-plane.
pub open spec fn in_unit_disk(v: V3) -> bool {
    in_unit_sphere(v) && v.z == 0
}

/// A point strictly inside the unit disk, by rejection sampling from the
/// enclosing square; after too many rejections the center is returned.
pub fn random_in_unit_disk() -> (p: Vec3)
    ensures
        in_unit_disk(p@),
{
    let mut tries: u32 = 0;
    while tries < 64
        invariant
            tries <= 64,
        decreases 64 - tries,
    {
        let p = Vec3::new(random_symmetric_fraction(), random_symmetric_fraction(), Fx::zero());
        proof {
            lemma_cube_dot_fits(p@);
        }
        let sl: Fx = p.squared_length();
        if sl.raw < SCALE {
            return p;
        }
        tries = tries + 1;
    }
    proof {
        lemma_cube_dot_fits(V3 { x: 0, y: 0, z: 0 });
    }
    Vec3::zero()
}

/// The center is strictly inside the unit sphere.
pub proof fn lemma_zero_in_unit_sphere()
    ensures
        in_unit_sphere(V3 { x: 0, y: 0, z: 0 }),
{
    lemma_cube_dot_fits(V3 { x: 0, y: 0, z: 0 });
}

/// A vector with components of magnitude at most one has a representable
/// dot product with itself.
proof fn lemma_cube_dot_fits(v: V3)
    requires
        mag(v.x) <= SCALE as int,
        mag(v.y) <= SCALE as int,
        mag(v.z) <= SCALE as int,
    ensures
        dot_fits(v, v),
{
    crate::fx::lemma_smul_le(v.x, v.x, SCALE as int, SCALE as int);
    crate::fx::lemma_smul_le(v.y, v.y, SCALE as int, SCALE as int);
    crate::fx::lemma_smul_le(v.z, v.z, SCALE as int, SCALE as int);
    lemma_sdot_self_nonneg(v);
}

/// Mirror of `v` about the normal `n`: `v - n * (v . n) * 2`.
pub open spec fn sreflect(v: V3, n: V3) -> V3 {
    vsub(v, vscale(vscale(n, sdot(v, n)), 2 * (SCALE as int)))
}

/// The fits conditions along the computation of a reflection.
pub open spec fn reflect_ok(v: V3, n: V3) -> bool {
    dot_fits(v, n) && vfits(vscale(n, sdot(v, n))) && vfits(
        vscale(vscale(n, sdot(v, n)), 2 * (SCALE as int)),
    ) && vfits(sreflect(v, n))
}

pub fn reflect(v: &Vec3, n: &Vec3) -> (r: Vec3)
    requires
        reflect_ok(v@, n@),
    ensures
        r@ == sreflect(v@, n@),
{
    let d: Fx = v.dot(n);
    v.minus(n.scale(d).scale(Fx::from_raw(2 * SCALE)))
}

/// Checked reflection: `None` exactly when an intermediate leaves the range.
pub fn try_reflect(v: &Vec3, n: &Vec3) -> (r: Option<Vec3>)
    ensures
        match r {
            Some(w) => reflect_ok(v@, n@) && w@ == sreflect(v@, n@),
            None => !reflect_ok(v@, n@),
        },
{
    let d: Fx = match v.try_dot(n) {
        Some(d) => d,
        None => { return None; },
    };
    let nd: Vec3 = match n.try_scale(d) {
        Some(w) => w,
        None => { return None; },
    };
    let nd2: Vec3 = match nd.try_scale(Fx::from_raw(2 * SCALE)) {
        Some(w) => w,
        None => { return None; },
    };
    v.try_minus(nd2)
}

/// Snell discriminant `1 - ni^2 * (1 - dt^2)` with `dt = unit(v) . n`.
pub open spec fn refract_disc(v: V3, n: V3, ni: int) -> int {
    SCALE as int - smul(
        smul(ni, ni),
        SCALE as int - smul(sdot(vunit(v), n), sdot(vunit(v), n)),
    )
}

/// The fits conditions up to and including the Snell discriminant.
pub open spec fn refract_pre_ok(v: V3, n: V3, ni: int) -> bool {
    vunit_ok(v) && dot_fits(vunit(v), n) && fits(smul(ni, ni)) && fits(
        smul(sdot(vunit(v), n), sdot(vunit(v), n)),
    ) && fits(SCALE as int - smul(sdot(vunit(v), n), sdot(vunit(v), n))) && fits(
        smul(smul(ni, ni), SCALE as int - smul(sdot(vunit(v), n), sdot(vunit(v), n))),
    ) && fits(refract_disc(v, n, ni))
}

/// The refracted direction `(unit(v) - n * dt) * ni - n * sqrt(disc)`.
pub open spec fn refract_out(v: V3, n: V3, ni: int) -> V3 {
    vsub(
        vscale(vsub(vunit(v), vscale(n, sdot(vunit(v), n))), ni),
        vscale(n, ssqrt(refract_disc(v, n, ni))),
    )
}

/// The fits conditions along building the refracted direction.
pub open spec fn refract_out_ok(v: V3, n: V3, ni: int) -> bool {
    vfits(vscale(n, sdot(vunit(v), n))) && vfits(vsub(vunit(v), vscale(n, sdot(vunit(v), n))))
        && vfits(vscale(vsub(vunit(v), vscale(n, sdot(vunit(v), n))), ni)) && vfits(
        vscale(n, ssqrt(refract_disc(v, n, ni))),
    ) && vfits(refract_out(v, n, ni))
}

/// The ghost refraction result: `None` on total internal reflection
/// (non-positive discriminant) and on any value outside the range.
pub open spec fn refract_spec(v: V3, n: V3, ni: int) -> Option<V3> {
    if !refract_pre_ok(v, n, ni) {
        None
    } else if !(refract_disc(v, n, ni) > 0) {
        None
    } else if !refract_out_ok(v, n, ni) {
        None
    } else {
        Some(refract_out(v, n, ni))
    }
}

/// Snell's-law refraction; `None` means only reflection is possible.
pub fn refract(v: &Vec3, n: &Vec3, ni_over_nt: Fx) -> (res: Option<Vec3>)
    ensures
        match res {
            Some(w) => refract_spec(v@, n@, ni_over_nt@) == Some(w@),
            None => refract_spec(v@, n@, ni_over_nt@) is None,
        },
{
    let uv: Vec3 = match v.try_normalized() {
        Some(u) => u,
        None => { return None; },
    };
    let dt: Fx = match uv.try_dot(n) {
        Some(d) => d,
        None => { return None; },
    };
    let nn: Fx = match ni_over_nt.try_times(ni_over_nt) {
        Some(w) => w,
        None => { return None; },
    };
    let dt2: Fx = match dt.try_times(dt) {
        Some(w) => w,
        None => { return None; },
    };
    let a: Fx = match Fx::one().try_minus(dt2) {
        Some(w) => w,
        None => { return None; },
    };
    let b: Fx = match nn.try_times(a) {
        Some(w) => w,
        None => { return None; },
    };
    let disc: Fx = match Fx::one().try_minus(b) {
        Some(w) => w,
        None => { return None; },
    };
    if disc.raw > 0 {
        let nd: Vec3 = match n.try_scale(dt) {
            Some(w) => w,
            None => { return None; },
        };
        let um: Vec3 = match uv.try_minus(nd) {
            Some(w) => w,
            None => { return None; },
        };
        let sc: Vec3 = match um.try_scale(ni_over_nt) {
            Some(w) => w,
            None => { return None; },
        };
        let sq: Fx = disc.sqrt();
        let ns: Vec3 = match n.try_scale(sq) {
            Some(w) => w,
            None => { return None; },
        };
        sc.try_minus(ns)
    } else {
        None
    }
}

/// `r0 = ((1 - ri) / (1 + ri))^2`, the reflectance at normal incidence.
pub open spec fn schlick_r0(ri: int) -> int {
    smul(sdiv(SCALE as int - ri, SCALE as int + ri), sdiv(SCALE as int - ri, SCALE as int + ri))
}

/// Fifth power with fixed-point truncation at every step.
pub open spec fn spow5(x: int) -> int {
    smul(smul(smul(smul(x, x), x), x), x)
}

/// Schlick's reflectance `r0 + (1 - r0) * (1 - cosine)^5`.
pub open spec fn schlick_spec(c: int, ri: int) -> int {
    schlick_r0(ri) + smul(SCALE as int - schlick_r0(ri), spow5(SCALE as int - c))
}

pub fn schlick(cosine: Fx, ref_idx: Fx) -> (r: Fx)
    requires
        mag(cosine@) <= SCALE as int,
        0 <= ref_idx@,
        fits(SCALE as int + ref_idx@),
    ensures
        r@ == schlick_spec(cosine@, ref_idx@),
{
    proof {
        lemma_schlick_parts(cosine@, ref_idx@);
    }
    let q: Fx = Fx::one().minus(ref_idx).divide(Fx::one().plus(ref_idx));
    let r0: Fx = q.times(q);
    let x: Fx = Fx::one().minus(cosine);
    let x2: Fx = x.times(x);
    let x3: Fx = x2.times(x);
    let x4: Fx = x3.times(x);
    let x5: Fx = x4.times(x);
    r0.plus(Fx::one().minus(r0).times(x5))
}

/// The normal-incidence reflectance lies in `[0, 1]` for a nonnegative
/// refractive index.
pub proof fn lemma_schlick_r0_range(ri: int)
    requires
        0 <= ri,
    ensures
        mag(sdiv(SCALE as int - ri, SCALE as int + ri)) <= SCALE as int,
        0 <= schlick_r0(ri) <= SCALE as int,
{
    let s = SCALE as int;
    crate::fx::lemma_sdiv_le_one(s - ri, s + ri);
    let q = sdiv(s - ri, s + ri);
    crate::fx::lemma_smul_le(q, q, s, s);
    lemma_smul_sq_nonneg_util(q);
}

/// Range facts along the Schlick computation: the base ratio, its square and
/// the truncated fifth power all stay in small ranges.
proof fn lemma_schlick_parts(c: int, ri: int)
    requires
        mag(c) <= SCALE as int,
        0 <= ri,
        fits(SCALE as int + ri),
    ensures
        mag(sdiv(SCALE as int - ri, SCALE as int + ri)) <= SCALE as int,
        0 <= schlick_r0(ri) <= SCALE as int,
        mag(smul(SCALE as int - c, SCALE as int - c)) <= 4 * (SCALE as int),
        mag(smul(smul(SCALE as int - c, SCALE as int - c), SCALE as int - c)) <= 8 * (
        SCALE as int),
        mag(
            smul(smul(smul(SCALE as int - c, SCALE as int - c), SCALE as int - c), SCALE as int
                - c),
        ) <= 16 * (SCALE as int),
        mag(spow5(SCALE as int - c)) <= 32 * (SCALE as int),
        mag(smul(SCALE as int - schlick_r0(ri), spow5(SCALE as int - c))) <= 32 * (SCALE as int),
        fits(schlick_spec(c, ri)),
{
    let s = SCALE as int;
    lemma_schlick_r0_range(ri);
    let x = s - c;
    crate::fx::lemma_smul_le(x, x, 2 * s, 2 * s);
    let x2 = smul(x, x);
    crate::fx::lemma_smul_le(x2, x, 4 * s, 2 * s);
    let x3 = smul(x2, x);
    crate::fx::lemma_smul_le(x3, x, 8 * s, 2 * s);
    let x4 = smul(x3, x);
    crate::fx::lemma_smul_le(x4, x, 16 * s, 2 * s);
    crate::fx::lemma_smul_le(s - schlick_r0(ri), spow5(x), s, 32 * s);
}

proof fn lemma_smul_sq_nonneg_util(x: int)
    by (nonlinear_arith)
    ensures
        smul(x, x) >= 0,
{
    assert(x * x >= 0);
    assert(mag(x * x) == x * x);
    assert(smul(x, x) == mag(x * x) / (SCALE as int));
}

/// At normal incidence (`cosine = 1`) the Schlick reflectance is exactly
/// `r0 = ((1 - ref_idx) / (1 + ref_idx))^2`.
pub proof fn lemma_schlick_normal_incidence(ri: int)
    ensures
        schlick_spec(SCALE as int, ri) == schlick_r0(ri),
{
    let s = SCALE as int;
    assert(spow5(0) == 0);
    assert((s - schlick_r0(ri)) * 0 == 0);
    assert(smul(s - schlick_r0(ri), 0) == 0);
}

/// As the cosine decreases (toward grazing incidence), the Schlick
/// reflectance never decreases.
pub proof fn lemma_schlick_monotone(c1: int, c2: int, ri: int)
    requires
        0 <= c1 <= c2 <= SCALE as int,
        0 <= ri,
    ensures
        schlick_spec(c2, ri) <= schlick_spec(c1, ri),
{
    let s = SCALE as int;
    lemma_schlick_r0_range(ri);
    lemma_spow5_mono(s - c2, s - c1);
    lemma_smul_mono_right(s - schlick_r0(ri), spow5(s - c2), spow5(s - c1));
}

/// Monotonicity of the truncated fifth power on nonnegative inputs.
proof fn lemma_spow5_mono(x1: int, x2: int)
    requires
        0 <= x1 <= x2,
    ensures
        0 <= spow5(x1) <= spow5(x2),
{
    lemma_smul_mono_pair(x1, x1, x2, x2);
    lemma_smul_mono_pair(smul(x1, x1), x1, smul(x2, x2), x2);
    lemma_smul_mono_pair(smul(smul(x1, x1), x1), x1, smul(smul(x2, x2), x2), x2);
    lemma_smul_mono_pair(
        smul(smul(smul(x1, x1), x1), x1),
        x1,
        smul(smul(smul(x2, x2), x2), x2),
        x2,
    );
}

/// Truncated multiplication is monotone on nonnegative operand pairs.
pub proof fn lemma_smul_mono_pair(a1: int, b1: int, a2: int, b2: int)
    requires
        0 <= a1 <= a2,
        0 <= b1 <= b2,
    ensures
        0 <= smul(a1, b1) <= smul(a2, b2),
{
    assert(0 <= a1 * b1 <= a2 * b2) by (nonlinear_arith)
        requires
            0 <= a1 <= a2,
            0 <= b1 <= b2,
    ;
    assert(mag(a1 * b1) == a1 * b1 && mag(a2 * b2) == a2 * b2);
    vstd::arithmetic::div_mod::lemma_div_is_ordered(a1 * b1, a2 * b2, SCALE as int);
    vstd::arithmetic::div_mod::lemma_div_pos_is_pos(a1 * b1, SCALE as int);
}

/// Truncated multiplication by a nonnegative factor is monotone in the other
/// nonnegative operand.
proof fn lemma_smul_mono_right(k: int, b1: int, b2: int)
    requires
        0 <= k,
        0 <= b1 <= b2,
    ensures
        smul(k, b1) <= smul(k, b2),
{
    lemma_smul_mono_pair(k, b1, k, b2);
}

} // verus!
