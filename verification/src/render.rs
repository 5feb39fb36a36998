//! The Monte Carlo integrator: recursive ray color evaluation against the
//! scene, per-pixel sample averaging, gamma correction and quantization to
//! 8-bit channels.
use vstd::prelude::*;

use crate::camera::{cam_wf, Camera};
use crate::fx::{
    fits, lemma_smul_one, lemma_smul_zero, lemma_sqrt_floor_mono, sclamp, smul, ssqrt, tdiv, Fx,
    SCALE,
};
use crate::hitable::{list_hit_spec, Hitable, HitableList};
use crate::ray::Ray;
use crate::utils::lemma_smul_mono_pair;
use crate::vec3::{vadd, vscale, vunit, vunit_ok, Vec3, V3};

verus! {

/// Recursion cap of the light-transport evaluation.
pub const MAX_DEPTH: u32 = 50;

/// Lower intersection bound, about one thousandth of a unit, to avoid
/// immediate re-intersection of scattered rays ("shadow acne").
pub const T_MIN_RAW: i64 = 66;

/// Upper intersection bound: the whole representable range.
pub const T_MAX_RAW: i64 = 0x7fff_ffff_ffff_ffff;

/// The quantization factor 255.99, in fixed point (rounded down).
pub const QUANT_RAW: i64 = 16776069;

/// Vertical unit component of a ray's direction; a direction whose
/// normalization is not representable counts as level.
pub open spec fn bg_uy(r: Ray) -> int {
    if vunit_ok(r.dir@) {
        vunit(r.dir@).y
    } else {
        0
    }
}

/// Blend parameter `0.5 * (unit_dir.y + 1)`, clamped to `[0, 1]`.
pub open spec fn bg_t(r: Ray) -> int {
    (sclamp(bg_uy(r), -(SCALE as int), SCALE as int) + SCALE as int) / 2
}

pub open spec fn white_v3() -> V3 {
    V3 { x: SCALE as int, y: SCALE as int, z: SCALE as int }
}

/// Sky blue, `(0.5, 0.7, 1.0)` in fixed point.
pub open spec fn sky_v3() -> V3 {
    V3 { x: 32768, y: 45875, z: SCALE as int }
}

/// The background gradient `white * (1 - t) + skyblue * t`.
pub open spec fn bg_color(r: Ray) -> V3 {
    vadd(vscale(white_v3(), SCALE as int - bg_t(r)), vscale(sky_v3(), bg_t(r)))
}

/// The background gradient for a ray that escapes the scene.
pub fn background(r: &Ray) -> (c: Vec3)
    ensures
        c@ == bg_color(*r),
        0 <= c@.x <= SCALE as int,
        0 <= c@.y <= SCALE as int,
        0 <= c@.z <= SCALE as int,
{
    let uy: Fx = match r.dir.try_normalized() {
        Some(u) => u.y,
        None => Fx::zero(),
    };
    let uyc: Fx = uy.clamp(Fx::from_raw(-SCALE), Fx::one());
    let tn: u64 = (uyc.raw + SCALE) as u64;
    let t: Fx = Fx::from_raw((tn / 2) as i64);
    proof {
        lemma_blend_bounds(bg_t(*r));
    }
    let white: Vec3 = Vec3::new(Fx::one(), Fx::one(), Fx::one());
    let sky: Vec3 = Vec3::new(Fx::from_raw(32768), Fx::from_raw(45875), Fx::one());
    white.scale(Fx::one().minus(t)).plus(sky.scale(t))
}

/// For a blend parameter in `[0, 1]` every blended channel lies in `[0, 1]`.
proof fn lemma_blend_bounds(t: int)
    requires
        0 <= t <= SCALE as int,
    ensures
        forall|k: int|
            0 <= k <= SCALE as int ==> 0 <= #[trigger] smul(k, t) <= t && smul(k, t) <= k,
        forall|k: int|
            0 <= k <= SCALE as int ==> 0 <= #[trigger] smul(k, SCALE as int - t) <= SCALE as int
                - t,
{
    let s = SCALE as int;
    assert forall|k: int| 0 <= k <= s implies 0 <= #[trigger] smul(k, t) <= t && smul(k, t)
        <= k by {
        lemma_smul_mono_pair(k, t, s, t);
        lemma_smul_one(t);
        lemma_smul_mono_pair(k, t, k, s);
        lemma_smul_one(k);
    }
    assert forall|k: int| 0 <= k <= s implies 0 <= #[trigger] smul(k, s - t) <= s - t by {
        lemma_smul_mono_pair(k, s - t, s, s - t);
        lemma_smul_one(s - t);
    }
}

/// At a fully vertical unit direction the gradient is exactly sky blue; at a
/// fully downward one it is exactly white.
pub proof fn lemma_background_endpoints(r: Ray)
    ensures
        bg_uy(r) >= SCALE as int ==> bg_color(r) == sky_v3(),
        bg_uy(r) <= -(SCALE as int) ==> bg_color(r) == white_v3(),
{
    let s = SCALE as int;
    if bg_uy(r) >= s {
        assert(bg_t(r) == s);
        lemma_smul_zero(s);
        lemma_smul_one(32768);
        lemma_smul_one(45875);
        lemma_smul_one(s);
    }
    if bg_uy(r) <= -s {
        assert(bg_t(r) == 0);
        lemma_smul_zero(32768);
        lemma_smul_zero(45875);
        lemma_smul_zero(s);
        lemma_smul_one(s);
    }
}

/// The attenuation every scatter of a material carries: the albedo of a
/// diffuse or reflective surface, opaque white for a refractive one.
pub open spec fn scatter_attenuation(m: crate::material::Material) -> V3 {
    match m {
        crate::material::Material::Lambertian(l) => l.albedo@,
        crate::material::Material::Metal(mt) => mt.albedo@,
        crate::material::Material::Dielectric(_) => white_v3(),
    }
}

/// Component-wise attenuation at the ghost level.
pub open spec fn attenuated(a: V3, c: V3) -> V3 {
    V3 { x: att_channel(a.x, c.x), y: att_channel(a.y, c.y), z: att_channel(a.z, c.z) }
}

/// One channel of `attenuation * color`, clamped to the color range; a
/// product outside the numeric range contributes black.
pub open spec fn att_channel(a: int, c: int) -> int {
    if fits(smul(a, c)) {
        sclamp(smul(a, c), 0, SCALE as int)
    } else {
        0
    }
}

/// Component-wise attenuation, every channel clamped to `[0, 1]`.
pub fn attenuate(a: Vec3, c: Vec3) -> (r: Vec3)
    ensures
        r@ == (V3 {
            x: att_channel(a@.x, c@.x),
            y: att_channel(a@.y, c@.y),
            z: att_channel(a@.z, c@.z),
        }),
        0 <= r@.x <= SCALE as int,
        0 <= r@.y <= SCALE as int,
        0 <= r@.z <= SCALE as int,
{
    Vec3::new(att_channel_exec(a.x, c.x), att_channel_exec(a.y, c.y), att_channel_exec(a.z, c.z))
}

fn att_channel_exec(a: Fx, c: Fx) -> (r: Fx)
    ensures
        r@ == att_channel(a@, c@),
        0 <= r@ <= SCALE as int,
{
    match a.try_times(c) {
        Some(v) => v.clamp(Fx::zero(), Fx::one()),
        None => Fx::zero(),
    }
}

/// The color carried by a ray: the background gradient if it escapes, black
/// at the recursion cap or on absorption, and otherwise the scattered ray's
/// color attenuated by the hit material.
pub fn color(ray: &Ray, world: &HitableList, depth: u32) -> (c: Vec3)
    ensures
        0 <= c@.x <= SCALE as int,
        0 <= c@.y <= SCALE as int,
        0 <= c@.z <= SCALE as int,
        list_hit_spec(world.list@, *ray, T_MIN_RAW as int, T_MAX_RAW as int) is None ==> c@
            == bg_color(*ray),
        list_hit_spec(world.list@, *ray, T_MIN_RAW as int, T_MAX_RAW as int) is Some && depth
            >= MAX_DEPTH ==> c@ == (V3 { x: 0, y: 0, z: 0 }),
        list_hit_spec(world.list@, *ray, T_MIN_RAW as int, T_MAX_RAW as int) matches Some(g) ==> (
        depth < MAX_DEPTH ==> (c@ == (V3 { x: 0, y: 0, z: 0 }) || exists|rc: V3|
            0 <= rc.x <= SCALE as int && 0 <= rc.y <= SCALE as int && 0 <= rc.z <= SCALE as int
                && c@ == attenuated(scatter_attenuation(g.material), rc))),
    decreases MAX_DEPTH - depth,
{
    match world.hit(ray, Fx::from_raw(T_MIN_RAW), Fx::from_raw(T_MAX_RAW)) {
        Some(rec) => {
            if depth >= MAX_DEPTH {
                return Vec3::zero();
            }
            match rec.material.scatter(ray, &rec) {
                Some(scat) => {
                    let rest: Vec3 = color(&scat.out_ray, world, depth + 1);
                    let out: Vec3 = attenuate(scat.attenuation, rest);
                    proof {
                        assert(scat.attenuation@ == scatter_attenuation(rec.material));
                        assert(0 <= rest@.x <= SCALE as int && 0 <= rest@.y <= SCALE as int && 0
                            <= rest@.z <= SCALE as int && out@ == attenuated(
                            scatter_attenuation(rec.material),
                            rest@,
                        ));
                    }
                    out
                },
                None => Vec3::zero(),
            }
        },
        None => background(ray),
    }
}

/// Divide an accumulated color by the sample count, channel by channel.
pub fn average_color(col: Vec3, ns: u32) -> (r: Vec3)
    requires
        ns >= 1,
        0 <= col@.x,
        0 <= col@.y,
        0 <= col@.z,
    ensures
        r@ == (V3 { x: col@.x / (ns as int), y: col@.y / (ns as int), z: col@.z / (ns as int) }),
        0 <= r@.x <= col@.x,
        0 <= r@.y <= col@.y,
        0 <= r@.z <= col@.z,
{
    proof {
        vstd::arithmetic::div_mod::lemma_div_pos_is_pos(col@.x, ns as int);
        vstd::arithmetic::div_mod::lemma_div_pos_is_pos(col@.y, ns as int);
        vstd::arithmetic::div_mod::lemma_div_pos_is_pos(col@.z, ns as int);
        vstd::arithmetic::div_mod::lemma_div_is_ordered_by_denominator(col@.x, 1, ns as int);
        vstd::arithmetic::div_mod::lemma_div_is_ordered_by_denominator(col@.y, 1, ns as int);
        vstd::arithmetic::div_mod::lemma_div_is_ordered_by_denominator(col@.z, 1, ns as int);
    }
    Vec3::new(
        Fx::from_raw(((col.x.raw as u64) / (ns as u64)) as i64),
        Fx::from_raw(((col.y.raw as u64) / (ns as u64)) as i64),
        Fx::from_raw(((col.z.raw as u64) / (ns as u64)) as i64),
    )
}

/// Averaging `n` identical nonnegative samples reproduces the sample
/// exactly: accumulation then division is lossless when the variance is
/// zero.
pub proof fn lemma_average_exact(c: int, n: int)
    requires
        0 <= c,
        1 <= n,
    ensures
        (n * c) / n == c,
{
    vstd::arithmetic::div_mod::lemma_div_multiples_vanish(c, n);
}

/// Square-root gamma correction of one channel.
pub fn gamma_channel(c: Fx) -> (r: Fx)
    requires
        0 <= c@,
    ensures
        r@ == ssqrt(c@),
        0 <= r@,
        c@ <= SCALE as int ==> r@ <= SCALE as int,
{
    proof {
        if c@ <= SCALE as int {
            lemma_sqrt_floor_mono(c@ * (SCALE as int), (SCALE as int) * (SCALE as int));
            crate::fx::lemma_isqrt_unique((SCALE as int) * (SCALE as int), SCALE as int);
        }
    }
    c.sqrt()
}

/// The byte value of one gamma-corrected channel: `255.99 * sqrt(c)`,
/// truncated, saturating at 255.
pub open spec fn quantize_spec(c: int) -> int {
    if tdiv(smul(QUANT_RAW as int, ssqrt(c)), SCALE as int) > 255 {
        255
    } else {
        tdiv(smul(QUANT_RAW as int, ssqrt(c)), SCALE as int)
    }
}

pub fn quantize_channel(c: Fx) -> (r: u8)
    requires
        0 <= c@,
    ensures
        r as int == quantize_spec(c@),
        c@ <= SCALE as int ==> r as int == tdiv(smul(QUANT_RAW as int, ssqrt(c@)), SCALE as int),
{
    let g: Fx = gamma_channel(c);
    proof {
        lemma_quantize_bounds(c@);
    }
    let scaled: Fx = match g.try_times(Fx::from_raw(QUANT_RAW)) {
        Some(v) => v,
        None => {
            return 255;
        },
    };
    let q: u64 = (scaled.raw as u64) / (SCALE as u64);
    if q > 255 {
        255
    } else {
        q as u8
    }
}

/// The scaled gamma value is nonnegative, and for an in-range channel the
/// quantized byte stays below 256.
proof fn lemma_quantize_bounds(c: int)
    requires
        0 <= c,
    ensures
        0 <= smul(ssqrt(c), QUANT_RAW as int),
        smul(ssqrt(c), QUANT_RAW as int) == smul(QUANT_RAW as int, ssqrt(c)),
        0 <= tdiv(smul(QUANT_RAW as int, ssqrt(c)), SCALE as int),
        c <= SCALE as int ==> tdiv(smul(QUANT_RAW as int, ssqrt(c)), SCALE as int) <= 255,
        fits(smul(QUANT_RAW as int, ssqrt(c))) ==> tdiv(smul(QUANT_RAW as int, ssqrt(c)),
            SCALE as int,
        ) == (smul(QUANT_RAW as int, ssqrt(c))) / (SCALE as int),
{
    let s = SCALE as int;
    let q = QUANT_RAW as int;
    crate::fx::lemma_sqrt_floor_nonneg(c * s);
    lemma_smul_mono_pair(ssqrt(c), q, ssqrt(c), q);
    assert(ssqrt(c) * q == q * ssqrt(c)) by (nonlinear_arith);
    lemma_smul_mono_pair(q, ssqrt(c), q, ssqrt(c));
    if c <= s {
        lemma_sqrt_floor_mono(c * s, s * s);
        crate::fx::lemma_isqrt_unique(s * s, s);
        lemma_smul_mono_pair(q, ssqrt(c), q, s);
        lemma_smul_one(q);
        crate::fx::lemma_tdiv_mono(smul(q, ssqrt(c)), q, s);
    }
}

/// `1.0` quantizes to exactly 255 and `0.0` to exactly 0.
pub proof fn lemma_quantize_endpoints()
    ensures
        quantize_spec(SCALE as int) == 255,
        quantize_spec(0) == 0,
{
    let s = SCALE as int;
    let q = QUANT_RAW as int;
    crate::fx::lemma_isqrt_unique(s * s, s);
    lemma_smul_one(q);
    crate::fx::lemma_isqrt_unique(0, 0);
    lemma_smul_zero(q);
}

/// Gamma correction and quantization of an averaged pixel color.
pub fn to_bytes(avg: Vec3) -> (r: (u8, u8, u8))
    requires
        0 <= avg@.x,
        0 <= avg@.y,
        0 <= avg@.z,
    ensures
        r.0 as int == quantize_spec(avg@.x),
        r.1 as int == quantize_spec(avg@.y),
        r.2 as int == quantize_spec(avg@.z),
{
    (quantize_channel(avg.x), quantize_channel(avg.y), quantize_channel(avg.z))
}

/// Plane coordinate of a pixel index jittered within the pixel footprint:
/// `(idx + random fraction) / count`, always in `[0, 1]`.
fn sample_coord(idx: u32, count: u32) -> (r: Fx)
    requires
        idx < count,
    ensures
        0 <= r@ <= SCALE as int,
{
    let fr: Fx = crate::utils::random_unit_fraction();
    proof {
        assert((idx as u64) * 65536u64 <= 0xffff_ffff_0000_0000u64) by (nonlinear_arith)
            requires
                idx as u64 <= 0xffff_ffffu64,
        ;
    }
    let num: u64 = (idx as u64) * (SCALE as u64) + (fr.raw as u64);
    let den: u64 = count as u64;
    let q: u64 = num / den;
    proof {
        let n = num as int;
        let d = den as int;
        assert(n < d * (SCALE as int)) by (nonlinear_arith)
            requires
                n <= (idx as int) * (SCALE as int) + (SCALE as int) - 1,
                idx < count,
                d == count as int,
        ;
        vstd::arithmetic::div_mod::lemma_multiply_divide_lt(n, d, SCALE as int);
        vstd::arithmetic::div_mod::lemma_div_pos_is_pos(n, d);
    }
    Fx::from_raw(q as i64)
}

/// A pixel's three bytes are the quantization of the channels of one
/// averaged color in the color range.
pub open spec fn pixel_ok(b0: u8, b1: u8, b2: u8) -> bool {
    exists|avg: V3|
        0 <= avg.x <= SCALE as int && 0 <= avg.y <= SCALE as int && 0 <= avg.z <= SCALE as int
            && b0 as int == quantize_spec(avg.x) && b1 as int == quantize_spec(avg.y) && b2 as int
            == quantize_spec(avg.z)
}

fn render_pixel(world: &HitableList, cam: &Camera, i: u32, j: u32, nx: u32, ny: u32, ns: u32) -> (r:
    (u8, u8, u8))
    requires
        cam_wf(*cam),
        i < nx,
        j < ny,
        ns >= 1,
    ensures
        pixel_ok(r.0, r.1, r.2),
{
    let mut col: Vec3 = Vec3::zero();
    let mut k: u32 = 0;
    while k < ns
        invariant
            cam_wf(*cam),
            i < nx,
            j < ny,
            k <= ns,
            0 <= col@.x <= (k as int) * (SCALE as int),
            0 <= col@.y <= (k as int) * (SCALE as int),
            0 <= col@.z <= (k as int) * (SCALE as int),
        decreases ns - k,
    {
        let u: Fx = sample_coord(i, nx);
        let v: Fx = sample_coord(j, ny);
        let r: Ray = cam.get_ray(u, v);
        let c: Vec3 = color(&r, world, 0);
        col = col.plus(c);
        k = k + 1;
    }
    let avg: Vec3 = average_color(col, ns);
    proof {
        vstd::arithmetic::div_mod::lemma_div_multiples_vanish(SCALE as int, ns as int);
        vstd::arithmetic::div_mod::lemma_div_is_ordered(
            col@.x,
            (ns as int) * (SCALE as int),
            ns as int,
        );
        vstd::arithmetic::div_mod::lemma_div_is_ordered(
            col@.y,
            (ns as int) * (SCALE as int),
            ns as int,
        );
        vstd::arithmetic::div_mod::lemma_div_is_ordered(
            col@.z,
            (ns as int) * (SCALE as int),
            ns as int,
        );
    }
    let bytes: (u8, u8, u8) = to_bytes(avg);
    proof {
        assert(0 <= avg@.x <= SCALE as int && 0 <= avg@.y <= SCALE as int && 0 <= avg@.z
            <= SCALE as int && bytes.0 as int == quantize_spec(avg@.x) && bytes.1 as int
            == quantize_spec(avg@.y) && bytes.2 as int == quantize_spec(avg@.z));
    }
    bytes
}

/// How indexing reads through three consecutive pushes.
proof fn lemma_push3_index(s: Seq<u8>, a: u8, b: u8, c: u8, i: int)
    requires
        0 <= i < s.len() + 3,
    ensures
        i < s.len() ==> s.push(a).push(b).push(c)[i] == s[i],
        i == s.len() ==> s.push(a).push(b).push(c)[i] == a,
        i == s.len() + 1 ==> s.push(a).push(b).push(c)[i] == b,
        i == s.len() + 2 ==> s.push(a).push(b).push(c)[i] == c,
{
    let s1 = s.push(a);
    let s2 = s1.push(b);
    let s3 = s2.push(c);
    if i < s.len() {
        assert(s3[i] == s2[i]);
        assert(s2[i] == s1[i]);
        assert(s1[i] == s[i]);
    } else if i == s.len() {
        assert(s1[i] == a);
        assert(s2[i] == s1[i]);
        assert(s3[i] == s2[i]);
    } else if i == s.len() + 1 {
        assert(s2[i] == b);
        assert(s3[i] == s2[i]);
    } else {
        assert(s3[i] == c);
    }
}

/// Renders the scene to a row-major RGB byte grid, top row first: three
/// bytes per pixel, each triple the quantization of an averaged sample
/// color. The size bound only asks that the byte grid be addressable.
pub fn render(world: &HitableList, cam: &Camera, nx: u32, ny: u32, ns: u32) -> (pixels: Vec<u8>)
    requires
        cam_wf(*cam),
        nx >= 1,
        ny >= 1,
        ns >= 1,
        3 * (nx as int) * (ny as int) <= usize::MAX as int,
    ensures
        pixels@.len() == 3 * (nx as int) * (ny as int),
        forall|k: int|
            0 <= k < (nx as int) * (ny as int) ==> pixel_ok(
                #[trigger] pixels@[3 * k],
                pixels@[3 * k + 1],
                pixels@[3 * k + 2],
            ),
{
    let mut out: Vec<u8> = Vec::new();
    let mut j: u32 = ny;
    while j > 0
        invariant
            cam_wf(*cam),
            nx >= 1,
            ns >= 1,
            j <= ny,
            out@.len() == 3 * (nx as int) * ((ny - j) as int),
            forall|k: int|
                0 <= k < (nx as int) * ((ny - j) as int) ==> pixel_ok(
                    #[trigger] out@[3 * k],
                    out@[3 * k + 1],
                    out@[3 * k + 2],
                ),
        decreases j,
    {
        j = j - 1;
        let mut i: u32 = 0;
        while i < nx
            invariant
                cam_wf(*cam),
                nx >= 1,
                ns >= 1,
                i <= nx,
                j < ny,
                out@.len() == 3 * (nx as int) * ((ny - j - 1) as int) + 3 * (i as int),
                forall|k: int|
                    0 <= k < (nx as int) * ((ny - j - 1) as int) + (i as int) ==> pixel_ok(
                        #[trigger] out@[3 * k],
                        out@[3 * k + 1],
                        out@[3 * k + 2],
                    ),
            decreases nx - i,
        {
            let px: (u8, u8, u8) = render_pixel(world, cam, i, j, nx, ny, ns);
            let ghost old_out = out@;
            out.push(px.0);
            out.push(px.1);
            out.push(px.2);
            proof {
                let cnt = (nx as int) * ((ny - j - 1) as int) + (i as int);
                assert(3 * (nx as int) * ((ny - j - 1) as int) == 3 * ((nx as int) * ((ny - j
                    - 1) as int))) by (nonlinear_arith);
                assert(old_out.len() == 3 * cnt);
                assert(out@ == old_out.push(px.0).push(px.1).push(px.2));
                assert forall|k: int| 0 <= k < cnt + 1 implies pixel_ok(
                    #[trigger] out@[3 * k],
                    out@[3 * k + 1],
                    out@[3 * k + 2],
                ) by {
                    lemma_push3_index(old_out, px.0, px.1, px.2, 3 * k);
                    lemma_push3_index(old_out, px.0, px.1, px.2, 3 * k + 1);
                    lemma_push3_index(old_out, px.0, px.1, px.2, 3 * k + 2);
                    if k < cnt {
                        assert(out@[3 * k] == old_out[3 * k]);
                        assert(out@[3 * k + 1] == old_out[3 * k + 1]);
                        assert(out@[3 * k + 2] == old_out[3 * k + 2]);
                    } else {
                        assert(out@[3 * k] == px.0);
                        assert(out@[3 * k + 1] == px.1);
                        assert(out@[3 * k + 2] == px.2);
                    }
                }
            }
            i = i + 1;
        }
        proof {
            assert(3 * (nx as int) * ((ny - j - 1) as int) + 3 * (nx as int) == 3 * (nx as int) * (
            (ny - j) as int)) by (nonlinear_arith);
            assert((nx as int) * ((ny - j - 1) as int) + (nx as int) == (nx as int) * ((ny
                - j) as int)) by (nonlinear_arith);
        }
    }
    out
}

} // verus!
