//! The material model: a closed set of scattering behaviours. A surface is
//! diffuse (`Lambertian`), reflective (`Metal`) or refractive (`Dielectric`);
//! `Material` is the tagged union that primitives carry.
use vstd::prelude::*;

use crate::fx::{sclamp, Fx, SCALE};
use crate::hitable::HitRecord;
use crate::ray::Ray;
use crate::fx::sdiv;
use crate::utils::{
    in_unit_sphere, lemma_zero_in_unit_sphere, random_in_unit_sphere, random_unit_fraction,
    refract, refract_out, refract_spec, reflect_ok, schlick, sreflect, try_reflect,
};
use crate::vec3::{
    dot_fits, lemma_sdot_self_nonneg, sdot, vadd, vfits, vneg, vscale, vunit, vunit_ok, Vec3, V3,
};

verus! {

/// A scattered ray together with how much each color channel is attenuated.
#[derive(Clone, Copy, Debug, PartialEq, Eq, Structural)]
pub struct ScatteredRay {
    pub out_ray: Ray,
    pub attenuation: Vec3,
}

/// Diffuse surface: always scatters, tinted by its albedo.
#[derive(Clone, Copy, Debug, PartialEq, Eq, Structural)]
pub struct Lambertian {
    pub albedo: Vec3,
}

impl Lambertian {
    pub fn new(albedo: Vec3) -> (r: Lambertian)
        ensures
            r.albedo == albedo,
    {
        Lambertian { albedo }
    }

    /// Diffuse bounce toward `hit point + normal + random point in the unit
    /// sphere`; never absorbs. When an intermediate leaves the numeric range
    /// the bounce falls back to the plain normal direction.
    pub fn scatter(&self, _r_in: &Ray, rec: &HitRecord) -> (res: Option<ScatteredRay>)
        ensures
            res matches Some(s) && s.out_ray.orig == rec.p && s.attenuation == self.albedo
                && exists|q: V3| in_unit_sphere(q) && s.out_ray.dir@ == vadd(rec.normal@, q),
    {
        let rnd: Vec3 = random_in_unit_sphere();
        let dir: Vec3 = match self.bounce_dir(rec, rnd) {
            Some(d) => {
                proof {
                    assert(in_unit_sphere(rnd@) && d@ == vadd(rec.normal@, rnd@));
                }
                d
            },
            None => {
                proof {
                    lemma_zero_in_unit_sphere();
                    assert(rec.normal@ == vadd(rec.normal@, V3 { x: 0, y: 0, z: 0 }));
                }
                rec.normal
            },
        };
        Some(ScatteredRay { out_ray: Ray::new(rec.p, dir), attenuation: self.albedo })
    }

    /// `(p + normal + rnd) - p`, exactly `normal + rnd` whenever every
    /// intermediate stays in range.
    fn bounce_dir(&self, rec: &HitRecord, rnd: Vec3) -> (res: Option<Vec3>)
        ensures
            res matches Some(d) ==> d@ == vadd(rec.normal@, rnd@),
    {
        let t0: Vec3 = match rec.p.try_plus(rec.normal) {
            Some(v) => v,
            None => { return None; },
        };
        let target: Vec3 = match t0.try_plus(rnd) {
            Some(v) => v,
            None => { return None; },
        };
        target.try_minus(rec.p)
    }
}

/// A reflective surface absorbs the ray for the drawn perturbation `q` when
/// an intermediate of `reflection + q * fuzz` leaves the numeric range or
/// the perturbed direction does not leave the surface.
pub open spec fn metal_absorbs_for(m: Metal, dir: V3, n: V3, q: V3) -> bool {
    !vfits(vscale(q, m.fuzz@)) || !vfits(vadd(sreflect(vunit(dir), n), vscale(q, m.fuzz@)))
        || !dot_fits(vadd(sreflect(vunit(dir), n), vscale(q, m.fuzz@)), n) || sdot(
        vadd(sreflect(vunit(dir), n), vscale(q, m.fuzz@)),
        n,
    ) <= 0
}

/// Reflective surface with a roughness (`fuzz`) factor.
#[derive(Clone, Copy, Debug, PartialEq, Eq, Structural)]
pub struct Metal {
    pub albedo: Vec3,
    pub fuzz: Fx,
}

impl Metal {
    /// The fuzz factor is clamped to `[0, 1]` at construction.
    pub fn new(albedo: Vec3, fuzz: Fx) -> (r: Metal)
        ensures
            r.albedo == albedo,
            r.fuzz@ == sclamp(fuzz@, 0, SCALE as int),
            0 <= r.fuzz@ <= SCALE as int,
    {
        Metal { albedo, fuzz: fuzz.clamp(Fx::zero(), Fx::one()) }
    }

    /// Mirror reflection of the unit incoming direction, perturbed by
    /// `fuzz * random point in the unit sphere`; scatters only when the
    /// result points away from the surface (positive dot with the normal).
    /// A degenerate direction or a value outside the numeric range absorbs.
    /// With zero fuzz the perturbation vanishes exactly and the outcome is a
    /// deterministic function of the inputs.
    pub fn scatter(&self, r_in: &Ray, rec: &HitRecord) -> (res: Option<ScatteredRay>)
        ensures
            res matches Some(s) ==> s.out_ray.orig == rec.p && s.attenuation == self.albedo
                && dot_fits(s.out_ray.dir@, rec.normal@) && sdot(s.out_ray.dir@, rec.normal@) > 0,
            res matches Some(s) ==> vunit_ok(r_in.dir@) && reflect_ok(
                vunit(r_in.dir@),
                rec.normal@,
            ) && exists|q: V3|
                in_unit_sphere(q) && s.out_ray.dir@ == vadd(
                    sreflect(vunit(r_in.dir@), rec.normal@),
                    vscale(q, self.fuzz@),
                ),
            !vunit_ok(r_in.dir@) ==> res is None,
            vunit_ok(r_in.dir@) && !reflect_ok(vunit(r_in.dir@), rec.normal@) ==> res is None,
            vunit_ok(r_in.dir@) && reflect_ok(vunit(r_in.dir@), rec.normal@) ==> (res is None
                ==> exists|q: V3|
                in_unit_sphere(q) && metal_absorbs_for(*self, r_in.dir@, rec.normal@, q)),
            self.fuzz@ == 0 && vunit_ok(r_in.dir@) && reflect_ok(vunit(r_in.dir@), rec.normal@)
                && dot_fits(sreflect(vunit(r_in.dir@), rec.normal@), rec.normal@) ==> ((
            res is Some <==> sdot(sreflect(vunit(r_in.dir@), rec.normal@), rec.normal@) > 0) && (
            res matches Some(s) ==> s.out_ray.dir@ == sreflect(vunit(r_in.dir@), rec.normal@))),
    {
        let unit: Vec3 = match r_in.dir.try_normalized() {
            Some(u) => u,
            None => { return None; },
        };
        let reflected: Vec3 = match try_reflect(&unit, &rec.normal) {
            Some(w) => w,
            None => { return None; },
        };
        let rnd: Vec3 = random_in_unit_sphere();
        proof {
            if self.fuzz@ == 0 {
                crate::fx::lemma_smul_zero(rnd@.x);
                crate::fx::lemma_smul_zero(rnd@.y);
                crate::fx::lemma_smul_zero(rnd@.z);
            }
        }
        let fz: Vec3 = match rnd.try_scale(self.fuzz) {
            Some(w) => w,
            None => {
                proof {
                    assert(in_unit_sphere(rnd@) && metal_absorbs_for(
                        *self,
                        r_in.dir@,
                        rec.normal@,
                        rnd@,
                    ));
                }
                return None;
            },
        };
        let dir: Vec3 = match reflected.try_plus(fz) {
            Some(w) => w,
            None => {
                proof {
                    assert(in_unit_sphere(rnd@) && metal_absorbs_for(
                        *self,
                        r_in.dir@,
                        rec.normal@,
                        rnd@,
                    ));
                }
                return None;
            },
        };
        proof {
            assert(in_unit_sphere(rnd@) && dir@ == vadd(
                sreflect(vunit(r_in.dir@), rec.normal@),
                vscale(rnd@, self.fuzz@),
            ));
        }
        let d: Fx = match dir.try_dot(&rec.normal) {
            Some(w) => w,
            None => {
                proof {
                    assert(metal_absorbs_for(*self, r_in.dir@, rec.normal@, rnd@));
                }
                return None;
            },
        };
        if d.raw > 0 {
            Some(ScatteredRay { out_ray: Ray::new(rec.p, dir), attenuation: self.albedo })
        } else {
            proof {
                assert(metal_absorbs_for(*self, r_in.dir@, rec.normal@, rnd@));
            }
            None
        }
    }
}

/// The outward normal a dielectric refracts against: opposite the stored
/// normal when the ray leaves the medium (positive dot with the normal).
pub open spec fn diel_outward(dir: V3, n: V3) -> V3 {
    if sdot(dir, n) > 0 {
        vneg(n)
    } else {
        n
    }
}

/// The refraction ratio a dielectric uses: `ref_idx` when leaving the
/// medium, `1 / ref_idx` when entering it.
pub open spec fn diel_ratio(dir: V3, n: V3, ri: int) -> int {
    if sdot(dir, n) > 0 {
        ri
    } else {
        sdiv(SCALE as int, ri)
    }
}

/// Refractive surface (e.g. glass) with a refractive index.
#[derive(Clone, Copy, Debug, PartialEq, Eq, Structural)]
pub struct Dielectric {
    pub ref_idx: Fx,
}

impl Dielectric {
    pub fn new(ri: Fx) -> (r: Dielectric)
        ensures
            r.ref_idx == ri,
    {
        Dielectric { ref_idx: ri }
    }

    /// Always scatters, with opaque white attenuation: it refracts by
    /// Snell's law, or reflects, choosing between the two with the Schlick
    /// reflectance as probability. On total internal reflection, on a
    /// degenerate input, or when a value leaves the numeric range it
    /// reflects; when even the reflection cannot be represented the
    /// scattered direction falls back to the surface normal.
    pub fn scatter(&self, r_in: &Ray, rec: &HitRecord) -> (res: Option<ScatteredRay>)
        ensures
            res matches Some(s) && s.out_ray.orig == rec.p && s.attenuation@ == (V3 {
                x: SCALE as int,
                y: SCALE as int,
                z: SCALE as int,
            }),
            res matches Some(s) ==> (reflect_ok(r_in.dir@, rec.normal@) ==> s.out_ray.dir@
                == sreflect(r_in.dir@, rec.normal@) || s.out_ray.dir@ == refract_out(
                r_in.dir@,
                diel_outward(r_in.dir@, rec.normal@),
                diel_ratio(r_in.dir@, rec.normal@, self.ref_idx@),
            )),
            res matches Some(s) ==> (!reflect_ok(r_in.dir@, rec.normal@) ==> s.out_ray.dir@
                == rec.normal@),
            refract_spec(
                r_in.dir@,
                diel_outward(r_in.dir@, rec.normal@),
                diel_ratio(r_in.dir@, rec.normal@, self.ref_idx@),
            ) is None ==> (res matches Some(s) ==> s.out_ray.dir@ == sreflect(
                r_in.dir@,
                rec.normal@,
            ) || s.out_ray.dir@ == rec.normal@),
    {
        let white: Vec3 = Vec3::new(Fx::one(), Fx::one(), Fx::one());
        let reflected: Vec3 = match try_reflect(&r_in.dir, &rec.normal) {
            Some(w) => w,
            None => {
                return Some(
                    ScatteredRay { out_ray: Ray::new(rec.p, rec.normal), attenuation: white },
                );
            },
        };
        let fallback: ScatteredRay = ScatteredRay {
            out_ray: Ray::new(rec.p, reflected),
            attenuation: white,
        };
        let dn: Fx = match r_in.dir.try_dot(&rec.normal) {
            Some(d) => d,
            None => { return Some(fallback); },
        };
        let len2: Fx = match r_in.dir.try_dot(&r_in.dir) {
            Some(w) => w,
            None => { return Some(fallback); },
        };
        proof {
            lemma_sdot_self_nonneg(r_in.dir@);
        }
        let len: Fx = len2.sqrt();
        if len.raw == 0 {
            return Some(fallback);
        }
        let outward_normal: Vec3;
        let ni_over_nt: Fx;
        let cosine_raw: Fx;
        if dn.raw > 0 {
            outward_normal = match rec.normal.try_neg() {
                Some(w) => w,
                None => { return Some(fallback); },
            };
            ni_over_nt = self.ref_idx;
            let c0: Fx = match self.ref_idx.try_times(dn) {
                Some(w) => w,
                None => { return Some(fallback); },
            };
            cosine_raw = match c0.try_divide(len) {
                Some(w) => w,
                None => { return Some(fallback); },
            };
        } else {
            outward_normal = rec.normal;
            ni_over_nt = match Fx::one().try_divide(self.ref_idx) {
                Some(w) => w,
                None => { return Some(fallback); },
            };
            let c0: Fx = match dn.try_divide(len) {
                Some(w) => w,
                None => { return Some(fallback); },
            };
            cosine_raw = match c0.try_neg() {
                Some(w) => w,
                None => { return Some(fallback); },
            };
        }
        // Schlick's approximation is evaluated on a cosine clamped to the
        // representable [-1, 1] and needs a sane (nonnegative) index.
        let cosine: Fx = cosine_raw.clamp(Fx::from_raw(-SCALE), Fx::one());
        let reflect_prob: Fx;
        let mut refracted: Vec3 = Vec3::new(Fx::one(), Fx::zero(), Fx::zero());
        match refract(&r_in.dir, &outward_normal, ni_over_nt) {
            Some(refr) => {
                if self.ref_idx.raw >= 0 && self.ref_idx.raw <= 0x7fff_ffff_ffff_ffff - SCALE {
                    reflect_prob = schlick(cosine, self.ref_idx);
                } else {
                    reflect_prob = Fx::one();
                }
                refracted = refr;
            },
            None => { reflect_prob = Fx::one(); },
        }
        let scattered: Ray;
        if random_unit_fraction().lt(reflect_prob) {
            scattered = Ray::new(rec.p, reflected);
        } else {
            scattered = Ray::new(rec.p, refracted);
        }
        Some(ScatteredRay { out_ray: scattered, attenuation: white })
    }
}

/// The closed set of materials a primitive can carry.
#[derive(Clone, Copy, Debug, PartialEq, Eq, Structural)]
pub enum Material {
    Lambertian(Lambertian),
    Metal(Metal),
    Dielectric(Dielectric),
}

impl Material {
    /// Scatter the incoming ray at a hit of this material. Diffuse and
    /// refractive materials always scatter; a reflective one scatters only
    /// when the scattered direction leaves the surface.
    pub fn scatter(&self, r_in: &Ray, rec: &HitRecord) -> (res: Option<ScatteredRay>)
        ensures
            *self matches Material::Lambertian(_) ==> res is Some,
            *self matches Material::Dielectric(_) ==> res is Some,
            res matches Some(s) ==> s.out_ray.orig == rec.p,
            *self matches Material::Lambertian(l) ==> (res matches Some(s) ==> s.attenuation
                == l.albedo),
            *self matches Material::Metal(m) ==> (res matches Some(s) ==> s.attenuation == m.albedo
                && dot_fits(s.out_ray.dir@, rec.normal@) && sdot(s.out_ray.dir@, rec.normal@) > 0),
            *self matches Material::Dielectric(_) ==> (res matches Some(s) ==> s.attenuation@ == (
            V3 { x: SCALE as int, y: SCALE as int, z: SCALE as int })),
    {
        match self {
            Material::Lambertian(l) => l.scatter(r_in, rec),
            Material::Metal(m) => m.scatter(r_in, rec),
            Material::Dielectric(d) => d.scatter(r_in, rec),
        }
    }
}

} // verus!
