use raytracer::camera::Camera;
use raytracer::fx::{Fx, SCALE};
use raytracer::hitable::{HitRecord, HitableList};
use raytracer::material::{Dielectric, Lambertian, Material, Metal};
use raytracer::ray::Ray;
use raytracer::render::{average_color, background, color, quantize_channel, render};
use raytracer::sphere::Sphere;
use raytracer::render::gamma_channel;
use raytracer::utils::{
    random_in_unit_disk, random_in_unit_sphere, random_unit_fraction, reflect, refract, schlick,
};
use raytracer::vec3::Vec3;

fn fx(raw: i64) -> Fx {
    Fx::from_raw(raw)
}

fn v(x: i64, y: i64, z: i64) -> Vec3 {
    Vec3::new(fx(x * SCALE), fx(y * SCALE), fx(z * SCALE))
}

fn hit_at(p: Vec3, normal: Vec3, material: Material) -> HitRecord {
    HitRecord { t: fx(SCALE), p, normal, material }
}

#[test]
fn lambertian_always_scatters() {
    let albedo = Vec3::new(fx(SCALE / 2), fx(SCALE / 4), fx(SCALE / 8));
    let lam = Lambertian::new(albedo);
    let r = Ray::new(v(0, 0, 0), v(0, 0, -1));
    for _ in 0..32 {
        let rec = hit_at(v(0, 0, -1), v(0, 0, 1), Material::Lambertian(lam));
        let s = lam.scatter(&r, &rec).expect("lambertian never absorbs");
        assert_eq!(s.out_ray.orig, rec.p);
        assert_eq!(s.attenuation, albedo);
    }
}

#[test]
fn metal_scatter_points_away_from_surface() {
    let albedo = v(1, 1, 1);
    let m = Metal::new(albedo, fx(0));
    let r = Ray::new(v(0, 0, 0), v(0, 0, -1));
    let rec = hit_at(v(0, 0, -1), v(0, 0, 1), Material::Metal(m));
    let s = m.scatter(&r, &rec).expect("mirror reflection must scatter");
    assert_eq!(s.out_ray.orig, rec.p);
    assert_eq!(s.out_ray.dir, v(0, 0, 1));
    assert_eq!(s.attenuation, albedo);
}

#[test]
fn metal_zero_fuzz_is_deterministic() {
    // with fuzz 0 the random perturbation is exactly zero: every draw gives
    // the same mirror direction
    let m = Metal::new(v(1, 1, 1), fx(0));
    let r = Ray::new(v(0, 0, 0), Vec3::new(fx(SCALE), fx(-SCALE), fx(0)));
    for _ in 0..16 {
        let rec = hit_at(v(0, -1, 0), v(0, 1, 0), Material::Metal(m));
        let s = m.scatter(&r, &rec).expect("mirror reflection must scatter");
        // unit incoming is (0.7071.., -0.7071.., 0); its mirror about +y
        let expected = reflect(&r.dir.normalized(), &rec.normal);
        assert_eq!(s.out_ray.dir, expected);
    }
}

#[test]
fn metal_absorbs_when_reflection_reenters() {
    let m = Metal::new(v(1, 1, 1), fx(0));
    let r = Ray::new(v(0, 0, 0), v(0, 0, -1));
    // a normal pointing along the incoming ray sends the reflection inward
    let rec = hit_at(v(0, 0, -1), v(0, 0, -1), Material::Metal(m));
    assert!(m.scatter(&r, &rec).is_none());
}

#[test]
fn metal_fuzz_is_clamped() {
    let m = Metal::new(v(1, 1, 1), fx(3 * SCALE));
    assert_eq!(m.fuzz.raw(), SCALE);
    let m2 = Metal::new(v(1, 1, 1), fx(-SCALE));
    assert_eq!(m2.fuzz.raw(), 0);
}

#[test]
fn dielectric_always_scatters_white() {
    let d = Dielectric::new(fx(3 * SCALE / 2));
    let r = Ray::new(v(0, 0, 0), v(0, 0, -1));
    for _ in 0..32 {
        let rec = hit_at(v(0, 0, -1), v(0, 0, 1), Material::Dielectric(d));
        let s = d.scatter(&r, &rec).expect("dielectric never absorbs");
        assert_eq!(s.out_ray.orig, rec.p);
        assert_eq!(s.attenuation, v(1, 1, 1));
    }
}

#[test]
fn dielectric_scatters_from_inside_too() {
    let d = Dielectric::new(fx(3 * SCALE / 2));
    // leaving the medium: direction along the outward normal
    let r = Ray::new(v(0, 0, 0), v(0, 0, 1));
    let rec = hit_at(v(0, 0, 1), v(0, 0, 1), Material::Dielectric(d));
    assert!(d.scatter(&r, &rec).is_some());
}

#[test]
fn dielectric_total_internal_reflection_reflects() {
    // a grazing exit from the dense medium: refraction is impossible, so
    // every draw returns exactly the mirror reflection
    let d = Dielectric::new(fx(3 * SCALE / 2));
    let r = Ray::new(v(0, 0, 0), Vec3::new(fx(SCALE), fx(0), fx(6554)));
    for _ in 0..16 {
        let rec = hit_at(v(0, 0, 1), v(0, 0, 1), Material::Dielectric(d));
        let s = d.scatter(&r, &rec).expect("dielectric never absorbs");
        assert_eq!(s.out_ray.dir, Vec3::new(fx(SCALE), fx(0), fx(-6554)));
    }
}

#[test]
fn schlick_normal_incidence_equals_r0() {
    // ref_idx 1.5: r0 = ((1-1.5)/(1+1.5))^2 = 0.04, with fixed-point rounding
    let r = schlick(fx(SCALE), fx(3 * SCALE / 2));
    assert_eq!(r.raw(), 2621);
}

#[test]
fn schlick_nondecreasing_toward_grazing() {
    let ri = fx(3 * SCALE / 2);
    let cosines = [SCALE, 3 * SCALE / 4, SCALE / 2, SCALE / 4, 0];
    let mut last = -1i64;
    for c in cosines {
        let r = schlick(fx(c), ri).raw();
        assert!(r >= last, "reflectance fell from {last} to {r} at cosine {c}");
        last = r;
    }
}

#[test]
fn background_vertical_is_sky_blue() {
    let c = background(&Ray::new(v(0, 0, 0), v(0, 1, 0)));
    assert_eq!(c, Vec3::new(fx(32768), fx(45875), fx(SCALE)));
}

#[test]
fn background_downward_is_white() {
    let c = background(&Ray::new(v(0, 0, 0), v(0, -1, 0)));
    assert_eq!(c, v(1, 1, 1));
}

#[test]
fn background_near_vertical_is_near_sky_blue() {
    let c = background(&Ray::new(v(0, 0, 0), Vec3::new(fx(600), fx(SCALE), fx(0))));
    assert!((c.r().raw() - 32768).abs() < 700);
    assert!((c.g().raw() - 45875).abs() < 700);
    assert!((c.b().raw() - SCALE).abs() < 700);
}

fn pinhole_camera() -> Camera {
    Camera::try_new(
        v(0, 0, 0),
        v(0, 0, -1),
        v(0, 1, 0),
        fx(SCALE),     // half_height: tangent of half a 90-degree fov
        fx(2 * SCALE), // aspect
        fx(0),         // aperture
        fx(SCALE),     // focus distance
    )
    .expect("camera parameters are representable")
}

#[test]
fn pinhole_camera_ray_is_deterministic() {
    let cam = pinhole_camera();
    assert!(cam.is_well_formed());
    let half = fx(SCALE / 2);
    let r1 = cam.get_ray(half, half);
    let r2 = cam.get_ray(half, half);
    assert_eq!(r1, r2);
    assert_eq!(r1.orig, v(0, 0, 0));
    assert_eq!(r1.dir, v(0, 0, -1));
}

#[test]
fn pinhole_camera_corner_rays_start_at_origin() {
    let cam = pinhole_camera();
    for (s, t) in [(0, 0), (SCALE, 0), (0, SCALE), (SCALE, SCALE)] {
        let r = cam.get_ray(fx(s), fx(t));
        assert_eq!(r.orig, v(0, 0, 0));
    }
}

#[test]
fn color_of_empty_scene_is_background() {
    let world = HitableList::new();
    let r = Ray::new(v(0, 0, 0), v(0, 1, 0));
    let c = color(&r, &world, 0);
    assert_eq!(c, background(&r));
}

#[test]
fn color_at_depth_cap_is_black() {
    let mut world = HitableList::new();
    world.push(Sphere::new(
        v(0, 0, -2),
        fx(SCALE),
        Material::Lambertian(Lambertian::new(v(1, 1, 1))),
    ));
    let r = Ray::new(v(0, 0, 0), v(0, 0, -1));
    let c = color(&r, &world, 50);
    assert_eq!(c, v(0, 0, 0));
}

#[test]
fn single_ground_sphere_scene_renders_black_or_sky_tinted() {
    // One large diffuse sphere below the camera and no light source: every
    // pixel is either black or carries the background tint, where the blue
    // channel never falls below the red one.
    let mut world = HitableList::new();
    world.push(Sphere::new(
        Vec3::new(fx(0), fx(-100 * SCALE - SCALE / 2), fx(-SCALE)),
        fx(100 * SCALE),
        Material::Lambertian(Lambertian::new(Vec3::new(
            fx(SCALE / 2),
            fx(SCALE / 2),
            fx(SCALE / 2),
        ))),
    ));
    let cam = pinhole_camera();
    let nx = 8u32;
    let ny = 4u32;
    let px = render(&world, &cam, nx, ny, 1);
    assert_eq!(px.len(), (3 * nx * ny) as usize);
    for p in px.chunks(3) {
        assert!(p[2] >= p[0], "pixel {p:?} is not black or sky-tinted");
    }
}

#[test]
fn averaging_identical_samples_is_lossless() {
    let c = Vec3::new(fx(19661), fx(39322), fx(58982));
    let mut sum = Vec3::zero();
    for _ in 0..5 {
        sum = sum.plus(c);
    }
    assert_eq!(average_color(sum, 5), c);
}

#[test]
fn averaging_single_sample_is_identity() {
    let c = Vec3::new(fx(123), fx(456), fx(789));
    assert_eq!(average_color(c, 1), c);
}

#[test]
fn quantize_full_channel_is_255() {
    assert_eq!(quantize_channel(fx(SCALE)), 255);
}

#[test]
fn quantize_zero_channel_is_0() {
    assert_eq!(quantize_channel(fx(0)), 0);
}

#[test]
fn quantize_quarter_channel_gamma_corrects() {
    // sqrt(0.25) = 0.5; 255.99 * 0.5 truncates to 127
    assert_eq!(quantize_channel(fx(SCALE / 4)), 127);
}

#[test]
fn gamma_quarter_channel_is_half() {
    assert_eq!(gamma_channel(fx(SCALE / 4)).raw(), SCALE / 2);
}

#[test]
fn reflect_mirrors_about_normal() {
    let d = Vec3::new(fx(SCALE), fx(-SCALE), fx(0));
    let n = v(0, 1, 0);
    assert_eq!(reflect(&d, &n), Vec3::new(fx(SCALE), fx(SCALE), fx(0)));
}

#[test]
fn refract_straight_through_at_equal_index() {
    let d = v(0, 0, -1);
    let n = v(0, 0, 1);
    let out = refract(&d, &n, fx(SCALE)).expect("no bending at index 1");
    assert_eq!(out, v(0, 0, -1));
}

#[test]
fn refract_reports_total_internal_reflection() {
    // grazing exit at index ratio 1.5: the discriminant is negative
    let d = v(1, 0, 0);
    let n = v(0, 0, 1);
    assert!(refract(&d, &n, fx(3 * SCALE / 2)).is_none());
}

#[test]
fn random_unit_fraction_in_range() {
    for _ in 0..256 {
        let f = random_unit_fraction().raw();
        assert!(0 <= f && f < SCALE);
    }
}

#[test]
fn random_unit_sphere_points_are_inside() {
    for _ in 0..64 {
        let p = random_in_unit_sphere();
        assert!(p.squared_length().raw() < SCALE);
    }
}

#[test]
fn random_unit_disk_points_are_inside_and_flat() {
    for _ in 0..64 {
        let p = random_in_unit_disk();
        assert!(p.squared_length().raw() < SCALE);
        assert_eq!(p.b().raw(), 0);
    }
}

#[test]
fn material_enum_dispatch_matches_variants() {
    let r = Ray::new(v(0, 0, 0), v(0, 0, -1));
    let lam = Material::Lambertian(Lambertian::new(v(1, 0, 0)));
    let rec = hit_at(v(0, 0, -1), v(0, 0, 1), lam);
    let s = lam.scatter(&r, &rec).expect("diffuse must scatter");
    assert_eq!(s.attenuation, v(1, 0, 0));
    let die = Material::Dielectric(Dielectric::new(fx(3 * SCALE / 2)));
    let rec2 = hit_at(v(0, 0, -1), v(0, 0, 1), die);
    assert!(die.scatter(&r, &rec2).is_some());
}
