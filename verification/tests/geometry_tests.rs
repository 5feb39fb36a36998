use raytracer::fx::{Fx, SCALE};
use raytracer::hitable::{Hitable, HitableList};
use raytracer::material::{Lambertian, Material};
use raytracer::ray::Ray;
use raytracer::sphere::Sphere;
use raytracer::vec3::Vec3;

fn fx(raw: i64) -> Fx {
    Fx::from_raw(raw)
}

fn v(x: i64, y: i64, z: i64) -> Vec3 {
    Vec3::new(fx(x * SCALE), fx(y * SCALE), fx(z * SCALE))
}

fn gray() -> Material {
    Material::Lambertian(Lambertian::new(Vec3::new(fx(SCALE / 2), fx(SCALE / 2), fx(SCALE / 2))))
}

fn t_min() -> Fx {
    fx(66)
}

fn t_max() -> Fx {
    fx(i64::MAX)
}

#[test]
fn sphere_hit_head_on() {
    let s = Sphere::new(v(0, 0, -2), fx(SCALE), gray());
    let r = Ray::new(v(0, 0, 0), v(0, 0, -1));
    let h = s.hit(&r, t_min(), t_max()).expect("head-on ray must hit");
    assert_eq!(h.t.raw(), SCALE);
    assert_eq!(h.p, v(0, 0, -1));
    assert_eq!(h.normal, v(0, 0, 1));
    // the outward normal has unit length exactly here
    assert_eq!(h.normal.length().raw(), SCALE);
    assert!(t_min().raw() < h.t.raw() && h.t.raw() < t_max().raw());
}

#[test]
fn sphere_hit_prefers_near_root() {
    // Ray starting outside must report the front surface, not the back one.
    let s = Sphere::new(v(0, 0, -4), fx(SCALE), gray());
    let r = Ray::new(v(0, 0, 0), v(0, 0, -1));
    let h = s.hit(&r, t_min(), t_max()).expect("must hit");
    assert_eq!(h.t.raw(), 3 * SCALE);
}

#[test]
fn sphere_hit_second_root_from_inside() {
    // From the center only the far root is inside the window.
    let s = Sphere::new(v(0, 0, -2), fx(SCALE), gray());
    let r = Ray::new(v(0, 0, -2), v(0, 0, -1));
    let h = s.hit(&r, t_min(), t_max()).expect("must hit from inside");
    assert_eq!(h.t.raw(), SCALE);
    assert_eq!(h.p, v(0, 0, -3));
    assert_eq!(h.normal, v(0, 0, -1));
}

#[test]
fn sphere_oblique_hit_normal_is_nearly_unit() {
    let s = Sphere::new(v(0, 1, -3), fx(SCALE), gray());
    let r = Ray::new(v(0, 0, 0), Vec3::new(fx(SCALE / 8), fx(SCALE / 3), fx(-SCALE)));
    let h = s.hit(&r, t_min(), t_max()).expect("oblique ray must hit");
    let len = h.normal.length().raw();
    assert!((len - SCALE).abs() <= 64, "normal length raw {len}");
    assert!(t_min().raw() < h.t.raw() && h.t.raw() < t_max().raw());
}

#[test]
fn sphere_miss_nonpositive_discriminant() {
    let s = Sphere::new(v(0, 0, -2), fx(SCALE), gray());
    let r = Ray::new(v(0, 0, 0), v(0, 1, 0));
    assert!(s.hit(&r, t_min(), t_max()).is_none());
}

#[test]
fn sphere_miss_behind_origin() {
    // Positive discriminant but both roots negative: outside the window.
    let s = Sphere::new(v(0, 0, -2), fx(SCALE), gray());
    let r = Ray::new(v(0, 0, 0), v(0, 0, 1));
    assert!(s.hit(&r, t_min(), t_max()).is_none());
}

#[test]
fn scene_reports_nearest_sphere() {
    let mut world = HitableList::new();
    world.push(Sphere::new(v(0, 0, -5), fx(SCALE), gray()));
    world.push(Sphere::new(v(0, 0, -2), fx(SCALE), gray()));
    let r = Ray::new(v(0, 0, 0), v(0, 0, -1));
    let h = world.hit(&r, t_min(), t_max()).expect("scene must hit");
    assert_eq!(h.t.raw(), SCALE);

    // enumeration order must not matter for the nearest hit
    let mut world2 = HitableList::new();
    world2.push(Sphere::new(v(0, 0, -2), fx(SCALE), gray()));
    world2.push(Sphere::new(v(0, 0, -5), fx(SCALE), gray()));
    let h2 = world2.hit(&r, t_min(), t_max()).expect("scene must hit");
    assert_eq!(h2.t.raw(), h.t.raw());
    // each sphere's own hit is no closer than the scene result
    for s in [
        Sphere::new(v(0, 0, -5), fx(SCALE), gray()),
        Sphere::new(v(0, 0, -2), fx(SCALE), gray()),
    ] {
        if let Some(own) = s.hit(&r, t_min(), t_max()) {
            assert!(h.t.raw() <= own.t.raw());
        }
    }
}

#[test]
fn scene_omitting_missed_sphere_changes_nothing() {
    let r = Ray::new(v(0, 0, 0), v(0, 0, -1));
    let missed = Sphere::new(v(0, 10, 0), fx(SCALE), gray());
    assert!(missed.hit(&r, t_min(), t_max()).is_none());

    let mut with = HitableList::new();
    with.push(Sphere::new(v(0, 0, -2), fx(SCALE), gray()));
    with.push(missed);
    with.push(Sphere::new(v(0, 0, -5), fx(SCALE), gray()));

    let mut without = HitableList::new();
    without.push(Sphere::new(v(0, 0, -2), fx(SCALE), gray()));
    without.push(Sphere::new(v(0, 0, -5), fx(SCALE), gray()));

    let a = with.hit(&r, t_min(), t_max()).expect("must hit");
    let b = without.hit(&r, t_min(), t_max()).expect("must hit");
    assert_eq!(a, b);
}

#[test]
fn scene_empty_reports_nothing() {
    let world = HitableList::new();
    let r = Ray::new(v(0, 0, 0), v(0, 0, -1));
    assert!(world.hit(&r, t_min(), t_max()).is_none());
}

#[test]
fn ray_point_at_parameter_evaluates() {
    let r = Ray::new(v(1, 2, 3), v(0, 0, -1));
    let p = r.point_at_parameter(fx(2 * SCALE));
    assert_eq!(p, v(1, 2, 1));
}
