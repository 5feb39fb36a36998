use raytracer::fx::{Fx, SCALE};
use raytracer::vec3::Vec3;

fn fx(raw: i64) -> Fx {
    Fx::from_raw(raw)
}

#[test]
fn fx_times_exact() {
    // 1.5 * 2.0 == 3.0
    let r = fx(3 * SCALE / 2).times(fx(2 * SCALE));
    assert_eq!(r.raw(), 3 * SCALE);
}

#[test]
fn fx_times_truncates_toward_zero() {
    // (-1.5) * 2.0 == -3.0 exactly; (-1) / 3 rounds toward zero
    let r = fx(-3 * SCALE / 2).times(fx(2 * SCALE));
    assert_eq!(r.raw(), -3 * SCALE);
    let q = fx(-SCALE).divide(fx(3 * SCALE));
    assert_eq!(q.raw(), -21845);
}

#[test]
fn fx_divide_exact() {
    let r = fx(SCALE).divide(fx(2 * SCALE));
    assert_eq!(r.raw(), SCALE / 2);
}

#[test]
fn fx_sqrt_exact_squares() {
    assert_eq!(fx(4 * SCALE).sqrt().raw(), 2 * SCALE);
    assert_eq!(fx(SCALE).sqrt().raw(), SCALE);
    assert_eq!(fx(0).sqrt().raw(), 0);
}

#[test]
fn fx_try_ops_detect_overflow() {
    let big = fx(i64::MAX);
    assert!(big.try_plus(big).is_none());
    assert!(big.try_times(big).is_none());
    assert!(fx(5).try_plus(fx(7)).is_some());
    assert!(fx(SCALE).try_divide(fx(0)).is_none());
}

#[test]
fn vec3_componentwise_ops() {
    let a = Vec3::new(fx(SCALE), fx(2 * SCALE), fx(3 * SCALE));
    let b = Vec3::new(fx(SCALE), fx(SCALE), fx(SCALE));
    assert_eq!(a.plus(b), Vec3::new(fx(2 * SCALE), fx(3 * SCALE), fx(4 * SCALE)));
    assert_eq!(a.minus(b), Vec3::new(fx(0), fx(SCALE), fx(2 * SCALE)));
    assert_eq!(a.times(b), a);
    assert_eq!(a.scale(fx(2 * SCALE)), Vec3::new(fx(2 * SCALE), fx(4 * SCALE), fx(6 * SCALE)));
}

#[test]
fn vec3_componentwise_divide() {
    let a = Vec3::new(fx(4 * SCALE), fx(6 * SCALE), fx(SCALE));
    let b = Vec3::new(fx(2 * SCALE), fx(3 * SCALE), fx(SCALE));
    assert_eq!(a.divide(b), Vec3::new(fx(2 * SCALE), fx(2 * SCALE), fx(SCALE)));
    assert_eq!(a.div_scalar(fx(2 * SCALE)), Vec3::new(fx(2 * SCALE), fx(3 * SCALE), fx(SCALE / 2)));
}

#[test]
fn vec3_dot_and_length() {
    let a = Vec3::new(fx(3 * SCALE), fx(4 * SCALE), fx(0));
    assert_eq!(a.dot(&a).raw(), 25 * SCALE);
    assert_eq!(a.squared_length().raw(), 25 * SCALE);
    assert_eq!(a.length().raw(), 5 * SCALE);
}

#[test]
fn vec3_normalized_unit_axis() {
    let a = Vec3::new(fx(0), fx(5 * SCALE), fx(0));
    let u = a.normalized();
    assert_eq!(u, Vec3::new(fx(0), fx(SCALE), fx(0)));
    let mut m = a;
    m.normalize();
    assert_eq!(m, u);
}

#[test]
fn vec3_normalized_close_to_unit_length() {
    // A non-axis vector: the normalized length is 1 within truncation error.
    let a = Vec3::new(fx(SCALE), fx(2 * SCALE), fx(2 * SCALE));
    let u = a.normalized();
    let l = u.length().raw();
    assert!((l - SCALE).abs() <= 8, "length raw {l}");
}

#[test]
fn vec3_cross_axes() {
    let x = Vec3::new(fx(SCALE), fx(0), fx(0));
    let y = Vec3::new(fx(0), fx(SCALE), fx(0));
    let z = Vec3::new(fx(0), fx(0), fx(SCALE));
    assert_eq!(x.cross(y), z);
    assert_eq!(y.cross(z), x);
}

#[test]
fn vec3_try_normalized_rejects_zero() {
    assert!(Vec3::zero().try_normalized().is_none());
    let tiny = Vec3::new(fx(3), fx(0), fx(0));
    // squared length truncates to zero: not normalizable
    assert!(tiny.try_normalized().is_none());
}
