use raytracer::fixed::ONE;
use raytracer::vector::Vector;

fn fx(v: f64) -> i64 {
    (v * ONE as f64).round() as i64
}

fn v3(x: f64, y: f64, z: f64) -> Vector {
    Vector::new(fx(x), fx(y), fx(z))
}

fn close(a: i64, b: i64) -> bool {
    (a - b).abs() <= 1
}

#[test]
fn operations() {
    let v = v3(1.0, 2.0, 3.0);
    let u = v3(3.0, 2.0, 1.0);
    assert_eq!(v.add(u), v3(4.0, 4.0, 4.0));
    assert_eq!(v.sub(u), v3(-2.0, 0.0, 2.0));
    assert_eq!(v.scale(fx(2.0)), v3(2.0, 4.0, 6.0));
    assert_eq!(v.scale(fx(2.0)), v3(2.0, 4.0, 6.0));
    assert_eq!(v.neg(), v3(-1.0, -2.0, -3.0));
}

#[test]
fn reflection() {
    let v = v3(0.0, -1.0, 0.0);
    let n = v3((2.0 as f64).sqrt() / 2.0, (2.0 as f64).sqrt() / 2.0, 0.0);
    let reflected = v.reflect(&n);
    assert_eq!(reflected, v3(1.0, 0.0, 0.0));
}

#[test]
fn reflection_off_a_flat_surface() {
    let v = v3(1.0, -1.0, 0.0);
    let n = v3(0.0, 1.0, 0.0);
    assert_eq!(v.reflect(&n), v3(1.0, 1.0, 0.0));
}

#[test]
fn norm() {
    assert_eq!(v3(1.0, 0.0, 0.0).norm(), ONE);
    assert_eq!(v3(0.0, 1.0, 0.0).norm(), ONE);
    assert_eq!(v3(0.0, 0.0, 1.0).norm(), ONE);
    assert!(close(v3(1.0, 2.0, 3.0).norm(), fx(14.0f64.sqrt())));
    assert!(close(v3(-1.0, -2.0, -3.0).norm(), fx(14.0f64.sqrt())));
}

#[test]
fn normalize() {
    assert_eq!(v3(4.0, 0.0, 0.0).normalize(), v3(1.0, 0.0, 0.0));
}

#[test]
fn normalize_gives_unit_length() {
    assert_eq!(v3(3.0, 4.0, 0.0).normalize(), v3(0.6, 0.8, 0.0));
    assert_eq!(v3(3.0, 4.0, 0.0).normalize().norm(), ONE);
    let n = v3(1.0, 2.0, 3.0).normalize().norm();
    assert!(ONE - 4 <= n && n <= ONE);
    let n = v3(-120.5, 33.25, 7.0).normalize().norm();
    assert!(ONE - 4 <= n && n <= ONE);
}

#[test]
fn normalize_of_zero_is_zero() {
    assert_eq!(v3(0.0, 0.0, 0.0).normalize(), v3(0.0, 0.0, 0.0));
}

#[test]
fn dot_product() {
    let u = v3(1.0, 2.0, 3.0);
    let v = v3(2.0, 3.0, 4.0);
    assert_eq!(u.dot(&v), fx(20.0));
}

#[test]
fn construction_sets_w_to_one() {
    let v = v3(1.5, -2.0, 3.0);
    assert_eq!(v.w, ONE);
    assert_eq!((v.x(), v.y(), v.z()), (fx(1.5), fx(-2.0), fx(3.0)));
}

#[test]
fn short_vectors_normalize_to_unit_length() {
    let u = Vector::new(1, 1, 1).normalize();
    assert_eq!(u, Vector::new(577350, 577350, 577350));
    let n = u.norm();
    assert!(ONE - 4 <= n && n <= ONE);
    let n = Vector::new(0, 3, -4).normalize().norm();
    assert_eq!(n, ONE);
}

#[test]
fn huge_vectors_normalize_to_unit_length() {
    let n = Vector::new(i64::MIN, i64::MAX, i64::MIN).normalize().norm();
    assert!(ONE - 4 <= n && n <= ONE);
}
