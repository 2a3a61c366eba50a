use raytracer::fixed::ONE;
use raytracer::vec4::Vec4;

fn fx(v: f64) -> i64 {
    (v * ONE as f64).round() as i64
}

fn v4(x: f64, y: f64, z: f64, w: f64) -> Vec4 {
    Vec4::new(fx(x), fx(y), fx(z), fx(w))
}

fn vector(x: f64, y: f64, z: f64) -> Vec4 {
    Vec4::vector(fx(x), fx(y), fx(z))
}

fn close(a: &Vec4, b: &Vec4) -> bool {
    (a.x - b.x).abs() <= 1 && (a.y - b.y).abs() <= 1 && (a.z - b.z).abs() <= 1 && (a.w - b.w).abs() <= 1
}

#[test]
fn vector_construction() {
    let v = v4(1.0, 2.2, 3.0, 0.0);
    let w = v4(2.0, 0.0, 3.2, 1.0);
    let z = v4(1.0, 2.2, 3.0, 0.0);
    assert_eq!(v, z);
    assert_ne!(v, w);
    assert_eq!(Vec4::point(fx(4.0), fx(-4.0), fx(3.0)), v4(4.0, -4.0, 3.0, 1.0));
    assert_eq!(vector(4.0, -4.0, 3.0), v4(4.0, -4.0, 3.0, 0.0));
    assert_ne!(vector(4.0, -4.0, 3.0), v4(4.0, -4.0, 3.0, 1.0));
}

#[test]
fn vector_operators() {
    assert_eq!(v4(3.0, -2.0, 5.0, 1.0).add(v4(-2.0, 3.0, 1.0, 0.0)), v4(1.0, 1.0, 6.0, 1.0));
    assert_eq!(v4(3.0, -2.0, 5.0, 1.0).sub(v4(-2.0, 3.0, 1.0, 0.0)), v4(5.0, -5.0, 4.0, 1.0));
    assert_eq!(v4(3.0, -2.0, 5.0, 1.0).scale(fx(3.0)), v4(9.0, -6.0, 15.0, 3.0));
    assert_eq!(v4(3.0, -2.0, 5.0, 1.0).scale(fx(3.0)), v4(9.0, -6.0, 15.0, 3.0));
    assert_eq!(v4(4.0, -2.0, 6.0, 1.0).div(fx(2.0)), v4(2.0, -1.0, 3.0, 0.5));
    assert_eq!(v4(3.0, -2.0, 5.0, 1.0).neg(), v4(-3.0, 2.0, -5.0, -1.0));
}

#[test]
fn fuctions() {
    assert_eq!(vector(1.0, 0.0, 0.0).mag(), fx(1.0));
    assert_eq!(vector(0.0, 1.0, 0.0).mag(), fx(1.0));
    assert_eq!(vector(0.0, 0.0, 1.0).mag(), fx(1.0));
    assert!((vector(1.0, 2.0, 3.0).mag() - fx((14.0f64).sqrt())).abs() <= 1);
    assert!((vector(-1.0, -2.0, -3.0).mag() - fx((14.0f64).sqrt())).abs() <= 1);

    assert_eq!(vector(4.0, 0.0, 0.0).normalize(), vector(1.0, 0.0, 0.0));
    assert!(close(
        &vector(1.0, 2.0, 3.0).normalize(),
        &vector(1.0 / (14f64).sqrt(), 2.0 / (14f64).sqrt(), 3.0 / (14f64).sqrt())
    ));
    assert!((vector(1.0, 2.0, 3.0).normalize().mag() - fx(1.0)).abs() <= 1);

    assert_eq!(vector(1.0, 2.0, 3.0).dot(&vector(2.0, 3.0, 4.0)), fx(20.0));
    assert_eq!(vector(1.0, 2.0, 3.0).cross(&vector(2.0, 3.0, 4.0)), vector(-1.0, 2.0, -1.0));
    assert_eq!(vector(2.0, 3.0, 4.0).cross(&vector(1.0, 2.0, 3.0)), vector(1.0, -2.0, 1.0));
}

#[test]
fn mag_of_the_largest_vector_saturates() {
    assert_eq!(Vec4::new(i64::MIN, i64::MIN, i64::MIN, i64::MIN).mag(), i64::MAX);
}

#[test]
fn mag_counts_w() {
    assert_eq!(Vec4::point(0, 0, 0).mag(), ONE);
}

#[test]
fn short_vec4_normalizes_to_unit_length() {
    let u = Vec4::new(1, 1, 1, 1).normalize();
    assert_eq!(u, Vec4::new(500000, 500000, 500000, 500000));
    assert_eq!(u.mag(), ONE);
}
