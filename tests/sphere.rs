use raytracer::fixed::ONE;
use raytracer::ray::{get_hit, Ray};
use raytracer::scene_object::{Material, SceneObject};
use raytracer::sphere::Sphere;
use raytracer::vector::Vector;

fn fx(v: f64) -> i64 {
    (v * ONE as f64).round() as i64
}

fn v3(x: f64, y: f64, z: f64) -> Vector {
    Vector::new(fx(x), fx(y), fx(z))
}

#[test]
fn intersection_tangent() {
    let r = Ray::new(v3(0.0, 1.0, -5.0), v3(0.0, 0.0, 1.0));
    let s = Sphere::new();
    let intersections = s.intersect(r);
    assert_eq!(intersections[0].t, fx(5.0));
    assert_eq!(intersections[1].t, fx(5.0));
    let hit = get_hit(intersections).unwrap();
    assert_eq!(hit.t, fx(5.0));
}

#[test]
fn intersection_two_points() {
    let r = Ray::new(v3(0.0, 0.0, -5.0), v3(0.0, 0.0, 1.0));
    let s = Sphere::new();
    let intersections = s.intersect(r);
    assert_eq!(intersections[0].t, fx(4.0));
    assert_eq!(intersections[1].t, fx(6.0));
    let hit = get_hit(intersections).unwrap();
    assert_eq!(hit.t, fx(4.0));
}

#[test]
fn intersection_misses() {
    let r = Ray::new(v3(0.0, 2.0, -5.0), v3(0.0, 0.0, 1.0));
    let s = Sphere::new();
    let intersections = s.intersect(r);
    assert_eq!(intersections.len(), 0);
    let hit = get_hit(intersections);
    assert!(hit.is_none());
}

#[test]
fn intersection_inside() {
    let r = Ray::new(v3(0.0, 0.0, 0.0), v3(0.0, 0.0, 1.0));
    let s = Sphere::new();
    let intersections = s.intersect(r);
    assert_eq!(intersections[0].t, fx(-1.0));
    assert_eq!(intersections[1].t, fx(1.0));
    let hit = get_hit(intersections).unwrap();
    assert_eq!(hit.t, fx(1.0));
}

#[test]
fn intersection_behind() {
    let r = Ray::new(v3(0.0, 0.0, 5.0), v3(0.0, 0.0, 1.0));
    let s = Sphere::new();
    let intersections = s.intersect(r);
    assert_eq!(intersections[0].t, fx(-6.0));
    assert_eq!(intersections[1].t, fx(-4.0));
    let hit = get_hit(intersections);
    assert!(hit.is_none());
}

#[test]
fn intersections_carry_the_sphere() {
    let s = Sphere::new();
    let r = Ray::new(v3(0.0, 0.0, -5.0), v3(0.0, 0.0, 1.0));
    for i in s.intersect(r) {
        assert_eq!(i.object, SceneObject::Sphere(s));
    }
    assert_eq!(SceneObject::Sphere(s).intersect(r).len(), 2);
}

#[test]
fn intersection_with_unnormalized_direction() {
    let r = Ray::new(v3(0.0, 0.0, -5.0), v3(0.0, 0.0, 2.0));
    let ts: Vec<i64> = Sphere::new().intersect(r).iter().map(|i| i.t).collect();
    assert_eq!(ts, vec![fx(2.0), fx(3.0)]);
}

#[test]
fn normals() {
    let s = Sphere::new();
    let s3o3 = (3.0 as f64).sqrt() / 3.0;
    assert_eq!(s.normal(v3(1.0, 0.0, 0.0)), v3(1.0, 0.0, 0.0));
    assert_eq!(s.normal(v3(0.0, 1.0, 0.0)), v3(0.0, 1.0, 0.0));
    assert_eq!(s.normal(v3(0.0, 0.0, 1.0)), v3(0.0, 0.0, 1.0));
    assert_eq!(s.normal(v3(s3o3, s3o3, s3o3)), v3(s3o3, s3o3, s3o3));
    assert_eq!(s.normal(v3(s3o3, s3o3, s3o3)), v3(s3o3, s3o3, s3o3).normalize());
}

#[test]
fn default_material() {
    let m = Material::new();
    assert_eq!(m, Sphere::new().material);
    assert_eq!((m.ambient, m.diffuse, m.specular, m.shininess), (fx(0.1), fx(0.9), fx(0.9), 200));
    assert_eq!((m.colour.r, m.colour.g, m.colour.b), (ONE, ONE, ONE));
}

#[test]
fn normal_near_the_centre_has_unit_length() {
    let n = Sphere::new().normal(Vector::new(1, 1, 1));
    assert_eq!(n, Vector::new(577350, 577350, 577350));
}
