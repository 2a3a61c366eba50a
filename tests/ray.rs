use raytracer::fixed::ONE;
use raytracer::ray::{get_hit, Intersection, Ray};
use raytracer::scene_object::SceneObject;
use raytracer::sphere::Sphere;
use raytracer::vector::Vector;

fn fx(v: f64) -> i64 {
    (v * ONE as f64).round() as i64
}

fn v3(x: f64, y: f64, z: f64) -> Vector {
    Vector::new(fx(x), fx(y), fx(z))
}

fn hit_at(t: f64) -> Intersection {
    Intersection { t: fx(t), object: SceneObject::Sphere(Sphere::new()) }
}

#[test]
fn ray_construction() {
    let o = v3(1.0, 2.0, 3.0);
    let d = v3(4.0, 5.0, 6.0);
    let r = Ray::new(o, d);
    assert_eq!(r.origin, o);
    assert_eq!(r.dir, d);
}

#[test]
fn position() {
    let r = Ray::new(v3(2.0, 3.0, 4.0), v3(1.0, 0.0, 0.0));
    assert_eq!(r.position(fx(0.0)), v3(2.0, 3.0, 4.0));
    assert_eq!(r.position(fx(1.0)), v3(3.0, 3.0, 4.0));
    assert_eq!(r.position(fx(-1.0)), v3(1.0, 3.0, 4.0));
    assert_eq!(r.position(fx(2.5)), v3(4.5, 3.0, 4.0));
}

#[test]
fn get_hit_takes_first_non_negative_in_list_order() {
    let hit = get_hit(vec![hit_at(5.0), hit_at(-1.0), hit_at(3.0)]).unwrap();
    assert_eq!(hit.t, fx(5.0));
    let hit = get_hit(vec![hit_at(-2.0), hit_at(0.0), hit_at(1.0)]).unwrap();
    assert_eq!(hit.t, 0);
}

#[test]
fn get_hit_of_negative_or_empty_is_none() {
    assert!(get_hit(vec![hit_at(-2.0), hit_at(-1.0)]).is_none());
    assert!(get_hit(Vec::new()).is_none());
}
