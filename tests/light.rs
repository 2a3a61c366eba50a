use raytracer::colour::Colour;
use raytracer::fixed::ONE;
use raytracer::light::{lighting, Light};
use raytracer::scene_object::Material;
use raytracer::vector::Vector;

fn fx(v: f64) -> i64 {
    (v * ONE as f64).round() as i64
}

fn v3(x: f64, y: f64, z: f64) -> Vector {
    Vector::new(fx(x), fx(y), fx(z))
}

#[test]
fn eye_between_light_and_surface() {
    let m = Material::new();
    let p = v3(0.0, 0.0, 0.0);
    let eye = v3(0.0, 0.0, -1.0);
    let normal = v3(0.0, 0.0, -1.0);
    let l = Light { intensity: fx(1.0), pos: v3(0.0, 0.0, -10.0) };
    let result = lighting(m, p, l, eye, normal);
    assert_eq!(result, Colour::new(fx(1.9), fx(1.9), fx(1.9)));
}

#[test]
fn light_behind_surface_leaves_ambient_only() {
    let m = Material::new();
    let l = Light { intensity: fx(1.0), pos: v3(0.0, 0.0, 10.0) };
    let result = lighting(m, v3(0.0, 0.0, 0.0), l, v3(0.0, 0.0, -1.0), v3(0.0, 0.0, -1.0));
    assert_eq!(result, Colour::new(fx(0.1), fx(0.1), fx(0.1)));
}

#[test]
fn eye_off_the_reflection_has_no_highlight() {
    let m = Material::new();
    let l = Light { intensity: fx(1.0), pos: v3(0.0, 0.0, -10.0) };
    let result = lighting(m, v3(0.0, 0.0, 0.0), l, v3(0.0, 1.0, 0.0), v3(0.0, 0.0, -1.0));
    assert_eq!(result, Colour::new(fx(1.0), fx(1.0), fx(1.0)));
}

#[test]
fn light_intensity_scales_every_term() {
    let m = Material::new();
    let l = Light { intensity: fx(0.5), pos: v3(0.0, 0.0, -10.0) };
    let result = lighting(m, v3(0.0, 0.0, 0.0), l, v3(0.0, 0.0, -1.0), v3(0.0, 0.0, -1.0));
    assert_eq!(result, Colour::new(fx(0.95), fx(0.95), fx(0.95)));
}
