//! A white point light and the Phong illumination model.
use vstd::prelude::*;
use crate::colour::{colour, colour_add, colour_scale, Colour};
use crate::fixed::{fx_mul, fx_pow, mul_spec, pow_spec};
use crate::scene_object::Material;
use crate::vector::{vec_dot, vec_neg, vec_normalize, vec_reflect, vec_sub, Vector};

verus! {

/// A point light of the given intensity; its colour is white.
#[derive(Clone, Copy, Debug, PartialEq, Eq, Structural)]
pub struct Light {
    pub intensity: i64,
    pub pos: Vector,
}

/// Unit vector from the surface point toward the light.
pub open spec fn light_dir(p: Vector, l: Light) -> Vector {
    vec_normalize(vec_sub(l.pos, p))
}

/// The material colour scaled by the light intensity.
pub open spec fn effective(m: Material, l: Light) -> Colour {
    colour_scale(m.colour, l.intensity as int)
}

pub open spec fn ambient_term(m: Material, l: Light) -> Colour {
    colour_scale(effective(m, l), m.ambient as int)
}

/// `(reflect(-lightDir, normal) . eye) ^ shininess`.
pub open spec fn reflect_dot_eye(m: Material, p: Vector, l: Light, eye: Vector, normal: Vector) -> int {
    pow_spec(vec_dot(vec_reflect(vec_neg(light_dir(p, l)), normal), eye), m.shininess as nat)
}

/// Diffuse term: zero when the surface faces away from the light.
pub open spec fn diffuse_term(m: Material, p: Vector, l: Light, normal: Vector) -> Colour {
    let ldn = vec_dot(light_dir(p, l), normal);
    if ldn < 0 {
        colour(0, 0, 0)
    } else {
        colour_scale(colour_scale(effective(m, l), m.diffuse as int), ldn)
    }
}

/// Specular term: a grey highlight, zero when the surface faces away from
/// the light or the reflection points away from the eye.
pub open spec fn specular_term(m: Material, p: Vector, l: Light, eye: Vector, normal: Vector) -> Colour {
    let ldn = vec_dot(light_dir(p, l), normal);
    let rde = reflect_dot_eye(m, p, l, eye, normal);
    if ldn < 0 || rde <= 0 {
        colour(0, 0, 0)
    } else {
        let s = mul_spec(mul_spec(l.intensity as int, m.specular as int), rde);
        colour(s, s, s)
    }
}

/// Ambient plus diffuse plus specular, unclamped.
pub open spec fn phong(m: Material, p: Vector, l: Light, eye: Vector, normal: Vector) -> Colour {
    colour_add(
        colour_add(ambient_term(m, l), diffuse_term(m, p, l, normal)),
        specular_term(m, p, l, eye, normal),
    )
}

/// The colour of surface point `p` with material `m`, lit by `l` and seen
/// along `eye`, where the surface normal is `normal`.
pub fn lighting(m: Material, p: Vector, l: Light, eye: Vector, normal: Vector) -> (c: Colour)
    ensures
        c == phong(m, p, l, eye, normal),
{
    let eff = m.colour.scale(l.intensity);
    let lightv = l.pos.sub(p).normalize();
    let ambient = eff.scale(m.ambient);
    let light_dot_normal = lightv.dot(&normal);
    let mut diffuse = Colour::new(0, 0, 0);
    let mut specular = Colour::new(0, 0, 0);
    if light_dot_normal >= 0 {
        diffuse = eff.scale(m.diffuse).scale(light_dot_normal);
        let reflectv = lightv.neg().reflect(&normal);
        let rde = fx_pow(reflectv.dot(&eye), m.shininess);
        if rde > 0 {
            let s = fx_mul(fx_mul(l.intensity, m.specular), rde);
            specular = Colour::new(s, s, s);
        }
    }
    ambient.add(diffuse).add(specular)
}

} // verus!
