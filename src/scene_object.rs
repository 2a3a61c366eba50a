//! Surface materials and the closed set of objects a scene can hold.
use vstd::prelude::*;
use crate::colour::Colour;
use crate::fixed::ONE;
use crate::ray::{Intersection, Ray};
use crate::sphere::{hits_of, sphere_normal, Sphere};
use crate::vector::Vector;

verus! {

/// Phong coefficients and the base colour of a surface.
#[derive(Clone, Copy, Debug, PartialEq, Eq, Structural)]
pub struct Material {
    pub colour: Colour,
    pub ambient: i64,
    pub diffuse: i64,
    pub specular: i64,
    pub shininess: u32,
}

/// The material every new sphere gets: white, ambient 0.1, diffuse 0.9,
/// specular 0.9, shininess 200.
pub open spec fn default_material() -> Material {
    Material {
        colour: Colour { r: ONE, g: ONE, b: ONE },
        ambient: 100_000,
        diffuse: 900_000,
        specular: 900_000,
        shininess: 200,
    }
}

impl Material {
    pub fn new() -> (m: Material)
        ensures
            m == default_material(),
    {
        Material {
            colour: Colour::new(ONE, ONE, ONE),
            ambient: 100_000,
            diffuse: 900_000,
            specular: 900_000,
            shininess: 200,
        }
    }
}

/// An object that rays can hit.
#[derive(Clone, Copy, Debug, PartialEq, Eq, Structural)]
pub enum SceneObject {
    Sphere(Sphere),
}

impl SceneObject {
    /// Where `r` meets the object, in ascending order of `t`.
    pub fn intersect(&self, r: Ray) -> (hits: Vec<Intersection>)
        ensures
            match *self {
                SceneObject::Sphere(s) => hits@ == hits_of(s, r),
            },
    {
        match self {
            SceneObject::Sphere(s) => s.intersect(r),
        }
    }

    /// The surface normal at the point `p`.
    pub fn normal(&self, p: Vector) -> (n: Vector)
        ensures
            match *self {
                SceneObject::Sphere(s) => n == sphere_normal(p),
            },
    {
        match self {
            SceneObject::Sphere(s) => s.normal(p),
        }
    }
}

} // verus!
