//! The unit sphere at the origin.
use vstd::prelude::*;
use crate::fixed::{
    add_spec, div_spec, fx_add, fx_div, fx_mul, fx_neg, fx_sqrt, fx_sub, mul_spec, neg_spec,
    sqrt_spec, sub_spec, ONE,
};
use crate::ray::{Intersection, Ray};
use crate::scene_object::{default_material, Material, SceneObject};
use crate::vector::{lemma_normalize_unit, sq_len, vec3, vec_dot, vec_norm, vec_normalize, vec_sub, Vector};

verus! {

/// A sphere of radius 1 centred on the origin, with its surface material.
#[derive(Clone, Copy, Debug, PartialEq, Eq, Structural)]
pub struct Sphere {
    pub material: Material,
}

/// The vector from the sphere's centre to the ray's origin.
pub open spec fn sphere_to_ray(r: Ray) -> Vector {
    vec_sub(r.origin, vec3(0, 0, 0))
}

/// `a` of the quadratic `a t^2 + b t + c` whose roots are the hits.
pub open spec fn quad_a(r: Ray) -> int {
    vec_dot(r.dir, r.dir)
}

pub open spec fn quad_b(r: Ray) -> int {
    mul_spec(2 * ONE, vec_dot(r.dir, sphere_to_ray(r)))
}

pub open spec fn quad_c(r: Ray) -> int {
    sub_spec(vec_dot(sphere_to_ray(r), sphere_to_ray(r)), ONE as int)
}

/// `b^2 - 4ac`.
pub open spec fn discriminant(r: Ray) -> int {
    sub_spec(mul_spec(quad_b(r), quad_b(r)), mul_spec(mul_spec(4 * ONE, quad_a(r)), quad_c(r)))
}

/// `(-b - sqrt(disc)) / 2a`.
pub open spec fn root_minus(r: Ray) -> int {
    div_spec(
        sub_spec(neg_spec(quad_b(r)), sqrt_spec(discriminant(r))),
        mul_spec(2 * ONE, quad_a(r)),
    )
}

/// `(-b + sqrt(disc)) / 2a`.
pub open spec fn root_plus(r: Ray) -> int {
    div_spec(
        add_spec(neg_spec(quad_b(r)), sqrt_spec(discriminant(r))),
        mul_spec(2 * ONE, quad_a(r)),
    )
}

/// No hits for a negative discriminant; otherwise both roots, smaller first,
/// each carrying the sphere.
pub open spec fn hits_of(s: Sphere, r: Ray) -> Seq<Intersection> {
    if discriminant(r) < 0 {
        seq![]
    } else {
        let lo = if root_minus(r) < root_plus(r) { root_minus(r) } else { root_plus(r) };
        let hi = if root_minus(r) < root_plus(r) { root_plus(r) } else { root_minus(r) };
        seq![
            Intersection { t: lo as i64, object: SceneObject::Sphere(s) },
            Intersection { t: hi as i64, object: SceneObject::Sphere(s) },
        ]
    }
}

/// The unit vector from the centre toward `p`.
pub open spec fn sphere_normal(p: Vector) -> Vector {
    vec_normalize(vec_sub(p, vec3(0, 0, 0)))
}

impl Sphere {
    pub fn new() -> (s: Sphere)
        ensures
            s.material == default_material(),
    {
        Sphere { material: Material::new() }
    }

    /// The points where `r` meets the sphere, in ascending order of `t`;
    /// none when the ray misses it.
    pub fn intersect(&self, r: Ray) -> (hits: Vec<Intersection>)
        ensures
            hits@ == hits_of(*self, r),
    {
        let str = r.origin.sub(Vector::new(0, 0, 0));
        let a = r.dir.dot(&r.dir);
        let b = fx_mul(2 * ONE, r.dir.dot(&str));
        let c = fx_sub(str.dot(&str), ONE);
        let disc = fx_sub(fx_mul(b, b), fx_mul(fx_mul(4 * ONE, a), c));
        let mut hits: Vec<Intersection> = Vec::new();
        if disc >= 0 {
            let root = fx_sqrt(disc);
            let den = fx_mul(2 * ONE, a);
            let t1 = fx_div(fx_sub(fx_neg(b), root), den);
            let t2 = fx_div(fx_add(fx_neg(b), root), den);
            let me = SceneObject::Sphere(*self);
            if t1 < t2 {
                hits.push(Intersection { t: t1, object: me });
                hits.push(Intersection { t: t2, object: me });
            } else {
                hits.push(Intersection { t: t2, object: me });
                hits.push(Intersection { t: t1, object: me });
            }
        }
        assert(hits@ =~= hits_of(*self, r));
        hits
    }

    /// The surface normal at `p`.
    pub fn normal(&self, p: Vector) -> (n: Vector)
        ensures
            n == sphere_normal(p),
    {
        p.sub(Vector::new(0, 0, 0)).normalize()
    }
}

/// The normal at any point other than the centre has length 1.0, short by
/// at most four millionths.
pub proof fn lemma_sphere_normal_unit(p: Vector)
    requires
        sq_len(p) > 0,
    ensures
        ONE - 4 <= vec_norm(sphere_normal(p)) <= ONE,
{
    let d = vec_sub(p, vec3(0, 0, 0));
    assert(sq_len(d) == sq_len(p));
    lemma_normalize_unit(d);
}

} // verus!
