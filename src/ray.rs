//! Rays, intersections and the choice of the nearest hit.
use vstd::prelude::*;
use crate::scene_object::SceneObject;
use crate::vector::{vec_add, vec_scale, Vector};

verus! {

/// A point where a ray meets an object: the ray parameter `t` and the object.
#[derive(Clone, Copy, Debug, PartialEq, Eq, Structural)]
pub struct Intersection {
    pub t: i64,
    pub object: SceneObject,
}

/// A half-line: every `origin + dir * t`.
#[derive(Clone, Copy, Debug, PartialEq, Eq, Structural)]
pub struct Ray {
    pub origin: Vector,
    pub dir: Vector,
}

/// `k` holds the first intersection with a non-negative `t`.
pub open spec fn is_first_hit(s: Seq<Intersection>, k: int) -> bool {
    &&& 0 <= k < s.len()
    &&& s[k].t >= 0
    &&& forall|j: int| 0 <= j < k ==> s[j].t < 0
}

/// The first intersection with a non-negative `t`, if there is one.
pub open spec fn first_hit(s: Seq<Intersection>) -> Option<Intersection> {
    if exists|k: int| is_first_hit(s, k) {
        Some(s[choose|k: int| is_first_hit(s, k)])
    } else {
        None
    }
}

proof fn lemma_first_hit_unique(s: Seq<Intersection>, k1: int, k2: int)
    requires
        is_first_hit(s, k1),
        is_first_hit(s, k2),
    ensures
        k1 == k2,
{
    if k1 < k2 {
        assert(s[k1].t < 0);
    } else if k2 < k1 {
        assert(s[k2].t < 0);
    }
}

pub open spec fn ray_position(r: Ray, t: int) -> Vector {
    vec_add(r.origin, vec_scale(r.dir, t))
}

/// The intersection with the smallest list position among those with
/// `t >= 0`, or `None` when every `t` is negative or the list is empty.
pub fn get_hit(intersections: Vec<Intersection>) -> (r: Option<Intersection>)
    ensures
        r == first_hit(intersections@),
        r is None <==> forall|j: int| 0 <= j < intersections@.len() ==> intersections@[j].t < 0,
{
    let mut i: usize = 0;
    while i < intersections.len()
        invariant
            i <= intersections@.len(),
            forall|j: int| 0 <= j < i ==> intersections@[j].t < 0,
        decreases intersections@.len() - i,
    {
        if intersections[i].t >= 0 {
            let h = intersections[i];
            proof {
                let s = intersections@;
                assert(is_first_hit(s, i as int));
                lemma_first_hit_unique(s, i as int, choose|k: int| is_first_hit(s, k));
            }
            return Some(h);
        }
        i = i + 1;
    }
    assert(!exists|k: int| is_first_hit(intersections@, k));
    None
}

impl Ray {
    pub fn new(origin: Vector, dir: Vector) -> (r: Ray)
        ensures
            r == (Ray { origin, dir }),
    {
        Ray { origin, dir }
    }

    /// The point `origin + dir * t`.
    pub fn position(&self, t: i64) -> (p: Vector)
        ensures
            p == ray_position(*self, t as int),
    {
        self.origin.add(self.dir.scale(t))
    }
}

} // verus!
