//! A general homogeneous 4-vector, where every operation reads all four
//! coordinates.
use vstd::prelude::*;
use crate::vector::FINE_MAX;
use crate::fixed::{
    add_spec, div_spec, fx_add, fx_div, fx_mul, fx_neg, fx_scaled_div, fx_sub, isqrt, isqrt_u128,
    is_root, lemma_below_root, lemma_root_exists, mul_spec, neg_spec, sat, scaled_div_spec, sub_spec,
    ONE,
};

verus! {

/// A 4-tuple of fixed-point scalars; `w` is 1.0 for a point, 0 for a direction.
#[derive(Clone, Copy, Debug, PartialEq, Eq, Structural)]
pub struct Vec4 {
    pub x: i64,
    pub y: i64,
    pub z: i64,
    pub w: i64,
}

pub open spec fn vec4(x: int, y: int, z: int, w: int) -> Vec4 {
    Vec4 { x: x as i64, y: y as i64, z: z as i64, w: w as i64 }
}

pub open spec fn vec4_add(a: Vec4, b: Vec4) -> Vec4 {
    vec4(
        add_spec(a.x as int, b.x as int),
        add_spec(a.y as int, b.y as int),
        add_spec(a.z as int, b.z as int),
        add_spec(a.w as int, b.w as int),
    )
}

pub open spec fn vec4_sub(a: Vec4, b: Vec4) -> Vec4 {
    vec4(
        sub_spec(a.x as int, b.x as int),
        sub_spec(a.y as int, b.y as int),
        sub_spec(a.z as int, b.z as int),
        sub_spec(a.w as int, b.w as int),
    )
}

pub open spec fn vec4_scale(a: Vec4, k: int) -> Vec4 {
    vec4(mul_spec(a.x as int, k), mul_spec(a.y as int, k), mul_spec(a.z as int, k), mul_spec(a.w as int, k))
}

pub open spec fn vec4_div(a: Vec4, k: int) -> Vec4 {
    vec4(div_spec(a.x as int, k), div_spec(a.y as int, k), div_spec(a.z as int, k), div_spec(a.w as int, k))
}

pub open spec fn vec4_neg(a: Vec4) -> Vec4 {
    vec4(neg_spec(a.x as int), neg_spec(a.y as int), neg_spec(a.z as int), neg_spec(a.w as int))
}

/// Squared length over all four coordinates, in squared stored units.
pub open spec fn vec4_sq_len(a: Vec4) -> int {
    a.x * a.x + a.y * a.y + a.z * a.z + a.w * a.w
}

/// Euclidean length over all four coordinates.
pub open spec fn vec4_mag(a: Vec4) -> int {
    sat(isqrt(vec4_sq_len(a)))
}

/// Every coordinate divided by the length. Where the squared length scaled
/// by 1.0 squared fits in `u128`, the length is taken with six extra digits;
/// otherwise it is `vec4_mag`. The zero vector stays zero.
pub open spec fn vec4_normalize(a: Vec4) -> Vec4 {
    let q = vec4_sq_len(a);
    if q <= FINE_MAX {
        let n = isqrt(q * (ONE * ONE));
        let m = ONE * ONE;
        vec4(
            scaled_div_spec(a.x as int, m, n),
            scaled_div_spec(a.y as int, m, n),
            scaled_div_spec(a.z as int, m, n),
            scaled_div_spec(a.w as int, m, n),
        )
    } else {
        vec4_div(a, vec4_mag(a))
    }
}

/// Dot product over all four coordinates, one rounded product per term.
pub open spec fn vec4_dot(a: Vec4, b: Vec4) -> int {
    add_spec(
        add_spec(
            add_spec(mul_spec(a.x as int, b.x as int), mul_spec(a.y as int, b.y as int)),
            mul_spec(a.z as int, b.z as int),
        ),
        mul_spec(a.w as int, b.w as int),
    )
}

/// Cross product of the first three coordinates, as a direction.
pub open spec fn vec4_cross(a: Vec4, b: Vec4) -> Vec4 {
    vec4(
        sub_spec(mul_spec(a.y as int, b.z as int), mul_spec(a.z as int, b.y as int)),
        sub_spec(mul_spec(a.z as int, b.x as int), mul_spec(a.x as int, b.z as int)),
        sub_spec(mul_spec(a.x as int, b.y as int), mul_spec(a.y as int, b.x as int)),
        0,
    )
}

impl Vec4 {
    pub fn new(x: i64, y: i64, z: i64, w: i64) -> (v: Vec4)
        ensures
            v == vec4(x as int, y as int, z as int, w as int),
    {
        Vec4 { x, y, z, w }
    }

    /// A direction: `w` is 0.
    pub fn vector(x: i64, y: i64, z: i64) -> (v: Vec4)
        ensures
            v == vec4(x as int, y as int, z as int, 0),
    {
        Vec4 { x, y, z, w: 0 }
    }

    /// A point: `w` is 1.0.
    pub fn point(x: i64, y: i64, z: i64) -> (v: Vec4)
        ensures
            v == vec4(x as int, y as int, z as int, ONE as int),
    {
        Vec4 { x, y, z, w: ONE }
    }

    pub fn mag(&self) -> (r: i64)
        ensures
            r == vec4_mag(*self),
    {
        let x: i128 = self.x as i128;
        let y: i128 = self.y as i128;
        let z: i128 = self.z as i128;
        let w: i128 = self.w as i128;
        assert(0 <= x * x <= 0x4000_0000_0000_0000_0000_0000_0000_0000) by (nonlinear_arith)
            requires
                i64::MIN <= x <= i64::MAX,
        ;
        assert(0 <= y * y <= 0x4000_0000_0000_0000_0000_0000_0000_0000) by (nonlinear_arith)
            requires
                i64::MIN <= y <= i64::MAX,
        ;
        assert(0 <= z * z <= 0x4000_0000_0000_0000_0000_0000_0000_0000) by (nonlinear_arith)
            requires
                i64::MIN <= z <= i64::MAX,
        ;
        assert(0 <= w * w <= 0x4000_0000_0000_0000_0000_0000_0000_0000) by (nonlinear_arith)
            requires
                i64::MIN <= w <= i64::MAX,
        ;
        let q3: u128 = (x * x) as u128 + (y * y) as u128 + (z * z) as u128;
        let ww: u128 = (w * w) as u128;
        if ww > u128::MAX - q3 {
            // The squared length is at least 2^128, so its root is beyond i64.
            proof {
                let q = vec4_sq_len(*self);
                lemma_root_exists(q);
                let r = isqrt(q);
                assert(is_root(r, q));
                assert(r >= 0x8000_0000_0000_0000) by {
                    lemma_below_root(0xffff_ffff_ffff_ffff, r + 1);
                }
            }
            return i64::MAX;
        }
        let s = isqrt_u128(q3 + ww);
        if s > i64::MAX as u64 {
            i64::MAX
        } else {
            s as i64
        }
    }

    /// Every coordinate, `w` included, divided by the length.
    pub fn normalize(&self) -> (v: Vec4)
        ensures
            v == vec4_normalize(*self),
    {
        let x: i128 = self.x as i128;
        let y: i128 = self.y as i128;
        let z: i128 = self.z as i128;
        let w: i128 = self.w as i128;
        assert(0 <= x * x <= 0x4000_0000_0000_0000_0000_0000_0000_0000) by (nonlinear_arith)
            requires
                i64::MIN <= x <= i64::MAX,
        ;
        assert(0 <= y * y <= 0x4000_0000_0000_0000_0000_0000_0000_0000) by (nonlinear_arith)
            requires
                i64::MIN <= y <= i64::MAX,
        ;
        assert(0 <= z * z <= 0x4000_0000_0000_0000_0000_0000_0000_0000) by (nonlinear_arith)
            requires
                i64::MIN <= z <= i64::MAX,
        ;
        assert(0 <= w * w <= 0x4000_0000_0000_0000_0000_0000_0000_0000) by (nonlinear_arith)
            requires
                i64::MIN <= w <= i64::MAX,
        ;
        let q3: u128 = (x * x) as u128 + (y * y) as u128 + (z * z) as u128;
        let ww: u128 = (w * w) as u128;
        if q3 <= FINE_MAX && ww <= FINE_MAX - q3 {
            let q = q3 + ww;
            assert(q * 1_000_000_000_000 == vec4_sq_len(*self) * (ONE * ONE));
            let n = isqrt_u128(q * 1_000_000_000_000);
            let k: i64 = ONE * ONE;
            return Vec4 {
                x: fx_scaled_div(self.x, k, n),
                y: fx_scaled_div(self.y, k, n),
                z: fx_scaled_div(self.z, k, n),
                w: fx_scaled_div(self.w, k, n),
            };
        }
        let m = self.mag();
        Vec4 { x: fx_div(self.x, m), y: fx_div(self.y, m), z: fx_div(self.z, m), w: fx_div(self.w, m) }
    }

    pub fn dot(&self, other: &Vec4) -> (r: i64)
        ensures
            r == vec4_dot(*self, *other),
    {
        fx_add(
            fx_add(fx_add(fx_mul(self.x, other.x), fx_mul(self.y, other.y)), fx_mul(self.z, other.z)),
            fx_mul(self.w, other.w),
        )
    }

    pub fn cross(&self, other: &Vec4) -> (v: Vec4)
        ensures
            v == vec4_cross(*self, *other),
    {
        Vec4::vector(
            fx_sub(fx_mul(self.y, other.z), fx_mul(self.z, other.y)),
            fx_sub(fx_mul(self.z, other.x), fx_mul(self.x, other.z)),
            fx_sub(fx_mul(self.x, other.y), fx_mul(self.y, other.x)),
        )
    }

    pub fn add(self, other: Vec4) -> (v: Vec4)
        ensures
            v == vec4_add(self, other),
    {
        Vec4 {
            x: fx_add(self.x, other.x),
            y: fx_add(self.y, other.y),
            z: fx_add(self.z, other.z),
            w: fx_add(self.w, other.w),
        }
    }

    pub fn sub(self, other: Vec4) -> (v: Vec4)
        ensures
            v == vec4_sub(self, other),
    {
        Vec4 {
            x: fx_sub(self.x, other.x),
            y: fx_sub(self.y, other.y),
            z: fx_sub(self.z, other.z),
            w: fx_sub(self.w, other.w),
        }
    }

    /// Every coordinate times the scalar `k`.
    pub fn scale(self, k: i64) -> (v: Vec4)
        ensures
            v == vec4_scale(self, k as int),
    {
        Vec4 { x: fx_mul(self.x, k), y: fx_mul(self.y, k), z: fx_mul(self.z, k), w: fx_mul(self.w, k) }
    }

    /// Every coordinate divided by the scalar `k`.
    pub fn div(self, k: i64) -> (v: Vec4)
        ensures
            v == vec4_div(self, k as int),
    {
        Vec4 { x: fx_div(self.x, k), y: fx_div(self.y, k), z: fx_div(self.z, k), w: fx_div(self.w, k) }
    }

    pub fn neg(self) -> (v: Vec4)
        ensures
            v == vec4_neg(self),
    {
        Vec4 { x: fx_neg(self.x), y: fx_neg(self.y), z: fx_neg(self.z), w: fx_neg(self.w) }
    }
}

} // verus!
