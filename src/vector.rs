//! Points and directions in homogeneous coordinates.
use vstd::prelude::*;
use crate::fixed::{
    add_spec, fx_add, fx_mul, fx_neg, fx_scaled_div, fx_sub, is_root, isqrt, isqrt_u128,
    lemma_below_root, lemma_root_exists, mul_spec, neg_spec, sat, scaled_div_spec, sub_spec, ONE,
};

verus! {

/// A homogeneous 4-tuple of fixed-point scalars. Every vector the library
/// builds has `w` equal to 1.0; the geometric operations read `x`, `y`, `z`.
#[derive(Clone, Copy, Debug, PartialEq, Eq, Structural)]
pub struct Vector {
    pub x: i64,
    pub y: i64,
    pub z: i64,
    pub w: i64,
}

/// The vector with the given coordinates and `w` equal to 1.0.
pub open spec fn vec3(x: int, y: int, z: int) -> Vector {
    Vector { x: x as i64, y: y as i64, z: z as i64, w: ONE }
}

pub open spec fn vec_add(a: Vector, b: Vector) -> Vector {
    vec3(add_spec(a.x as int, b.x as int), add_spec(a.y as int, b.y as int), add_spec(a.z as int, b.z as int))
}

pub open spec fn vec_sub(a: Vector, b: Vector) -> Vector {
    vec3(sub_spec(a.x as int, b.x as int), sub_spec(a.y as int, b.y as int), sub_spec(a.z as int, b.z as int))
}

pub open spec fn vec_scale(a: Vector, k: int) -> Vector {
    vec3(mul_spec(a.x as int, k), mul_spec(a.y as int, k), mul_spec(a.z as int, k))
}

pub open spec fn vec_neg(a: Vector) -> Vector {
    vec3(neg_spec(a.x as int), neg_spec(a.y as int), neg_spec(a.z as int))
}

/// Dot product of the first three coordinates, one rounded product per term.
pub open spec fn vec_dot(a: Vector, b: Vector) -> int {
    add_spec(
        add_spec(mul_spec(a.x as int, b.x as int), mul_spec(a.y as int, b.y as int)),
        mul_spec(a.z as int, b.z as int),
    )
}

/// Squared length of the first three coordinates, in squared stored units.
pub open spec fn sq_len(a: Vector) -> int {
    a.x * a.x + a.y * a.y + a.z * a.z
}

/// Euclidean length of the first three coordinates.
pub open spec fn vec_norm(a: Vector) -> int {
    sat(isqrt(sq_len(a)))
}

/// The largest squared length that can be scaled by 1.0 squared within `u128`.
pub const FINE_MAX: u128 = 340282366920938463463374607;

/// The factor `normalize` scales the squared length by before its root is
/// taken: 1.0, for six extra digits of length, wherever that fits.
pub open spec fn norm_scale(a: Vector) -> int {
    if sq_len(a) <= FINE_MAX {
        ONE as int
    } else {
        1
    }
}

/// The length `normalize` divides by, in units of one millionth divided by
/// `norm_scale`.
pub open spec fn normalize_divisor(a: Vector) -> int {
    isqrt(sq_len(a) * (norm_scale(a) * norm_scale(a)))
}

/// Each coordinate divided by the length, truncated toward zero; the zero
/// vector stays zero.
pub open spec fn vec_normalize(a: Vector) -> Vector {
    let m = ONE * norm_scale(a);
    let n = normalize_divisor(a);
    vec3(
        scaled_div_spec(a.x as int, m, n),
        scaled_div_spec(a.y as int, m, n),
        scaled_div_spec(a.z as int, m, n),
    )
}

/// `a - (normal * 2) * (a . normal)`.
pub open spec fn vec_reflect(a: Vector, normal: Vector) -> Vector {
    vec_sub(a, vec_scale(vec_scale(normal, 2 * ONE), vec_dot(a, normal)))
}

impl Vector {
    pub fn new(x: i64, y: i64, z: i64) -> (v: Vector)
        ensures
            v == vec3(x as int, y as int, z as int),
    {
        Vector { x, y, z, w: ONE }
    }

    pub fn x(&self) -> (r: i64)
        ensures
            r == self.x,
    {
        self.x
    }

    pub fn y(&self) -> (r: i64)
        ensures
            r == self.y,
    {
        self.y
    }

    pub fn z(&self) -> (r: i64)
        ensures
            r == self.z,
    {
        self.z
    }

    pub fn add(self, other: Vector) -> (v: Vector)
        ensures
            v == vec_add(self, other),
    {
        Vector::new(fx_add(self.x, other.x), fx_add(self.y, other.y), fx_add(self.z, other.z))
    }

    pub fn sub(self, other: Vector) -> (v: Vector)
        ensures
            v == vec_sub(self, other),
    {
        Vector::new(fx_sub(self.x, other.x), fx_sub(self.y, other.y), fx_sub(self.z, other.z))
    }

    /// Every coordinate times the scalar `k`.
    pub fn scale(self, k: i64) -> (v: Vector)
        ensures
            v == vec_scale(self, k as int),
    {
        Vector::new(fx_mul(self.x, k), fx_mul(self.y, k), fx_mul(self.z, k))
    }

    pub fn neg(self) -> (v: Vector)
        ensures
            v == vec_neg(self),
    {
        Vector::new(fx_neg(self.x), fx_neg(self.y), fx_neg(self.z))
    }

    pub fn dot(&self, other: &Vector) -> (r: i64)
        ensures
            r == vec_dot(*self, *other),
    {
        fx_add(fx_add(fx_mul(self.x, other.x), fx_mul(self.y, other.y)), fx_mul(self.z, other.z))
    }

    /// The squared length, exactly.
    fn sq_len_exact(&self) -> (q: u128)
        ensures
            q == sq_len(*self),
    {
        let x: i128 = self.x as i128;
        let y: i128 = self.y as i128;
        let z: i128 = self.z as i128;
        assert(0 <= x * x <= 0x4000_0000_0000_0000_0000_0000_0000_0000) by (nonlinear_arith)
            requires
                i64::MIN <= x <= i64::MAX,
        ;
        assert(0 <= y * y <= 0x4000_0000_0000_0000_0000_0000_0000_0000) by (nonlinear_arith)
            requires
                i64::MIN <= y <= i64::MAX,
        ;
        assert(0 <= z * z <= 0x4000_0000_0000_0000_0000_0000_0000_0000) by (nonlinear_arith)
            requires
                i64::MIN <= z <= i64::MAX,
        ;
        (x * x) as u128 + (y * y) as u128 + (z * z) as u128
    }

    pub fn norm(&self) -> (r: i64)
        ensures
            r == vec_norm(*self),
            r >= 0,
    {
        let s = isqrt_u128(self.sq_len_exact());
        if s > i64::MAX as u64 {
            i64::MAX
        } else {
            s as i64
        }
    }

    pub fn normalize(&self) -> (v: Vector)
        ensures
            v == vec_normalize(*self),
    {
        let q = self.sq_len_exact();
        if q <= FINE_MAX {
            assert(q * 1_000_000_000_000 == sq_len(*self) * (ONE * ONE));
            let n = isqrt_u128(q * 1_000_000_000_000);
            let m: i64 = ONE * ONE;
            assert(m == ONE * norm_scale(*self));
            Vector::new(fx_scaled_div(self.x, m, n), fx_scaled_div(self.y, m, n), fx_scaled_div(self.z, m, n))
        } else {
            assert(norm_scale(*self) == 1);
            assert(q == sq_len(*self) * (norm_scale(*self) * norm_scale(*self))) by (nonlinear_arith)
                requires
                    norm_scale(*self) == 1,
                    q == sq_len(*self),
            ;
            let n = isqrt_u128(q);
            Vector::new(fx_scaled_div(self.x, ONE, n), fx_scaled_div(self.y, ONE, n), fx_scaled_div(self.z, ONE, n))
        }
    }

    /// The mirror image of `self` about `normal`.
    pub fn reflect(self, normal: &Vector) -> (v: Vector)
        ensures
            v == vec_reflect(self, *normal),
    {
        let d = self.dot(normal);
        self.sub(normal.scale(2 * ONE).scale(d))
    }
}

/// Dividing one coordinate, scaled by `g`, by the length `n` keeps
/// `|x * g| / n` to within one millionth below: for `f = |x * 1.0 * g / n|`,
/// `n * f <= |x * g| * 1.0 < n * (f + 1)`.
proof fn lemma_unit_coordinate(x0: int, n: int, g: int)
    requires
        ONE <= n,
        1 <= g,
        (x0 * g) * (x0 * g) < (n + 1) * (n + 1),
    ensures
        ({
            let c = scaled_div_spec(x0, ONE * g, n);
            let f = if c < 0 { -c } else { c };
            &&& 0 <= f
            &&& (n * f) * (n * f) <= ((x0 * g) * (x0 * g)) * (ONE * ONE)
            &&& ((x0 * g) * (x0 * g)) * (ONE * ONE) < (n * (f + 1)) * (n * (f + 1))
        }),
{
    let x = x0 * g;
    assert(x0 * (ONE * g) == x * ONE) by (nonlinear_arith)
        requires
            x == x0 * g,
    ;
    let one = ONE as int;
    let ax = if x < 0 { -x } else { x };
    assert(ax * ax == x * x) by (nonlinear_arith)
        requires
            ax == x || ax == -x,
    ;
    assert(ax <= n) by (nonlinear_arith)
        requires
            0 <= ax,
            0 < n,
            ax * ax < (n + 1) * (n + 1),
    ;
    let a = ax * one;
    let f = a / n;
    vstd::arithmetic::div_mod::lemma_fundamental_div_mod(a, n);
    vstd::arithmetic::div_mod::lemma_mod_bound(a, n);
    assert(0 <= f <= one) by (nonlinear_arith)
        requires
            0 <= ax <= n,
            a == ax * one,
            one > 0,
            a == n * f + a % n,
            0 <= a % n < n,
    ;
    let c = scaled_div_spec(x0, ONE * g, n);
    if x >= 0 {
        assert(c == f);
    } else {
        assert(x * one == -a) by (nonlinear_arith)
            requires
                ax == -x,
                a == ax * one,
        ;
        assert(c == -f);
    }
    assert(0 <= n * f <= a < n * (f + 1)) by (nonlinear_arith)
        requires
            a == n * f + a % n,
            0 <= a % n < n,
            0 <= f,
            0 < n,
    ;
    assert(a * a == (x * x) * (one * one)) by (nonlinear_arith)
        requires
            a == ax * one,
            ax * ax == x * x,
    ;
    assert((n * f) * (n * f) <= a * a) by (nonlinear_arith)
        requires
            0 <= n * f <= a,
    ;
    assert(a * a < (n * (f + 1)) * (n * (f + 1))) by (nonlinear_arith)
        requires
            0 <= a < n * (f + 1),
    ;
}

/// Every nonzero vector normalizes to length 1.0, short by at most four
/// millionths.
pub proof fn lemma_normalize_unit(v: Vector)
    requires
        sq_len(v) > 0,
    ensures
        ONE - 4 <= vec_norm(vec_normalize(v)) <= ONE,
{
    let one = ONE as int;
    let g = norm_scale(v);
    let (x0, y0, z0) = (v.x as int, v.y as int, v.z as int);
    let (x, y, z) = (x0 * g, y0 * g, z0 * g);
    let q = x * x + y * y + z * z;
    assert(x * x == (x0 * x0) * (g * g)) by (nonlinear_arith)
        requires
            x == x0 * g,
    ;
    assert(y * y == (y0 * y0) * (g * g)) by (nonlinear_arith)
        requires
            y == y0 * g,
    ;
    assert(z * z == (z0 * z0) * (g * g)) by (nonlinear_arith)
        requires
            z == z0 * g,
    ;
    lemma_sum3(g * g, x0 * x0, y0 * y0, z0 * z0);
    vstd::arithmetic::mul::lemma_mul_is_commutative(g * g, sq_len(v));
    vstd::arithmetic::mul::lemma_mul_is_commutative(g * g, x0 * x0);
    vstd::arithmetic::mul::lemma_mul_is_commutative(g * g, y0 * y0);
    vstd::arithmetic::mul::lemma_mul_is_commutative(g * g, z0 * z0);
    assert(q == sq_len(v) * (g * g));
    assert(q >= one * one) by (nonlinear_arith)
        requires
            q == sq_len(v) * (g * g),
            sq_len(v) >= 1,
            g == one || (g == 1 && sq_len(v) > FINE_MAX),
            one == 1_000_000,
    ;
    let n = isqrt(q);
    assert(n == normalize_divisor(v));
    lemma_root_exists(q);
    assert(is_root(n, q));
    if n < one {
        assert((n + 1) * (n + 1) <= one * one) by (nonlinear_arith)
            requires
                0 <= n + 1 <= one,
        ;
    }
    assert(x * x <= q && y * y <= q && z * z <= q) by (nonlinear_arith)
        requires
            q == x * x + y * y + z * z,
    ;
    lemma_unit_coordinate(x0, n, g);
    lemma_unit_coordinate(y0, n, g);
    lemma_unit_coordinate(z0, n, g);
    let u = vec_normalize(v);
    let fx = if u.x < 0 { -u.x } else { u.x as int };
    let fy = if u.y < 0 { -u.y } else { u.y as int };
    let fz = if u.z < 0 { -u.z } else { u.z as int };
    assert(fx * fx == u.x * u.x && fy * fy == u.y * u.y && fz * fz == u.z * u.z) by (nonlinear_arith)
        requires
            fx == u.x || fx == -u.x,
            fy == u.y || fy == -u.y,
            fz == u.z || fz == -u.z,
    ;
    let s = sq_len(u);
    assert(s == fx * fx + fy * fy + fz * fz);
    let nn = n * n;
    let oo = one * one;
    assert(nn > 0 && oo > 0) by (nonlinear_arith)
        requires
            n > 0,
            one > 0,
            nn == n * n,
            oo == one * one,
    ;
    lemma_scaled_square(n, fx);
    lemma_scaled_square(n, fy);
    lemma_scaled_square(n, fz);
    lemma_scaled_square(n, fx + 1);
    lemma_scaled_square(n, fy + 1);
    lemma_scaled_square(n, fz + 1);
    lemma_sum3(nn, fx * fx, fy * fy, fz * fz);
    lemma_sum3(oo, x * x, y * y, z * z);
    vstd::arithmetic::mul::lemma_mul_is_commutative(x * x, oo);
    vstd::arithmetic::mul::lemma_mul_is_commutative(y * y, oo);
    vstd::arithmetic::mul::lemma_mul_is_commutative(z * z, oo);
    // Upper bound.
    assert(nn * s <= oo * q);
    assert(oo * q < nn * ((one + 1) * (one + 1))) by (nonlinear_arith)
        requires
            q < (n + 1) * (n + 1),
            0 < one <= n,
            nn == n * n,
            oo == one * one,
    ;
    assert(s < (one + 1) * (one + 1)) by (nonlinear_arith)
        requires
            nn * s < nn * ((one + 1) * (one + 1)),
            0 < nn,
    ;
    // Lower bound.
    let t = (fx + 1) * (fx + 1) + (fy + 1) * (fy + 1) + (fz + 1) * (fz + 1);
    lemma_sum3(nn, (fx + 1) * (fx + 1), (fy + 1) * (fy + 1), (fz + 1) * (fz + 1));
    assert(oo * q < nn * t);
    assert(oo * nn <= oo * q) by (nonlinear_arith)
        requires
            nn <= q,
            0 < oo,
    ;
    assert(oo < t) by (nonlinear_arith)
        requires
            oo * nn < nn * t,
            0 < nn,
    ;
    lemma_square_plus_one(fx);
    lemma_square_plus_one(fy);
    lemma_square_plus_one(fz);
    assert(0 <= fx * fx && 0 <= fy * fy && 0 <= fz * fz) by (nonlinear_arith);
    lemma_below_root(fx, one + 1);
    lemma_below_root(fy, one + 1);
    lemma_below_root(fz, one + 1);
    assert((one - 4) * (one - 4) < s) by (nonlinear_arith)
        requires
            one == 1_000_000,
            oo == one * one,
            oo < t,
            t == s + 2 * (fx + fy + fz) + 3,
            fx <= one && fy <= one && fz <= one,
    ;
    let r = isqrt(s);
    assert(exists|r: int| #[trigger] is_root(r, s)) by {
        lemma_root_exists(s);
    }
    assert(is_root(r, s));
    lemma_below_root(r, one + 1);
    if r < one - 4 {
        assert((r + 1) * (r + 1) <= (one - 4) * (one - 4)) by (nonlinear_arith)
            requires
                0 <= r + 1 <= one - 4,
        ;
    }
}

/// `(n * f)^2 == n^2 * f^2`.
proof fn lemma_scaled_square(n: int, f: int)
    ensures
        (n * f) * (n * f) == (n * n) * (f * f),
{
    assert((n * f) * (n * f) == (n * n) * (f * f)) by (nonlinear_arith);
}

proof fn lemma_sum3(k: int, a: int, b: int, c: int)
    ensures
        k * (a + b + c) == k * a + k * b + k * c,
{
    assert(k * (a + b + c) == k * a + k * b + k * c) by (nonlinear_arith);
}

proof fn lemma_square_plus_one(f: int)
    ensures
        (f + 1) * (f + 1) == f * f + 2 * f + 1,
{
    assert((f + 1) * (f + 1) == f * f + 2 * f + 1) by (nonlinear_arith);
}


} // verus!
