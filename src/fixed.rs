//! Saturating fixed-point scalars.
//!
//! A scalar is an `i64` counting millionths of a unit. Every operation is
//! stated over mathematical integers and then clamped into the range of
//! `i64`, the way a float overflows to an infinity instead of wrapping.
use vstd::prelude::*;

verus! {

/// The stored value of the scalar 1.0.
pub const ONE: i64 = 1_000_000;

/// Clamps a mathematical integer into the range of `i64`.
pub open spec fn sat(v: int) -> int {
    if v > i64::MAX {
        i64::MAX as int
    } else if v < i64::MIN {
        i64::MIN as int
    } else {
        v
    }
}

/// Clamps a mathematical integer into the range of `i32`.
pub open spec fn sat32(v: int) -> int {
    if v > i32::MAX {
        i32::MAX as int
    } else if v < i32::MIN {
        i32::MIN as int
    } else {
        v
    }
}

/// Division truncated toward zero, for a positive divisor.
pub open spec fn tdiv(n: int, d: int) -> int {
    if n >= 0 {
        n / d
    } else {
        -((-n) / d)
    }
}

pub open spec fn add_spec(a: int, b: int) -> int {
    sat(a + b)
}

pub open spec fn sub_spec(a: int, b: int) -> int {
    sat(a - b)
}

pub open spec fn neg_spec(a: int) -> int {
    sat(-a)
}

/// Product of two scalars, truncated toward zero to a whole millionth.
pub open spec fn mul_spec(a: int, b: int) -> int {
    sat(tdiv(a * b, ONE as int))
}

/// Quotient of two scalars, truncated toward zero. A zero divisor gives the
/// extreme value of the dividend's sign, and zero for a zero dividend.
pub open spec fn div_spec(a: int, b: int) -> int {
    if b == 0 {
        if a > 0 {
            i64::MAX as int
        } else if a < 0 {
            i64::MIN as int
        } else {
            0
        }
    } else if b > 0 {
        sat(tdiv(a * ONE, b))
    } else {
        sat(tdiv(-a * ONE, -b))
    }
}

/// `a * m / d`, truncated toward zero and clamped; zero when `d` is not positive.
pub open spec fn scaled_div_spec(a: int, m: int, d: int) -> int {
    if d <= 0 {
        0
    } else {
        sat(tdiv(a * m, d))
    }
}

/// The scalar with the whole value `n`.
pub open spec fn from_int_spec(n: int) -> int {
    sat(n * ONE)
}

/// `r` is the integer square root of `n`.
pub open spec fn is_root(r: int, n: int) -> bool {
    0 <= r && r * r <= n && n < (r + 1) * (r + 1)
}

/// The integer square root of a non-negative `n`.
pub open spec fn isqrt(n: int) -> int {
    choose|r: int| is_root(r, n)
}

/// Square root of a non-negative scalar, truncated to a whole millionth.
pub open spec fn sqrt_spec(a: int) -> int {
    isqrt(a * ONE)
}

/// `b` raised to the `n`-th power by repeated scalar products.
pub open spec fn pow_spec(b: int, n: nat) -> int
    decreases n,
{
    if n == 0 {
        ONE as int
    } else {
        mul_spec(pow_spec(b, (n - 1) as nat), b)
    }
}

pub proof fn lemma_root_unique(r1: int, r2: int, n: int)
    requires
        is_root(r1, n),
        is_root(r2, n),
    ensures
        r1 == r2,
{
    if r1 < r2 {
        assert((r1 + 1) * (r1 + 1) <= r2 * r2) by (nonlinear_arith)
            requires
                0 <= r1 + 1 <= r2,
        ;
    } else if r2 < r1 {
        assert((r2 + 1) * (r2 + 1) <= r1 * r1) by (nonlinear_arith)
            requires
                0 <= r2 + 1 <= r1,
        ;
    }
}

/// Any root of `n` is the one `isqrt` names.
pub proof fn lemma_isqrt(r: int, n: int)
    requires
        is_root(r, n),
    ensures
        isqrt(n) == r,
{
    lemma_root_unique(isqrt(n), r, n);
}

/// Every non-negative integer has an integer square root.
pub proof fn lemma_root_exists(q: int)
    requires
        q >= 0,
    ensures
        exists|r: int| #[trigger] is_root(r, q),
    decreases q,
{
    if q == 0 {
        assert(is_root(0, 0));
    } else {
        lemma_root_exists(q - 1);
        let r = choose|r: int| #[trigger] is_root(r, q - 1);
        if (r + 1) * (r + 1) <= q {
            assert(q < (r + 2) * (r + 2)) by (nonlinear_arith)
                requires
                    q - 1 < (r + 1) * (r + 1),
                    0 <= r,
            ;
            assert(is_root(r + 1, q));
        } else {
            assert(is_root(r, q));
        }
    }
}

/// A non-negative `a` whose square is below `b * b` is below `b`.
pub proof fn lemma_below_root(a: int, b: int)
    requires
        0 <= a,
        0 <= b,
        a * a < b * b,
    ensures
        a < b,
{
    if a >= b {
        assert(b * b <= a * a) by (nonlinear_arith)
            requires
                0 <= b <= a,
        ;
    }
}

fn clamp(v: i128) -> (r: i64)
    ensures
        r == sat(v as int),
{
    if v > i64::MAX as i128 {
        i64::MAX
    } else if v < i64::MIN as i128 {
        i64::MIN
    } else {
        v as i64
    }
}

/// Truncating division of `n` by a positive `d`.
fn trunc_div(n: i128, d: i128) -> (r: i128)
    requires
        n > i128::MIN,
        d > 0,
    ensures
        r == tdiv(n as int, d as int),
{
    if n >= 0 {
        ((n as u128) / (d as u128)) as i128
    } else {
        let m: u128 = (-n) as u128;
        -((m / (d as u128)) as i128)
    }
}

pub fn fx_add(a: i64, b: i64) -> (r: i64)
    ensures
        r == add_spec(a as int, b as int),
{
    clamp(a as i128 + b as i128)
}

pub fn fx_sub(a: i64, b: i64) -> (r: i64)
    ensures
        r == sub_spec(a as int, b as int),
{
    clamp(a as i128 - b as i128)
}

pub fn fx_neg(a: i64) -> (r: i64)
    ensures
        r == neg_spec(a as int),
{
    clamp(-(a as i128))
}

pub fn fx_mul(a: i64, b: i64) -> (r: i64)
    ensures
        r == mul_spec(a as int, b as int),
{
    assert(-0x4000_0000_0000_0000_0000_0000_0000_0000 <= (a as int) * (b as int)
        <= 0x4000_0000_0000_0000_0000_0000_0000_0000) by (nonlinear_arith)
        requires
            i64::MIN <= a <= i64::MAX,
            i64::MIN <= b <= i64::MAX,
    ;
    let p: i128 = (a as i128) * (b as i128);
    clamp(trunc_div(p, ONE as i128))
}

pub fn fx_div(a: i64, b: i64) -> (r: i64)
    ensures
        r == div_spec(a as int, b as int),
{
    if b == 0 {
        if a > 0 {
            i64::MAX
        } else if a < 0 {
            i64::MIN
        } else {
            0
        }
    } else if b > 0 {
        assert(-0x7fff_ffff_ffff_ffff_ffff_ffff <= (a as int) * 1_000_000
            <= 0x7fff_ffff_ffff_ffff_ffff_ffff);
        let n: i128 = (a as i128) * (ONE as i128);
        clamp(trunc_div(n, b as i128))
    } else {
        assert(-0x7fff_ffff_ffff_ffff_ffff_ffff <= -(a as int) * 1_000_000
            <= 0x7fff_ffff_ffff_ffff_ffff_ffff);
        let n: i128 = -(a as i128) * (ONE as i128);
        clamp(trunc_div(n, -(b as i128)))
    }
}

/// `a * m / d` with the product held exactly; `m` is at most 1.0 squared.
pub fn fx_scaled_div(a: i64, m: i64, d: u64) -> (r: i64)
    requires
        0 <= m <= 1_000_000_000_000,
    ensures
        r == scaled_div_spec(a as int, m as int, d as int),
{
    if d == 0 {
        return 0;
    }
    assert(-0x100_0000_0000_0000_0000_0000_0000 <= (a as int) * (m as int)
        <= 0x100_0000_0000_0000_0000_0000_0000) by (nonlinear_arith)
        requires
            i64::MIN <= a <= i64::MAX,
            0 <= m <= 1_000_000_000_000,
    ;
    let p: i128 = (a as i128) * (m as i128);
    clamp(trunc_div(p, d as i128))
}

pub fn fx_from_int(n: i64) -> (r: i64)
    ensures
        r == from_int_spec(n as int),
{
    assert(-0x7fff_ffff_ffff_ffff_ffff_ffff <= (n as int) * 1_000_000
        <= 0x7fff_ffff_ffff_ffff_ffff_ffff);
    clamp((n as i128) * (ONE as i128))
}

/// Integer square root by bisection.
pub fn isqrt_u128(n: u128) -> (r: u64)
    ensures
        is_root(r as int, n as int),
        r == isqrt(n as int),
{
    let mut lo: u128 = 0;
    let mut hi: u128 = 0x1_0000_0000_0000_0000;
    assert(n < hi * hi) by (nonlinear_arith)
        requires
            hi == 0x1_0000_0000_0000_0000u128,
            n <= u128::MAX,
    ;
    while hi - lo > 1
        invariant
            lo < hi <= 0x1_0000_0000_0000_0000,
            lo * lo <= n,
            n < hi * hi,
        decreases hi - lo,
    {
        let mid: u128 = lo + (hi - lo) / 2;
        assert(mid * mid < 0x1_0000_0000_0000_0000_0000_0000_0000_0000) by (nonlinear_arith)
            requires
                mid < 0x1_0000_0000_0000_0000,
        ;
        if mid * mid <= n {
            lo = mid;
        } else {
            hi = mid;
        }
    }
    proof {
        assert(hi == lo + 1);
        lemma_isqrt(lo as int, n as int);
    }
    lo as u64
}

/// Square root of a non-negative scalar.
pub fn fx_sqrt(a: i64) -> (r: i64)
    requires
        a >= 0,
    ensures
        r == sqrt_spec(a as int),
        r >= 0,
{
    assert((a as int) * 1_000_000 <= 0x7fff_ffff_ffff_ffff * 1_000_000);
    let n: u128 = (a as u128) * (ONE as u128);
    let s = isqrt_u128(n);
    assert(s < 0x1_0000_0000_0000) by (nonlinear_arith)
        requires
            s * s <= n,
            n <= 0x7fff_ffff_ffff_ffff * 1_000_000,
            s >= 0,
    ;
    s as i64
}

/// Raises `b` to the `n`-th power by `n` scalar products.
pub fn fx_pow(b: i64, n: u32) -> (r: i64)
    ensures
        r == pow_spec(b as int, n as nat),
{
    let mut acc: i64 = ONE;
    let mut i: u32 = 0;
    while i < n
        invariant
            i <= n,
            acc == pow_spec(b as int, i as nat),
        decreases n - i,
    {
        acc = fx_mul(acc, b);
        i = i + 1;
    }
    acc
}

} // verus!
