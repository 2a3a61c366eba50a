//! RGB colours with fixed-point channels.
use vstd::prelude::*;
use vstd::string::*;
use crate::decimal::{dec_int, push_int};
use crate::fixed::{add_spec, fx_add, fx_mul, fx_sub, mul_spec, sat32, sub_spec, tdiv, ONE};

verus! {

/// A colour: three channels, 1.0 being full intensity. Channels are not
/// bounded; values outside [0, 1] are kept as they are.
#[derive(Clone, Copy, Debug, PartialEq, Eq, Structural)]
pub struct Colour {
    pub r: i64,
    pub g: i64,
    pub b: i64,
}

pub open spec fn colour(r: int, g: int, b: int) -> Colour {
    Colour { r: r as i64, g: g as i64, b: b as i64 }
}

pub open spec fn colour_add(a: Colour, b: Colour) -> Colour {
    colour(add_spec(a.r as int, b.r as int), add_spec(a.g as int, b.g as int), add_spec(a.b as int, b.b as int))
}

pub open spec fn colour_sub(a: Colour, b: Colour) -> Colour {
    colour(sub_spec(a.r as int, b.r as int), sub_spec(a.g as int, b.g as int), sub_spec(a.b as int, b.b as int))
}

pub open spec fn colour_mul(a: Colour, b: Colour) -> Colour {
    colour(mul_spec(a.r as int, b.r as int), mul_spec(a.g as int, b.g as int), mul_spec(a.b as int, b.b as int))
}

pub open spec fn colour_scale(a: Colour, k: int) -> Colour {
    colour(mul_spec(a.r as int, k), mul_spec(a.g as int, k), mul_spec(a.b as int, k))
}

/// A channel as an integer in 0..=255 for channels in [0, 1]: the channel
/// times 255, truncated toward zero and clamped to the range of `i32`.
pub open spec fn channel_byte(c: int) -> int {
    sat32(tdiv(c * 255, ONE as int))
}

/// The three channel integers, separated by single spaces.
pub open spec fn rgb_text(c: Colour) -> Seq<char> {
    dec_int(channel_byte(c.r as int)) + seq![' '] + dec_int(channel_byte(c.g as int)) + seq![' ']
        + dec_int(channel_byte(c.b as int))
}

fn channel_to_int(c: i64) -> (r: i64)
    ensures
        r == channel_byte(c as int),
{
    let p: i128 = (c as i128) * 255;
    let q: i128 = if p >= 0 {
        ((p as u128) / (ONE as u128)) as i128
    } else {
        -((((-p) as u128) / (ONE as u128)) as i128)
    };
    if q > i32::MAX as i128 {
        i32::MAX as i64
    } else if q < i32::MIN as i128 {
        i32::MIN as i64
    } else {
        q as i64
    }
}

impl Colour {
    pub fn new(r: i64, g: i64, b: i64) -> (c: Colour)
        ensures
            c == (Colour { r, g, b }),
    {
        Colour { r, g, b }
    }

    /// Channel-wise sum.
    pub fn add(self, other: Colour) -> (c: Colour)
        ensures
            c == colour_add(self, other),
    {
        Colour { r: fx_add(self.r, other.r), g: fx_add(self.g, other.g), b: fx_add(self.b, other.b) }
    }

    /// Channel-wise difference.
    pub fn sub(self, other: Colour) -> (c: Colour)
        ensures
            c == colour_sub(self, other),
    {
        Colour { r: fx_sub(self.r, other.r), g: fx_sub(self.g, other.g), b: fx_sub(self.b, other.b) }
    }

    /// Channel-wise product.
    pub fn mul(self, other: Colour) -> (c: Colour)
        ensures
            c == colour_mul(self, other),
    {
        Colour { r: fx_mul(self.r, other.r), g: fx_mul(self.g, other.g), b: fx_mul(self.b, other.b) }
    }

    /// Every channel times the scalar `k`.
    pub fn scale(self, k: i64) -> (c: Colour)
        ensures
            c == colour_scale(self, k as int),
    {
        Colour { r: fx_mul(self.r, k), g: fx_mul(self.g, k), b: fx_mul(self.b, k) }
    }

    /// The colour as it stands in a pixel map: `"<r> <g> <b>"`.
    pub fn rgb_string(&self) -> (s: String)
        ensures
            s@ == rgb_text(*self),
    {
        let mut s = String::new();
        proof {
            reveal_strlit(" ");
        }
        push_int(&mut s, channel_to_int(self.r));
        s.append(" ");
        push_int(&mut s, channel_to_int(self.g));
        s.append(" ");
        push_int(&mut s, channel_to_int(self.b));
        assert(s@ =~= rgb_text(*self));
        s
    }
}

/// Sums, differences and products of colours are exact channel by channel
/// wherever the exact value is representable.
pub proof fn lemma_colour_ops_exact(a: Colour, b: Colour, k: i64)
    ensures
        i64::MIN <= a.r + b.r <= i64::MAX ==> colour_add(a, b).r == a.r + b.r,
        i64::MIN <= a.g + b.g <= i64::MAX ==> colour_add(a, b).g == a.g + b.g,
        i64::MIN <= a.b + b.b <= i64::MAX ==> colour_add(a, b).b == a.b + b.b,
        i64::MIN <= a.r - b.r <= i64::MAX ==> colour_sub(a, b).r == a.r - b.r,
        i64::MIN <= a.g - b.g <= i64::MAX ==> colour_sub(a, b).g == a.g - b.g,
        i64::MIN <= a.b - b.b <= i64::MAX ==> colour_sub(a, b).b == a.b - b.b,
        (a.r * k) % (ONE as int) == 0 && i64::MIN <= (a.r * k) / (ONE as int) <= i64::MAX
            ==> colour_scale(a, k as int).r * ONE == a.r * k,
        (a.g * k) % (ONE as int) == 0 && i64::MIN <= (a.g * k) / (ONE as int) <= i64::MAX
            ==> colour_scale(a, k as int).g * ONE == a.g * k,
        (a.b * k) % (ONE as int) == 0 && i64::MIN <= (a.b * k) / (ONE as int) <= i64::MAX
            ==> colour_scale(a, k as int).b * ONE == a.b * k,
{
    lemma_exact_product(a.r as int, k as int);
    lemma_exact_product(a.g as int, k as int);
    lemma_exact_product(a.b as int, k as int);
}

/// A product that is a whole number of millionths loses nothing.
proof fn lemma_exact_product(a: int, k: int)
    ensures
        (a * k) % (ONE as int) == 0 && i64::MIN <= (a * k) / (ONE as int) <= i64::MAX
            ==> mul_spec(a, k) * ONE == a * k,
{
    let p = a * k;
    let one = ONE as int;
    if p % one == 0 && i64::MIN <= p / one <= i64::MAX {
        vstd::arithmetic::div_mod::lemma_fundamental_div_mod(p, one);
        if p < 0 {
            vstd::arithmetic::div_mod::lemma_fundamental_div_mod(-p, one);
            assert((-p) % one == 0) by {
                vstd::arithmetic::div_mod::lemma_mod_multiples_basic(-(p / one), one);
                assert(-p == (-(p / one)) * one) by (nonlinear_arith)
                    requires
                        p == one * (p / one),
                ;
            }
            assert(tdiv(p, one) == p / one) by (nonlinear_arith)
                requires
                    p == one * (p / one),
                    -p == one * ((-p) / one),
                    one > 0,
                    tdiv(p, one) == -((-p) / one),
            ;
        }
        assert(mul_spec(a, k) == p / one);
    }
}

} // verus!
