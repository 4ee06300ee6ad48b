//! Target dimensions for a tiered resize.
//!
//! An image is shrunk so that its largest side becomes the tier's maximum
//! dimension, keeping the aspect ratio up to rounding; an image that already
//! fits (or has a zero dimension) keeps its dimensions unchanged, so no
//! output is ever upscaled.

use vstd::prelude::*;
use crate::tiers::spec_largest;
use vstd::arithmetic::div_mod::lemma_div_pos_is_pos;
use vstd::arithmetic::div_mod::lemma_div_multiples_vanish_fancy;
use vstd::arithmetic::div_mod::lemma_fundamental_div_mod;
use vstd::arithmetic::div_mod::lemma_mod_division_less_than_divisor;
use vstd::arithmetic::div_mod::lemma_multiply_divide_lt;

verus! {

/// `a / b` rounded to the nearest integer (halves rounding up), for `b > 0`.
pub open spec fn rounded_div(a: int, b: int) -> int {
    (2 * a + b) / (2 * b)
}

/// One side of an image scaled by `m / largest`, rounded, and at least 1.
pub open spec fn scaled_side(side: u32, largest: u32, m: u32) -> int {
    let r = rounded_div(side as int * m as int, largest as int);
    if r < 1 {
        1
    } else {
        r
    }
}

/// The dimensions an image resized for a tier with maximum dimension `m`
/// receives: unchanged when the image already fits within `m` or has a zero
/// side, otherwise both sides scaled by `m / largest`.
pub open spec fn tier_dims(w: u32, h: u32, m: u32) -> (int, int) {
    if w == 0 || h == 0 || spec_largest(w, h) <= m {
        (w as int, h as int)
    } else {
        (scaled_side(w, spec_largest(w, h), m), scaled_side(h, spec_largest(w, h), m))
    }
}

/// Compute one scaled side, rounding `side * m / largest` to the nearest
/// integer and clamping to at least 1.
fn scale_side(side: u32, largest: u32, m: u32) -> (r: u32)
    requires
        1 <= side,
        side <= largest,
        1 <= m,
        m < largest,
    ensures
        r as int == scaled_side(side, largest, m),
{
    proof {
        lemma_scaled_side_bounds(side, largest, m);
        assert((2 * (side as int)) * (m as int) == 2 * ((side as int) * (m as int)))
            by (nonlinear_arith);
        assert((2 * (side as int)) * (m as int) <= 0x3_0000_0000_0000_0000) by (nonlinear_arith)
            requires
                side <= 0xffff_ffffu32,
                m <= 0xffff_ffffu32,
        ;
    }
    let num: u128 = 2 * (side as u128) * (m as u128) + (largest as u128);
    let den: u128 = 2 * (largest as u128);
    let q: u128 = num / den;
    if q < 1 {
        1
    } else {
        q as u32
    }
}

/// Compute the dimensions an image of `width` by `height` receives when
/// resized for a tier whose maximum dimension is `max_dim`.
pub fn fit_dimensions(width: u32, height: u32, max_dim: u32) -> (r: (u32, u32))
    requires
        1 <= max_dim,
    ensures
        r.0 as int == tier_dims(width, height, max_dim).0,
        r.1 as int == tier_dims(width, height, max_dim).1,
{
    let largest: u32 = if width >= height {
        width
    } else {
        height
    };
    if width == 0 || height == 0 || largest <= max_dim {
        (width, height)
    } else {
        (scale_side(width, largest, max_dim), scale_side(height, largest, max_dim))
    }
}

/// A scaled side lies between 1 and both the tier's maximum dimension and
/// the side it came from.
proof fn lemma_scaled_side_bounds(side: u32, largest: u32, m: u32)
    requires
        1 <= side,
        side <= largest,
        1 <= m,
        m < largest,
    ensures
        1 <= scaled_side(side, largest, m),
        scaled_side(side, largest, m) <= m,
        scaled_side(side, largest, m) <= side,
{
    let s = side as int;
    let l = largest as int;
    let mi = m as int;
    let a = s * mi;
    let num = 2 * a + l;
    let den = 2 * l;
    assert(num < den * (mi + 1)) by (nonlinear_arith)
        requires
            num == 2 * a + l,
            a == s * mi,
            den == 2 * l,
            s <= l,
            1 <= l,
            0 <= mi,
    ;
    lemma_multiply_divide_lt(num, den, mi + 1);
    assert(num < den * (s + 1)) by (nonlinear_arith)
        requires
            num == 2 * a + l,
            a == s * mi,
            den == 2 * l,
            mi + 1 <= l,
            1 <= s,
            1 <= l,
    ;
    lemma_multiply_divide_lt(num, den, s + 1);
    lemma_div_pos_is_pos(num, den);
}

/// Resizing for a tier never increases either dimension: an image that
/// already fits is left unchanged, and one that does not is only shrunk.
pub proof fn lemma_fit_no_upscale(w: u32, h: u32, m: u32)
    requires
        1 <= m,
    ensures
        tier_dims(w, h, m).0 <= w,
        tier_dims(w, h, m).1 <= h,
{
    if !(w == 0 || h == 0 || spec_largest(w, h) <= m) {
        lemma_scaled_side_bounds(w, spec_largest(w, h), m);
        lemma_scaled_side_bounds(h, spec_largest(w, h), m);
    }
}

/// An image that already fits keeps its dimensions; one that must shrink
/// receives dimensions between 1 and the tier's maximum dimension.
pub proof fn lemma_fit_bounded(w: u32, h: u32, m: u32)
    requires
        1 <= m,
    ensures
        w == 0 || h == 0 || spec_largest(w, h) <= m ==> tier_dims(w, h, m) == (
            w as int,
            h as int,
        ),
        1 <= w && 1 <= h && spec_largest(w, h) > m ==> 1 <= tier_dims(w, h, m).0 <= m && 1
            <= tier_dims(w, h, m).1 <= m,
{
    if 1 <= w && 1 <= h && spec_largest(w, h) > m {
        lemma_scaled_side_bounds(w, spec_largest(w, h), m);
        lemma_scaled_side_bounds(h, spec_largest(w, h), m);
    }
}

/// When an image must shrink, its longer side is scaled to exactly the
/// tier's maximum dimension.
pub proof fn lemma_fit_long_side_exact(w: u32, h: u32, m: u32)
    requires
        1 <= w,
        1 <= h,
        1 <= m,
        spec_largest(w, h) > m,
    ensures
        w >= h ==> tier_dims(w, h, m).0 == m,
        h >= w ==> tier_dims(w, h, m).1 == m,
{
    let l = spec_largest(w, h) as int;
    let mi = m as int;
    let a = l * mi;
    assert(2 * a + l == (2 * l) * mi + l) by (nonlinear_arith)
        requires
            a == l * mi,
    ;
    lemma_div_multiples_vanish_fancy(mi, l, 2 * l);
}

/// Scaling preserves the aspect ratio within rounding tolerance: the cross
/// products of the old and the new dimensions differ by at most `w + h`.
pub proof fn lemma_fit_preserves_aspect(w: u32, h: u32, m: u32)
    requires
        1 <= w,
        1 <= h,
        1 <= m,
    ensures
        ({
            let (nw, nh) = tier_dims(w, h, m);
            nh * w - (w + h) <= nw * h <= nh * w + (w + h)
        }),
{
    if spec_largest(w, h) <= m {
        assert(w as int * h as int == h as int * w as int) by (nonlinear_arith);
    } else if h >= w {
        lemma_aspect_short_side(w, h, m);
    } else {
        lemma_aspect_short_side_wide(w, h, m);
    }
}

/// Aspect bound for a portrait or square image that must shrink: the long
/// side becomes exactly `m`, and the scaled short side satisfies the bound.
proof fn lemma_aspect_short_side(w: u32, h: u32, m: u32)
    requires
        1 <= w,
        1 <= h,
        1 <= m,
        h >= w,
        spec_largest(w, h) > m,
    ensures
        ({
            let (nw, nh) = tier_dims(w, h, m);
            nh * w - (w + h) <= nw * h <= nh * w + (w + h)
        }),
{
    let s = w as int;
    let l = h as int;
    let mi = m as int;
    lemma_fit_long_side_exact(w, h, m);
    assert(tier_dims(w, h, m).1 == mi);
    let a = s * mi;
    let num = 2 * a + l;
    let den = 2 * l;
    lemma_fundamental_div_mod(num, den);
    lemma_mod_division_less_than_divisor(num, den);
    let q = num / den;
    let r = num % den;
    assert(2 * (q * l - mi * s) == l - r) by (nonlinear_arith)
        requires
            num == den * q + r,
            num == 2 * a + l,
            a == s * mi,
            den == 2 * l,
    ;
    lemma_div_pos_is_pos(num, den);
    if q < 1 {
        assert(tier_dims(w, h, m).0 == 1);
        assert(mi * s - (s + l) <= 1 * l <= mi * s + (s + l)) by (nonlinear_arith)
            requires
                2 * (q * l - mi * s) == l - r,
                q == 0,
                0 <= r < 2 * l,
                1 <= s,
                1 <= l,
                1 <= mi,
        ;
        assert(tier_dims(w, h, m).0 * l == 1 * l);
    } else {
        assert(tier_dims(w, h, m).0 == q);
        assert(mi * s - (s + l) <= q * l <= mi * s + (s + l)) by (nonlinear_arith)
            requires
                2 * (q * l - mi * s) == l - r,
                0 <= r < 2 * l,
                1 <= s,
                1 <= l,
        ;
    }
}

/// Aspect bound for a landscape image that must shrink: symmetric to the
/// portrait case, with the roles of the sides exchanged.
proof fn lemma_aspect_short_side_wide(w: u32, h: u32, m: u32)
    requires
        1 <= w,
        1 <= h,
        1 <= m,
        w > h,
        spec_largest(w, h) > m,
    ensures
        ({
            let (nw, nh) = tier_dims(w, h, m);
            nh * w - (w + h) <= nw * h <= nh * w + (w + h)
        }),
{
    let s = h as int;
    let l = w as int;
    let mi = m as int;
    lemma_fit_long_side_exact(w, h, m);
    assert(tier_dims(w, h, m).0 == mi);
    let a = s * mi;
    let num = 2 * a + l;
    let den = 2 * l;
    lemma_fundamental_div_mod(num, den);
    lemma_mod_division_less_than_divisor(num, den);
    let q = num / den;
    let r = num % den;
    assert(2 * (q * l - mi * s) == l - r) by (nonlinear_arith)
        requires
            num == den * q + r,
            num == 2 * a + l,
            a == s * mi,
            den == 2 * l,
    ;
    lemma_div_pos_is_pos(num, den);
    if q < 1 {
        assert(tier_dims(w, h, m).1 == 1);
        assert(mi * s - (s + l) <= 1 * l <= mi * s + (s + l)) by (nonlinear_arith)
            requires
                2 * (q * l - mi * s) == l - r,
                q == 0,
                0 <= r < 2 * l,
                1 <= s,
                1 <= l,
                1 <= mi,
        ;
    } else {
        assert(tier_dims(w, h, m).1 == q);
        assert(mi * s - (s + l) <= q * l <= mi * s + (s + l)) by (nonlinear_arith)
            requires
                2 * (q * l - mi * s) == l - r,
                0 <= r < 2 * l,
                1 <= s,
                1 <= l,
        ;
    }
}

} // verus!
