//! The per-pixel computation of the gradient image.
//!
//! For a width-by-height image, the pixel at (px, py) carries the
//! vector (px / (width - 1), py / (height - 1), 1/4), converted to a
//! color. Filling the pixel grid and writing it to a file are left to
//! the caller: each pixel's color depends on its coordinates alone.

use vstd::prelude::*;
use crate::fixed::{Fixed, SCALE, fx_div};
use crate::vector::{Vec3, byte_of};
use vstd::arithmetic::mul::lemma_mul_inequality;
use vstd::arithmetic::mul::lemma_mul_nonnegative;
use vstd::arithmetic::mul::lemma_mul_strictly_positive;
use vstd::arithmetic::div_mod::lemma_div_is_ordered;
use vstd::arithmetic::div_mod::lemma_div_multiples_vanish;
use vstd::arithmetic::div_mod::lemma_div_of0;

verus! {

/// Raw value of one quarter.
pub const QUARTER: i64 = 2500;

/// The gradient vector of pixel (px, py): x runs from 0 to 1 across
/// the image, y from 0 to 1 down it, z is the constant 1/4.
pub open spec fn gradient_vec(px: int, py: int, w: int, h: int) -> (int, int, int)
    recommends
        2 <= w,
        2 <= h,
{
    (
        fx_div(px * SCALE, (w - 1) * SCALE),
        fx_div(py * SCALE, (h - 1) * SCALE),
        QUARTER as int,
    )
}

/// A gradient component lies between 0 and 1: dividing `p` ten-thousandths
/// by `w - 1` ten-thousandths, with `0 <= p <= w - 1`, gives a raw value
/// in [0, SCALE]; at `p == 0` it is exactly 0 and at `p == w - 1` exactly
/// `SCALE`.
proof fn lemma_gradient_component(p: int, w: int)
    requires
        0 <= p <= w - 1,
        2 <= w,
    ensures
        (w - 1) * SCALE > 0,
        0 <= fx_div(p * SCALE, (w - 1) * SCALE) <= SCALE,
        p == 0 ==> fx_div(p * SCALE, (w - 1) * SCALE) == 0,
        p == w - 1 ==> fx_div(p * SCALE, (w - 1) * SCALE) == SCALE,
{
    let s = SCALE as int;
    let d = (w - 1) * s;
    let n = (p * s) * s;
    lemma_mul_strictly_positive(w - 1, s);
    lemma_mul_nonnegative(p, s);
    lemma_mul_nonnegative(p * s, s);
    assert(fx_div(p * s, d) == n / d);
    lemma_div_of0(d);
    // n grows with p, and at p == w - 1 it is exactly d * s.
    lemma_mul_inequality(p, w - 1, s);
    lemma_mul_inequality(p * s, (w - 1) * s, s);
    assert(((w - 1) * s) * s == d * s);
    lemma_div_is_ordered(n, d * s, d);
    lemma_div_multiples_vanish(s, d);
    assert(n / d <= s);
    if p == w - 1 {
        assert(n == d * s);
    }
}

/// One pixel of the gradient image: the gradient vector of (px, py),
/// converted to a color.
pub fn gradient_color(px: u32, py: u32, width: u32, height: u32) -> (c: (u8, u8, u8))
    requires
        2 <= width,
        2 <= height,
        px < width,
        py < height,
    ensures
        c.0 as int == byte_of(gradient_vec(px as int, py as int, width as int, height as int).0),
        c.1 as int == byte_of(gradient_vec(px as int, py as int, width as int, height as int).1),
        c.2 as int == byte_of(gradient_vec(px as int, py as int, width as int, height as int).2),
{
    proof {
        lemma_gradient_component(px as int, width as int);
        lemma_gradient_component(py as int, height as int);
    }
    let xf = Fixed::from_int(px as i64).divide(Fixed::from_int((width - 1) as i64));
    let yf = Fixed::from_int(py as i64).divide(Fixed::from_int((height - 1) as i64));
    let v = Vec3::new(xf, yf, Fixed::from_scaled(QUARTER));
    v.to_rgb()
}

/// Law: the gradient's corner pixels. Pixel (0, 0) carries the vector
/// (0, 0, 1/4) and pixel (w - 1, h - 1) the vector (1, 1, 1/4), so
/// their colors are the color conversions of those two vectors.
pub proof fn lemma_gradient_corners(w: int, h: int)
    requires
        2 <= w,
        2 <= h,
    ensures
        gradient_vec(0, 0, w, h) == (0int, 0int, QUARTER as int),
        gradient_vec(w - 1, h - 1, w, h) == (SCALE as int, SCALE as int, QUARTER as int),
{
    lemma_gradient_component(0, w);
    lemma_gradient_component(0, h);
    lemma_gradient_component(w - 1, w);
    lemma_gradient_component(h - 1, h);
}

} // verus!
