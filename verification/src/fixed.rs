//! Fixed-point real numbers: the scalar type of the vector library.
//!
//! A real number is held as a signed count of ten-thousandths, so the
//! representable values form a grid of step 1/10000 over roughly
//! [-9.2e14, 9.2e14]. Multiplication and division truncate toward zero
//! to the nearest grid point, which is also the rounding Rust's integer
//! `/` performs; every contract below states the computed raw value
//! exactly over the integers.

use vstd::prelude::*;
use vstd::arithmetic::mul::lemma_mul_upper_bound;

verus! {

/// Number of raw units in one: a `Fixed` stores a count of ten-thousandths.
pub const SCALE: i64 = 10000;

/// A real number held as `raw` ten-thousandths.
#[derive(Clone, Copy, Debug, PartialEq, Eq, Structural)]
pub struct Fixed {
    /// Signed count of ten-thousandths.
    pub raw: i64,
}

impl View for Fixed {
    type V = int;

    /// The mathematical model of a `Fixed` is its raw count as an integer.
    open spec fn view(&self) -> int {
        self.raw as int
    }
}

/// Absolute value of an integer.
pub open spec fn iabs(x: int) -> int {
    if x >= 0 {
        x
    } else {
        -x
    }
}

/// Division rounding toward zero: the rounding Rust's `/` performs on
/// signed integers (ghost `/` on `int` is Euclidean, which differs on
/// negative operands).
pub open spec fn tdiv(a: int, b: int) -> int
    recommends
        b != 0,
{
    if (a >= 0) == (b >= 0) {
        iabs(a) / iabs(b)
    } else {
        -(iabs(a) / iabs(b))
    }
}

/// Raw value of the product of two fixed-point values: the exact product
/// of the raw counts carries the scale twice, so one factor of `SCALE`
/// is divided back out, truncating toward zero.
pub open spec fn fx_mul(a: int, b: int) -> int {
    tdiv(a * b, SCALE as int)
}

/// Raw value of the quotient of two fixed-point values, truncated toward
/// zero.
pub open spec fn fx_div(a: int, b: int) -> int
    recommends
        b != 0,
{
    tdiv(a * SCALE, b)
}

/// Whether a raw value is representable in the i64 that holds it.
pub open spec fn fits(v: int) -> bool {
    i64::MIN <= v <= i64::MAX
}

/// Whether `r` is the floor of the square root of `n`.
pub open spec fn is_floor_sqrt(n: int, r: int) -> bool {
    0 <= r && r * r <= n < (r + 1) * (r + 1)
}

/// A product of integers is bounded by the product of bounds on their
/// magnitudes.
proof fn lemma_product_bound(a: int, b: int, m: int) by (nonlinear_arith)
    requires
        -m <= a <= m,
        -m <= b <= m,
        0 <= m,
    ensures
        -(m * m) <= a * b <= m * m,
{
}

/// Truncating product of two raw values, rescaled by `SCALE`.
pub(crate) fn mul_raw(a: i64, b: i64) -> (r: i64)
    requires
        fits(fx_mul(a as int, b as int)),
    ensures
        r as int == fx_mul(a as int, b as int),
{
    proof {
        lemma_product_bound(a as int, b as int, 0x8000_0000_0000_0000);
    }
    let p: i128 = (a as i128) * (b as i128);
    let neg: bool = p < 0;
    let m: u128 = if neg {
        (-p) as u128
    } else {
        p as u128
    };
    let q: u128 = m / (SCALE as u128);
    proof {
        assert(m == iabs(a as int * b as int));
        assert(fx_mul(a as int, b as int) == if neg {
            -(q as int)
        } else {
            q as int
        });
    }
    let r: i128 = if neg {
        -(q as i128)
    } else {
        q as i128
    };
    r as i64
}

/// Truncating quotient of two raw values, the dividend rescaled by
/// `SCALE`.
pub(crate) fn div_raw(a: i64, b: i64) -> (r: i64)
    requires
        b != 0,
        fits(fx_div(a as int, b as int)),
    ensures
        r as int == fx_div(a as int, b as int),
{
    proof {
        lemma_product_bound(a as int, SCALE as int, 0x8000_0000_0000_0000);
    }
    let p: i128 = (a as i128) * (SCALE as i128);
    let neg: bool = (p < 0) != (b < 0);
    let m: u128 = if p < 0 {
        (-p) as u128
    } else {
        p as u128
    };
    let d: u128 = if b < 0 {
        (-(b as i128)) as u128
    } else {
        (b as i128) as u128
    };
    let q: u128 = m / d;
    proof {
        assert(m == iabs(a as int * SCALE as int));
        assert(d == iabs(b as int));
        assert(fx_div(a as int, b as int) == if neg {
            -(q as int)
        } else {
            q as int
        });
    }
    let r: i128 = if neg {
        -(q as i128)
    } else {
        q as i128
    };
    r as i64
}

/// Floor square root: the greatest `r` with `r * r <= n`, found by
/// binary search.
pub(crate) fn isqrt_u128(n: u128) -> (r: u128)
    requires
        n < 0x4000_0000_0000_0000_0000_0000_0000_0000,
    ensures
        r * r <= n < (r + 1) * (r + 1),
{
    let mut lo: u128 = 0;
    let mut hi: u128 = 0x8000_0000_0000_0000;
    while lo + 1 < hi
        invariant
            lo < hi <= 0x8000_0000_0000_0000,
            lo * lo <= n,
            n < hi * hi,
        decreases hi - lo,
    {
        let mid: u128 = lo + (hi - lo) / 2;
        proof {
            lemma_mul_upper_bound(mid as int, 0x8000_0000_0000_0000, mid as int,
                0x8000_0000_0000_0000);
        }
        if mid * mid <= n {
            lo = mid;
        } else {
            hi = mid;
        }
    }
    lo
}

impl Fixed {
    /// The fixed-point value of a whole number.
    pub fn from_int(n: i64) -> (r: Fixed)
        requires
            fits(n * SCALE),
        ensures
            r@ == n * SCALE,
    {
        Fixed { raw: n * SCALE }
    }

    /// The fixed-point value with the given raw count of ten-thousandths.
    pub fn from_scaled(raw: i64) -> (r: Fixed)
        ensures
            r@ == raw,
    {
        Fixed { raw }
    }

    /// Quotient of two fixed-point values, truncated toward zero.
    pub fn divide(self, other: Fixed) -> (r: Fixed)
        requires
            other@ != 0,
            fits(fx_div(self@, other@)),
        ensures
            r@ == fx_div(self@, other@),
    {
        Fixed { raw: div_raw(self.raw, other.raw) }
    }
}

} // verus!
