//! The three-dimensional vector type and its operations.
//!
//! Every operation is pure: it reads its operands and returns a fresh
//! vector or scalar. The contracts state the raw value of each result
//! component exactly, through the spec functions `v_add`, `v_sub`,
//! `v_neg`, `v_scale`, `v_scale_left`, `v_hadamard`, `v_div`, `v_dot`,
//! `v_cross` and `byte_of` over the integer model of `Fixed`.

use vstd::prelude::*;
use crate::fixed::{Fixed, SCALE, fx_mul, fx_div, fits, is_floor_sqrt, mul_raw, div_raw,
    isqrt_u128};
use vstd::arithmetic::mul::lemma_mul_is_commutative;
use vstd::arithmetic::mul::lemma_mul_upper_bound;
use vstd::arithmetic::div_mod::lemma_div_pos_is_pos;
use vstd::arithmetic::div_mod::lemma_div_is_ordered;

verus! {

/// A vector of three fixed-point components: a point, a direction, or
/// (by convention, before color conversion) an RGB triple.
#[derive(Clone, Copy, Debug, PartialEq, Eq, Structural)]
pub struct Vec3 {
    pub x: Fixed,
    pub y: Fixed,
    pub z: Fixed,
}

impl View for Vec3 {
    type V = (int, int, int);

    /// The mathematical model of a vector: its three raw components.
    open spec fn view(&self) -> (int, int, int) {
        (self.x@, self.y@, self.z@)
    }
}

/// Component-wise sum.
pub open spec fn v_add(a: (int, int, int), b: (int, int, int)) -> (int, int, int) {
    (a.0 + b.0, a.1 + b.1, a.2 + b.2)
}

/// Component-wise difference.
pub open spec fn v_sub(a: (int, int, int), b: (int, int, int)) -> (int, int, int) {
    (a.0 - b.0, a.1 - b.1, a.2 - b.2)
}

/// Component-wise sign inversion.
pub open spec fn v_neg(a: (int, int, int)) -> (int, int, int) {
    (-a.0, -a.1, -a.2)
}

/// Every component multiplied by the scalar, the vector on the left.
pub open spec fn v_scale(a: (int, int, int), k: int) -> (int, int, int) {
    (fx_mul(a.0, k), fx_mul(a.1, k), fx_mul(a.2, k))
}

/// Every component multiplied by the scalar, the scalar on the left.
pub open spec fn v_scale_left(k: int, a: (int, int, int)) -> (int, int, int) {
    (fx_mul(k, a.0), fx_mul(k, a.1), fx_mul(k, a.2))
}

/// Component-wise (Hadamard) product, not the dot product.
pub open spec fn v_hadamard(a: (int, int, int), b: (int, int, int)) -> (int, int, int) {
    (fx_mul(a.0, b.0), fx_mul(a.1, b.1), fx_mul(a.2, b.2))
}

/// Component-wise quotient by a scalar.
pub open spec fn v_div(a: (int, int, int), k: int) -> (int, int, int)
    recommends
        k != 0,
{
    (fx_div(a.0, k), fx_div(a.1, k), fx_div(a.2, k))
}

/// Dot product: the sum of the component-wise products.
pub open spec fn v_dot(a: (int, int, int), b: (int, int, int)) -> int {
    fx_mul(a.0, b.0) + fx_mul(a.1, b.1) + fx_mul(a.2, b.2)
}

/// Right-handed cross product.
pub open spec fn v_cross(a: (int, int, int), b: (int, int, int)) -> (int, int, int) {
    (
        fx_mul(a.1, b.2) - fx_mul(a.2, b.1),
        fx_mul(a.2, b.0) - fx_mul(a.0, b.2),
        fx_mul(a.0, b.1) - fx_mul(a.1, b.0),
    )
}

/// One channel of the color conversion: the value clamped into
/// [0, 255] first, then truncated toward zero to a whole channel value.
pub open spec fn byte_of(v: int) -> int {
    if v < 0 {
        0
    } else if v > 255 * SCALE {
        255
    } else {
        v / (SCALE as int)
    }
}

/// Whether all three components of a model vector are representable.
pub open spec fn fits3(v: (int, int, int)) -> bool {
    fits(v.0) && fits(v.1) && fits(v.2)
}

/// Whether the three products and the two running sums of the dot
/// computation are representable.
pub open spec fn dot_fits(a: (int, int, int), b: (int, int, int)) -> bool {
    &&& fits(fx_mul(a.0, b.0))
    &&& fits(fx_mul(a.1, b.1))
    &&& fits(fx_mul(a.2, b.2))
    &&& fits(fx_mul(a.0, b.0) + fx_mul(a.1, b.1))
    &&& fits(v_dot(a, b))
}

/// Whether the six products and the three differences of the cross
/// computation are representable.
pub open spec fn cross_fits(a: (int, int, int), b: (int, int, int)) -> bool {
    &&& fits(fx_mul(a.1, b.2))
    &&& fits(fx_mul(a.2, b.1))
    &&& fits(fx_mul(a.2, b.0))
    &&& fits(fx_mul(a.0, b.2))
    &&& fits(fx_mul(a.0, b.1))
    &&& fits(fx_mul(a.1, b.0))
    &&& fits3(v_cross(a, b))
}

impl Vec3 {
    /// Constructs a vector; the components are stored unchanged.
    pub fn new(x: Fixed, y: Fixed, z: Fixed) -> (v: Vec3)
        ensures
            v@ == (x@, y@, z@),
    {
        Vec3 { x, y, z }
    }

    /// Component-wise sum.
    pub fn add(self, other: Vec3) -> (r: Vec3)
        requires
            fits3(v_add(self@, other@)),
        ensures
            r@ == v_add(self@, other@),
    {
        Vec3 {
            x: Fixed { raw: self.x.raw + other.x.raw },
            y: Fixed { raw: self.y.raw + other.y.raw },
            z: Fixed { raw: self.z.raw + other.z.raw },
        }
    }

    /// Component-wise difference `self - other`.
    pub fn subtract(self, other: Vec3) -> (r: Vec3)
        requires
            fits3(v_sub(self@, other@)),
        ensures
            r@ == v_sub(self@, other@),
    {
        Vec3 {
            x: Fixed { raw: self.x.raw - other.x.raw },
            y: Fixed { raw: self.y.raw - other.y.raw },
            z: Fixed { raw: self.z.raw - other.z.raw },
        }
    }

    /// Component-wise sign inversion.
    pub fn negate(self) -> (r: Vec3)
        requires
            fits3(v_neg(self@)),
        ensures
            r@ == v_neg(self@),
    {
        Vec3 {
            x: Fixed { raw: -self.x.raw },
            y: Fixed { raw: -self.y.raw },
            z: Fixed { raw: -self.z.raw },
        }
    }

    /// Every component multiplied by the scalar.
    pub fn scale(self, k: Fixed) -> (r: Vec3)
        requires
            fits3(v_scale(self@, k@)),
        ensures
            r@ == v_scale(self@, k@),
    {
        Vec3 {
            x: Fixed { raw: mul_raw(self.x.raw, k.raw) },
            y: Fixed { raw: mul_raw(self.y.raw, k.raw) },
            z: Fixed { raw: mul_raw(self.z.raw, k.raw) },
        }
    }

    /// Component-wise (Hadamard) product, not the dot product.
    pub fn hadamard(self, other: Vec3) -> (r: Vec3)
        requires
            fits3(v_hadamard(self@, other@)),
        ensures
            r@ == v_hadamard(self@, other@),
    {
        Vec3 {
            x: Fixed { raw: mul_raw(self.x.raw, other.x.raw) },
            y: Fixed { raw: mul_raw(self.y.raw, other.y.raw) },
            z: Fixed { raw: mul_raw(self.z.raw, other.z.raw) },
        }
    }

    /// Every component divided by the scalar, truncated toward zero.
    pub fn divide(self, k: Fixed) -> (r: Vec3)
        requires
            k@ != 0,
            fits3(v_div(self@, k@)),
        ensures
            r@ == v_div(self@, k@),
    {
        Vec3 {
            x: Fixed { raw: div_raw(self.x.raw, k.raw) },
            y: Fixed { raw: div_raw(self.y.raw, k.raw) },
            z: Fixed { raw: div_raw(self.z.raw, k.raw) },
        }
    }

    /// Dot product: the sum of the component-wise products.
    pub fn dot(&self, other: Vec3) -> (r: Fixed)
        requires
            dot_fits(self@, other@),
        ensures
            r@ == v_dot(self@, other@),
    {
        let m1 = mul_raw(self.x.raw, other.x.raw);
        let m2 = mul_raw(self.y.raw, other.y.raw);
        let m3 = mul_raw(self.z.raw, other.z.raw);
        Fixed { raw: m1 + m2 + m3 }
    }

    /// Right-handed cross product.
    pub fn cross(&self, other: Vec3) -> (r: Vec3)
        requires
            cross_fits(self@, other@),
        ensures
            r@ == v_cross(self@, other@),
    {
        Vec3 {
            x: Fixed { raw: mul_raw(self.y.raw, other.z.raw) - mul_raw(self.z.raw, other.y.raw) },
            y: Fixed { raw: mul_raw(self.z.raw, other.x.raw) - mul_raw(self.x.raw, other.z.raw) },
            z: Fixed { raw: mul_raw(self.x.raw, other.y.raw) - mul_raw(self.y.raw, other.x.raw) },
        }
    }

    /// Sum of the squares of the components.
    pub fn length_squared(&self) -> (r: Fixed)
        requires
            dot_fits(self@, self@),
        ensures
            r@ == v_dot(self@, self@),
    {
        self.dot(*self)
    }

    /// Length of the vector: the square root of `length_squared`. The
    /// result is the greatest fixed-point value whose square does not
    /// exceed the squared length; `v_dot(self, self) * SCALE` is that
    /// square written in the units of a squared raw value.
    pub fn length(&self) -> (r: Fixed)
        requires
            dot_fits(self@, self@),
        ensures
            is_floor_sqrt(v_dot(self@, self@) * SCALE, r@),
    {
        proof {
            lemma_dot_self_nonneg(self@);
        }
        let q = self.length_squared();
        proof {
            lemma_mul_upper_bound(q.raw as int, i64::MAX as int, SCALE as int, SCALE as int);
        }
        let n: u128 = (q.raw as u128) * (SCALE as u128);
        let s = isqrt_u128(n);
        proof {
            lemma_sqrt_below(n as int, s as int, 0x8000_0000_0000_0000);
        }
        Fixed { raw: s as i64 }
    }

    /// Color conversion: each component independently clamped into
    /// [0, 255] and then truncated toward zero to a byte. Clamping
    /// comes first: values below 0 give 0 and values above 255 give
    /// 255.
    pub fn to_rgb(&self) -> (c: (u8, u8, u8))
        ensures
            c.0 as int == byte_of(self@.0),
            c.1 as int == byte_of(self@.1),
            c.2 as int == byte_of(self@.2),
    {
        (byte_raw(self.x.raw), byte_raw(self.y.raw), byte_raw(self.z.raw))
    }
}

/// Every component multiplied by the scalar, the scalar standing on the
/// left: the same value as `a.scale(k)`, whichever side the scalar is
/// written on.
pub fn scale(k: Fixed, a: Vec3) -> (r: Vec3)
    requires
        fits3(v_scale_left(k@, a@)),
    ensures
        r@ == v_scale_left(k@, a@),
        r@ == v_scale(a@, k@),
{
    proof {
        lemma_scale_commutes(a@, k@);
    }
    a.scale(k)
}

/// One channel of `to_rgb`.
fn byte_raw(v: i64) -> (b: u8)
    ensures
        b as int == byte_of(v as int),
{
    if v < 0 {
        0
    } else if v > 255 * SCALE {
        255
    } else {
        proof {
            lemma_div_is_ordered(v as int, 255 * (SCALE as int), SCALE as int);
        }
        ((v as u64) / (SCALE as u64)) as u8
    }
}

/// The square of a fixed-point value is never negative.
proof fn lemma_fx_square_nonneg(x: int)
    ensures
        fx_mul(x, x) >= 0,
{
    assert(x * x >= 0) by (nonlinear_arith);
    lemma_div_pos_is_pos(x * x, SCALE as int);
}

/// The dot product of a vector with itself is never negative.
proof fn lemma_dot_self_nonneg(a: (int, int, int))
    ensures
        v_dot(a, a) >= 0,
{
    lemma_fx_square_nonneg(a.0);
    lemma_fx_square_nonneg(a.1);
    lemma_fx_square_nonneg(a.2);
}

/// A number whose square stays under `b * b` is itself under `b`.
proof fn lemma_sqrt_below(n: int, s: int, b: int) by (nonlinear_arith)
    requires
        0 <= s,
        0 <= b,
        s * s <= n,
        n < b * b,
    ensures
        s < b,
{
}

/// Law: adding a vector to its negation gives the zero vector, exactly.
pub proof fn lemma_add_negate_is_zero(a: (int, int, int))
    ensures
        v_add(a, v_neg(a)) == (0int, 0int, 0int),
{
}

/// Law: vector addition is commutative.
pub proof fn lemma_add_commutes(a: (int, int, int), b: (int, int, int))
    ensures
        v_add(a, b) == v_add(b, a),
{
}

/// Law: subtraction is addition of the negation.
pub proof fn lemma_subtract_consistent(a: (int, int, int), b: (int, int, int))
    ensures
        v_sub(a, b) == v_add(a, v_neg(b)),
{
}

/// Law: scaling gives the same vector with the scalar on either side.
pub proof fn lemma_scale_commutes(a: (int, int, int), k: int)
    ensures
        v_scale_left(k, a) == v_scale(a, k),
{
    lemma_mul_is_commutative(k, a.0);
    lemma_mul_is_commutative(k, a.1);
    lemma_mul_is_commutative(k, a.2);
}

/// Law: the cross product is anti-commutative.
pub proof fn lemma_cross_antisymmetric(a: (int, int, int), b: (int, int, int))
    ensures
        v_cross(a, b) == v_neg(v_cross(b, a)),
{
}

/// Law relating `length` to `length_squared`: where `l` is the raw
/// length of `a` (so `is_floor_sqrt(v_dot(a, a) * SCALE, l)` is what
/// `length` ensures), the square of `l` undershoots the squared length
/// in squared raw units by at most `2 * l`. Dividing through by
/// `SCALE * SCALE`: the real value of `length(a)` squared differs from
/// the real value of `length_squared(a)` by at most
/// `(2 * l + 1) / (SCALE * SCALE)`, one part in 10^8 per raw length
/// unit.
pub proof fn lemma_length_squares_relation(a: (int, int, int), l: int)
    requires
        is_floor_sqrt(v_dot(a, a) * SCALE, l),
    ensures
        0 <= v_dot(a, a) * SCALE - l * l <= 2 * l,
{
    assert((l + 1) * (l + 1) == l * l + 2 * l + 1) by (nonlinear_arith);
}

} // verus!
