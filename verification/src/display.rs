//! Textual form of fixed-point values and vectors.
//!
//! A value renders as an optional minus sign, the whole part in
//! decimal, and, when the fractional part is nonzero, a point and up to
//! four fractional digits with trailing zeros dropped: "4", "4.5",
//! "-0.25". A vector renders as "(x, y, z)". The rendering is exact:
//! four decimal places always suffice, since a raw value counts
//! ten-thousandths.

use vstd::prelude::*;
use crate::fixed::{Fixed, SCALE, iabs};
use crate::vector::Vec3;

verus! {

/// The decimal digit character of `d`, for 0 <= d <= 9.
pub open spec fn digit_char(d: int) -> char {
    if d == 0 {
        '0'
    } else if d == 1 {
        '1'
    } else if d == 2 {
        '2'
    } else if d == 3 {
        '3'
    } else if d == 4 {
        '4'
    } else if d == 5 {
        '5'
    } else if d == 6 {
        '6'
    } else if d == 7 {
        '7'
    } else if d == 8 {
        '8'
    } else {
        '9'
    }
}

/// The decimal digits of a nonnegative number, most significant first.
pub open spec fn dec_digits(n: nat) -> Seq<char>
    decreases n,
{
    if n < 10 {
        seq![digit_char(n as int)]
    } else {
        dec_digits(n / 10).push(digit_char((n % 10) as int))
    }
}

/// The fractional digits of `f` ten-thousandths, for 0 < f < 10000:
/// four decimal places with trailing zeros dropped.
pub open spec fn frac_digits(f: int) -> Seq<char>
    recommends
        0 < f < 10000,
{
    let d1 = digit_char(f / 1000);
    let d2 = digit_char((f / 100) % 10);
    let d3 = digit_char((f / 10) % 10);
    let d4 = digit_char(f % 10);
    if f % 10 != 0 {
        seq![d1, d2, d3, d4]
    } else if f % 100 != 0 {
        seq![d1, d2, d3]
    } else if f % 1000 != 0 {
        seq![d1, d2]
    } else {
        seq![d1]
    }
}

/// The decimal rendering of a nonnegative raw value.
pub open spec fn mag_digits(m: int) -> Seq<char>
    recommends
        m >= 0,
{
    if m % (SCALE as int) == 0 {
        dec_digits((m / (SCALE as int)) as nat)
    } else {
        dec_digits((m / (SCALE as int)) as nat) + seq!['.'] + frac_digits(m % (SCALE as int))
    }
}

/// The decimal rendering of a raw value: a minus sign where negative,
/// then the rendering of its magnitude.
pub open spec fn fixed_digits(v: int) -> Seq<char> {
    if v < 0 {
        seq!['-'] + mag_digits(-v)
    } else {
        mag_digits(v)
    }
}

/// The textual form "(x, y, z)" of a vector.
pub open spec fn vec3_digits(v: (int, int, int)) -> Seq<char> {
    seq!['('] + fixed_digits(v.0) + seq![',', ' '] + fixed_digits(v.1) + seq![',', ' ']
        + fixed_digits(v.2) + seq![')']
}

/// Appends the single digit character of `d`.
fn push_digit(out: &mut String, d: u64)
    requires
        d < 10,
    ensures
        final(out)@ == old(out)@ + seq![digit_char(d as int)],
{
    proof {
        reveal_strlit("0");
        reveal_strlit("1");
        reveal_strlit("2");
        reveal_strlit("3");
        reveal_strlit("4");
        reveal_strlit("5");
        reveal_strlit("6");
        reveal_strlit("7");
        reveal_strlit("8");
        reveal_strlit("9");
    }
    let s: &str = if d == 0 {
        "0"
    } else if d == 1 {
        "1"
    } else if d == 2 {
        "2"
    } else if d == 3 {
        "3"
    } else if d == 4 {
        "4"
    } else if d == 5 {
        "5"
    } else if d == 6 {
        "6"
    } else if d == 7 {
        "7"
    } else if d == 8 {
        "8"
    } else {
        "9"
    };
    proof {
        assert(s@ =~= seq![digit_char(d as int)]);
    }
    out.append(s);
}

/// Appends the decimal digits of `n`, most significant first.
fn push_dec_digits(out: &mut String, n: u64)
    ensures
        final(out)@ == old(out)@ + dec_digits(n as nat),
    decreases n,
{
    if n < 10 {
        push_digit(out, n);
    } else {
        push_dec_digits(out, n / 10);
        push_digit(out, n % 10);
        proof {
            assert(final(out)@ =~= old(out)@ + dec_digits(n as nat));
        }
    }
}

/// Appends the fractional digits of `f` ten-thousandths, trailing
/// zeros dropped.
fn push_frac_digits(out: &mut String, f: u64)
    requires
        0 < f < 10000,
    ensures
        final(out)@ == old(out)@ + frac_digits(f as int),
{
    push_digit(out, f / 1000);
    if f % 1000 != 0 {
        push_digit(out, (f / 100) % 10);
        if f % 100 != 0 {
            push_digit(out, (f / 10) % 10);
            if f % 10 != 0 {
                push_digit(out, f % 10);
            }
        }
    }
    proof {
        assert(final(out)@ =~= old(out)@ + frac_digits(f as int));
    }
}

impl Fixed {
    /// The textual form of the value: sign, whole part, and, when the
    /// value is not whole, a point and the fractional digits.
    pub fn to_display_string(&self) -> (s: String)
        ensures
            s@ == fixed_digits(self@),
    {
        let mut out = String::new();
        let mag: u64 = if self.raw < 0 {
            proof {
                reveal_strlit("-");
            }
            out.append("-");
            (-(self.raw as i128)) as u64
        } else {
            self.raw as u64
        };
        proof {
            assert(mag == iabs(self@));
        }
        let whole: u64 = mag / (SCALE as u64);
        let frac: u64 = mag % (SCALE as u64);
        push_dec_digits(&mut out, whole);
        if frac != 0 {
            proof {
                reveal_strlit(".");
            }
            out.append(".");
            push_frac_digits(&mut out, frac);
        }
        proof {
            assert(out@ =~= fixed_digits(self@));
        }
        out
    }
}

impl Vec3 {
    /// The textual form "(x, y, z)" of the vector, each component as
    /// `Fixed::to_display_string` renders it.
    pub fn to_display_string(&self) -> (s: String)
        ensures
            s@ == vec3_digits(self@),
    {
        proof {
            reveal_strlit("(");
            reveal_strlit(", ");
            reveal_strlit(")");
        }
        let mut out = String::from_str("(");
        let sx = self.x.to_display_string();
        out.append(sx.as_str());
        out.append(", ");
        let sy = self.y.to_display_string();
        out.append(sy.as_str());
        out.append(", ");
        let sz = self.z.to_display_string();
        out.append(sz.as_str());
        out.append(")");
        proof {
            assert(out@ =~= vec3_digits(self@));
        }
        out
    }
}

} // verus!
