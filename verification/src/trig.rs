//! Trigonometric functions on the fixed-point scalar, by polynomial
//! approximation with range reduction.
//!
//! Each executable function returns exactly the value of its spec
//! function; the spec states the reduction and the polynomial in full,
//! so callers know the result is a deterministic function of the
//! argument alone.

use vstd::prelude::*;

use crate::fixed::{Fx, SCALE, clip, fadd, fsub, fneg, fmul, fdiv, fround, iabs};

verus! {

/// pi in raw units.
pub const PI_RAW: i64 = 13493037705;

/// pi / 2 in raw units.
pub const HALF_PI_RAW: i64 = 6746518852;

/// pi / 4 in raw units.
pub const QUARTER_PI_RAW: i64 = 3373259426;

/// tan(pi / 8) in raw units: the threshold for the half-angle step.
pub const TAN_PI_8_RAW: i64 = 1779033704;

pub open spec fn iclamp(x: int, lo: int, hi: int) -> int {
    if x < lo {
        lo
    } else if x > hi {
        hi
    } else {
        x
    }
}

/// Taylor polynomial for the sine of `r / SCALE`, sound on about
/// [-pi/2, pi/2] after reduction.
#[verifier::opaque]
pub open spec fn sin_poly(r: int) -> int {
    let s = fmul(r, r);
    let p6 = fsub(SCALE as int, fdiv(s, 156 * (SCALE as int)));
    let p5 = fsub(SCALE as int, fdiv(fmul(s, p6), 110 * (SCALE as int)));
    let p4 = fsub(SCALE as int, fdiv(fmul(s, p5), 72 * (SCALE as int)));
    let p3 = fsub(SCALE as int, fdiv(fmul(s, p4), 42 * (SCALE as int)));
    let p2 = fsub(SCALE as int, fdiv(fmul(s, p3), 20 * (SCALE as int)));
    let p1 = fsub(SCALE as int, fdiv(fmul(s, p2), 6 * (SCALE as int)));
    fmul(r, p1)
}

/// Sine of a raw fixed-point angle in radians: reduce by the nearest
/// multiple of pi, then apply the polynomial with the sign of the
/// half-turn count.
#[verifier::opaque]
pub open spec fn spec_sin(x: int) -> int {
    let k = iclamp(fround(fdiv(x, PI_RAW as int)), -2147483647, 2147483647);
    let r = fsub(x, fmul(k * (SCALE as int), PI_RAW as int));
    if iabs(k) % 2 == 0 {
        sin_poly(r)
    } else {
        fneg(sin_poly(r))
    }
}

#[verifier::opaque]
pub open spec fn spec_cos(x: int) -> int {
    spec_sin(fadd(x, HALF_PI_RAW as int))
}

#[verifier::opaque]
pub open spec fn spec_tan(x: int) -> int {
    fdiv(spec_sin(x), spec_cos(x))
}

/// Odd series for the arctangent of `z / SCALE`, sound on about
/// [-tan(pi/8), tan(pi/8)] after reduction.
#[verifier::opaque]
pub open spec fn atan_poly(z: int) -> int {
    let s = fmul(z, z);
    let z3 = fmul(z, s);
    let z5 = fmul(z3, s);
    let z7 = fmul(z5, s);
    let z9 = fmul(z7, s);
    let z11 = fmul(z9, s);
    let z13 = fmul(z11, s);
    fadd(
        fsub(
            fadd(
                fsub(
                    fadd(fsub(z, fdiv(z3, 3 * (SCALE as int))), fdiv(z5, 5 * (SCALE as int))),
                    fdiv(z7, 7 * (SCALE as int)),
                ),
                fdiv(z9, 9 * (SCALE as int)),
            ),
            fdiv(z11, 11 * (SCALE as int)),
        ),
        fdiv(z13, 13 * (SCALE as int)),
    )
}

/// Arctangent on [0, 1], with one half-angle step above tan(pi/8).
#[verifier::opaque]
pub open spec fn spec_atan_sub1(z: int) -> int {
    if z > TAN_PI_8_RAW {
        let w = iclamp(fdiv(fsub(z, SCALE as int), fadd(z, SCALE as int)), -(SCALE as int), SCALE as int);
        fadd(QUARTER_PI_RAW as int, atan_poly(w))
    } else {
        atan_poly(z)
    }
}

/// Arctangent for a non-negative argument, folding (1, inf) down by
/// the reciprocal.
#[verifier::opaque]
pub open spec fn spec_atan_pos(z: int) -> int {
    if z > SCALE {
        let w = iclamp(fdiv(SCALE as int, z), 0, SCALE as int);
        fsub(HALF_PI_RAW as int, spec_atan_sub1(w))
    } else {
        spec_atan_sub1(z)
    }
}

/// Two-argument arctangent of `y / x`, by quadrant, in (-pi, pi].
#[verifier::opaque]
pub open spec fn spec_atan2(y: int, x: int) -> int {
    if x == 0 && y == 0 {
        0
    } else if x == 0 {
        if y > 0 {
            HALF_PI_RAW as int
        } else {
            fneg(HALF_PI_RAW as int)
        }
    } else {
        let a = spec_atan_pos(fdiv(crate::fixed::fabs(y), crate::fixed::fabs(x)));
        if x > 0 {
            if y >= 0 {
                a
            } else {
                fneg(a)
            }
        } else {
            if y >= 0 {
                fsub(PI_RAW as int, a)
            } else {
                fsub(a, PI_RAW as int)
            }
        }
    }
}

/// Arc cosine of a raw value clamped into [-1, 1].
#[verifier::opaque]
pub open spec fn spec_acos(x: int) -> int {
    let xc = iclamp(x, -(SCALE as int), SCALE as int);
    spec_atan2(clip(spec_acos_s(xc)), xc)
}

/// The sine leg used by `spec_acos`: the integer square root of the
/// scaled `1 - x * x`.
pub open spec fn spec_acos_s(xc: int) -> int {
    crate::fixed::fsqrt(fsub(SCALE as int, fmul(xc, xc)))
}

pub fn pi() -> (r: Fx)
    ensures
        r.raw == PI_RAW,
{
    Fx { raw: PI_RAW }
}

pub fn half_pi() -> (r: Fx)
    ensures
        r.raw == HALF_PI_RAW,
{
    Fx { raw: HALF_PI_RAW }
}

fn sin_poly_exec(r: Fx) -> (p: Fx)
    ensures
        p.raw as int == sin_poly(r.v()),
{
        proof {
            reveal(sin_poly);
        }
    let s = r.times(r);
    let p6 = Fx::one().minus(s.over(Fx::from_int(156)));
    let p5 = Fx::one().minus(s.times(p6).over(Fx::from_int(110)));
    let p4 = Fx::one().minus(s.times(p5).over(Fx::from_int(72)));
    let p3 = Fx::one().minus(s.times(p4).over(Fx::from_int(42)));
    let p2 = Fx::one().minus(s.times(p3).over(Fx::from_int(20)));
    let p1 = Fx::one().minus(s.times(p2).over(Fx::from_int(6)));
    r.times(p1)
}

impl Fx {
    /// The sine of an angle in radians.
    pub fn sin(self) -> (r: Fx)
        ensures
            r.raw as int == spec_sin(self.v()),
    {
        proof {
            reveal(spec_sin);
        }
        let k_raw: i64 = self.over(pi()).round_int();
        let k: i64 = if k_raw < -2147483647 {
            -2147483647
        } else if k_raw > 2147483647 {
            2147483647
        } else {
            k_raw
        };
        let rest = self.minus(Fx::from_int(k).times(pi()));
        let p = sin_poly_exec(rest);
        let kabs: u64 = if k < 0 {
            (-k) as u64
        } else {
            k as u64
        };
        if kabs % 2 == 0 {
            p
        } else {
            p.neg()
        }
    }

    /// The cosine of an angle in radians.
    pub fn cos(self) -> (r: Fx)
        ensures
            r.raw as int == spec_cos(self.v()),
    {
        proof {
            reveal(spec_cos);
        }
        self.plus(half_pi()).sin()
    }

    /// The tangent of an angle in radians.
    pub fn tan(self) -> (r: Fx)
        ensures
            r.raw as int == spec_tan(self.v()),
    {
        proof {
            reveal(spec_tan);
        }
        self.sin().over(self.cos())
    }

    /// The angle of the point `(other, self)`, as `f64::atan2`: the
    /// first operand is the ordinate.
    pub fn atan2(self, other: Fx) -> (r: Fx)
        ensures
            r.raw as int == spec_atan2(self.v(), other.v()),
    {
        proof {
            reveal(spec_atan2);
        }
        if other.raw == 0 && self.raw == 0 {
            Fx::zero()
        } else if other.raw == 0 {
            if self.raw > 0 {
                half_pi()
            } else {
                half_pi().neg()
            }
        } else {
            let a = atan_pos_exec(self.abs().over(other.abs()));
            if other.raw > 0 {
                if self.raw >= 0 {
                    a
                } else {
                    a.neg()
                }
            } else {
                if self.raw >= 0 {
                    pi().minus(a)
                } else {
                    a.minus(pi())
                }
            }
        }
    }

    /// The arc cosine, with the argument clamped into [-1, 1].
    pub fn acos(self) -> (r: Fx)
        ensures
            r.raw as int == spec_acos(self.v()),
    {
        proof {
            reveal(spec_acos);
        }
        let xc: Fx = if self.raw < -SCALE {
            Fx { raw: -SCALE }
        } else if self.raw > SCALE {
            Fx { raw: SCALE }
        } else {
            self
        };
        let sq = Fx::one().minus(xc.times(xc));
        proof {
            lemma_unit_square_below_one(xc.v());
        }
        let s = sq.sqrt();
        s.atan2(xc)
    }
}

fn atan_poly_exec(z: Fx) -> (p: Fx)
    ensures
        p.raw as int == atan_poly(z.v()),
{
    proof {
        reveal(atan_poly);
    }
    let s = z.times(z);
    let z3 = z.times(s);
    let z5 = z3.times(s);
    let z7 = z5.times(s);
    let z9 = z7.times(s);
    let z11 = z9.times(s);
    let z13 = z11.times(s);
    z.minus(z3.over(Fx::from_int(3))).plus(z5.over(Fx::from_int(5))).minus(
        z7.over(Fx::from_int(7)),
    ).plus(z9.over(Fx::from_int(9))).minus(z11.over(Fx::from_int(11))).plus(
        z13.over(Fx::from_int(13)),
    )
}

fn atan_sub1_exec(z: Fx) -> (p: Fx)
    ensures
        p.raw as int == spec_atan_sub1(z.v()),
{
    proof {
        reveal(spec_atan_sub1);
    }
    if z.raw > TAN_PI_8_RAW {
        let w0 = z.minus(Fx::one()).over(z.plus(Fx::one()));
        let w: Fx = if w0.raw < -SCALE {
            Fx { raw: -SCALE }
        } else if w0.raw > SCALE {
            Fx { raw: SCALE }
        } else {
            w0
        };
        Fx { raw: QUARTER_PI_RAW }.plus(atan_poly_exec(w))
    } else {
        atan_poly_exec(z)
    }
}

fn atan_pos_exec(z: Fx) -> (p: Fx)
    ensures
        p.raw as int == spec_atan_pos(z.v()),
{
    proof {
        reveal(spec_atan_pos);
    }
    if z.raw > SCALE {
        let w0 = Fx::one().over(z);
        let w: Fx = if w0.raw < 0 {
            Fx { raw: 0 }
        } else if w0.raw > SCALE {
            Fx { raw: SCALE }
        } else {
            w0
        };
        half_pi().minus(atan_sub1_exec(w))
    } else {
        atan_sub1_exec(z)
    }
}

/// For `|x| <= 1` the scaled product `x * x` stays at or below 1, so
/// `1 - x * x` is a legal square-root operand.
proof fn lemma_unit_square_below_one(x: int)
    requires
        -(SCALE as int) <= x <= SCALE as int,
    ensures
        fmul(x, x) <= SCALE as int,
        fsub(SCALE as int, fmul(x, x)) >= 0,
{
    assert(0 <= x * x && x * x <= (SCALE as int) * (SCALE as int)) by (nonlinear_arith)
        requires
            -(SCALE as int) <= x <= SCALE as int,
    ;
    assert(x * x / (SCALE as int) <= SCALE as int) by (nonlinear_arith)
        requires
            0 <= x * x <= (SCALE as int) * (SCALE as int),
            SCALE == 4294967296,
    ;
}

} // verus!
