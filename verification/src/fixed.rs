//! The scalar type of the tracer: a signed binary fixed-point number
//! with 32 fractional bits, stored in an `i64`.
//!
//! Every operation is total: results outside the representable range
//! saturate to the nearest bound, and division by zero yields zero.
//! Each executable operation is specified exactly, by the spec
//! functions below, so that the geometry built on top of this type has
//! a precise mathematical meaning.

use vstd::prelude::*;

verus! {

/// Raw units per 1.0: 2^32.
pub const SCALE: i64 = 4294967296;

/// A real number `raw / SCALE`, stored as its raw numerator.
#[derive(Clone, Copy, Debug, PartialEq, Eq, Structural)]
pub struct Fx {
    pub raw: i64,
}

/// Saturation of a mathematical integer into the `i64` range.
pub open spec fn clip(x: int) -> int {
    if x > i64::MAX {
        i64::MAX as int
    } else if x < i64::MIN {
        i64::MIN as int
    } else {
        x
    }
}

pub open spec fn iabs(x: int) -> int {
    if x < 0 {
        -x
    } else {
        x
    }
}

/// Floor division for a positive divisor.
pub open spec fn floor_div_pos(n: int, d: int) -> int {
    if n >= 0 {
        n / d
    } else {
        -(((-n) + d - 1) / d)
    }
}

/// Floor division for any nonzero divisor.
pub open spec fn floor_div(n: int, d: int) -> int {
    if d < 0 {
        floor_div_pos(-n, -d)
    } else {
        floor_div_pos(n, d)
    }
}

/// Saturating fixed-point addition, on raw values.
pub open spec fn fadd(a: int, b: int) -> int {
    clip(a + b)
}

/// Saturating fixed-point subtraction, on raw values.
pub open spec fn fsub(a: int, b: int) -> int {
    clip(a - b)
}

/// Saturating fixed-point negation, on raw values.
pub open spec fn fneg(a: int) -> int {
    clip(-a)
}

/// Fixed-point absolute value, on raw values.
pub open spec fn fabs(a: int) -> int {
    clip(iabs(a))
}

/// Saturating fixed-point multiplication (round toward minus
/// infinity), on raw values.
pub open spec fn fmul(a: int, b: int) -> int {
    clip(floor_div_pos(a * b, SCALE as int))
}

/// Saturating fixed-point division (round toward minus infinity), on
/// raw values; division by zero yields zero.
pub open spec fn fdiv(a: int, b: int) -> int {
    if b == 0 {
        0
    } else {
        clip(floor_div(a * (SCALE as int), b))
    }
}

/// `r` is the floor of the square root of `a / SCALE`, in raw units.
pub open spec fn fsqrt_ok(a: int, r: int) -> bool {
    &&& 0 <= r
    &&& r * r <= a * (SCALE as int)
    &&& a * (SCALE as int) < (r + 1) * (r + 1)
}

/// The raw value that `fsqrt_ok` pins down.
pub open spec fn fsqrt(a: int) -> int {
    choose|r: int| fsqrt_ok(a, r)
}

/// Fixed-point power with a natural exponent, on raw values.
pub open spec fn fpow(b: int, e: nat) -> int
    decreases e,
{
    if e == 0 {
        SCALE as int
    } else {
        fmul(fpow(b, (e - 1) as nat), b)
    }
}

/// Raw value of the largest whole number not above `a`.
pub open spec fn ffloor(a: int) -> int {
    floor_div_pos(a, SCALE as int) * (SCALE as int)
}

/// The whole part of `a`, rounded toward zero.
pub open spec fn ftrunc(a: int) -> int {
    if a >= 0 {
        a / (SCALE as int)
    } else {
        -((-a) / (SCALE as int))
    }
}

/// The nearest whole number to `a`, halves away from zero.
pub open spec fn fround(a: int) -> int {
    if a >= 0 {
        (a + (SCALE as int) / 2) / (SCALE as int)
    } else {
        -(((-a) + (SCALE as int) / 2) / (SCALE as int))
    }
}

proof fn lemma_i64_product_in_i128(a: int, b: int)
    requires
        i64::MIN <= a <= i64::MAX,
        i64::MIN <= b <= i64::MAX,
    ensures
        i128::MIN < a * b,
        a * b < i128::MAX,
{
    assert(i128::MIN < a * b && a * b < i128::MAX) by (nonlinear_arith)
        requires
            -9223372036854775808 <= a <= 9223372036854775807,
            -9223372036854775808 <= b <= 9223372036854775807,
    ;
}

/// Saturate a wide intermediate back into the `i64` range.
fn clip_i128(x: i128) -> (r: i64)
    ensures
        r as int == clip(x as int),
{
    if x > i64::MAX as i128 {
        i64::MAX
    } else if x < i64::MIN as i128 {
        i64::MIN
    } else {
        x as i64
    }
}

/// Floor division of a wide intermediate by a positive divisor.
fn div_floor_i128(n: i128, d: i128) -> (q: i128)
    requires
        0 < d,
        i128::MIN < n,
    ensures
        q == floor_div_pos(n as int, d as int),
{
    if n >= 0 {
        let nn: u128 = n as u128;
        let dd: u128 = d as u128;
        let q0: u128 = nn / dd;
        q0 as i128
    } else {
        let nn: u128 = (-n) as u128;
        let dd: u128 = d as u128;
        let q0: u128 = (nn + (dd - 1)) / dd;
        assert(q0 <= nn) by (nonlinear_arith)
            requires
                q0 as int == (nn as int + (dd as int - 1)) / (dd as int),
                1 <= dd as int,
                1 <= nn as int,
        ;
        -(q0 as i128)
    }
}

impl Fx {
    /// The raw value, as a mathematical integer, for specifications.
    pub open spec fn v(self) -> int {
        self.raw as int
    }

    pub fn from_raw(raw: i64) -> (r: Fx)
        ensures
            r.raw == raw,
    {
        Fx { raw }
    }

    pub fn zero() -> (r: Fx)
        ensures
            r.raw == 0,
    {
        Fx { raw: 0 }
    }

    pub fn one() -> (r: Fx)
        ensures
            r.raw == SCALE,
    {
        Fx { raw: SCALE }
    }

    /// The fixed-point image of a whole number.
    pub fn from_int(i: i64) -> (r: Fx)
        requires
            -2147483648 <= i <= 2147483647,
        ensures
            r.raw == i * (SCALE as int),
    {
        Fx { raw: i * SCALE }
    }

    /// The fixed-point image of `n / d`, rounded toward minus infinity.
    pub fn from_ratio(n: i64, d: i64) -> (r: Fx)
        requires
            d != 0,
        ensures
            r.raw as int == clip(floor_div(n * (SCALE as int), d as int)),
    {
        proof {
            lemma_i64_product_in_i128(n as int, SCALE as int);
        }
        let wide: i128 = (n as i128) * (SCALE as i128);
        let (nn, dd): (i128, i128) = if d < 0 {
            (-wide, -(d as i128))
        } else {
            (wide, d as i128)
        };
        Fx { raw: clip_i128(div_floor_i128(nn, dd)) }
    }

    pub fn plus(self, o: Fx) -> (r: Fx)
        ensures
            r.raw as int == fadd(self.v(), o.v()),
    {
        Fx { raw: clip_i128(self.raw as i128 + o.raw as i128) }
    }

    pub fn minus(self, o: Fx) -> (r: Fx)
        ensures
            r.raw as int == fsub(self.v(), o.v()),
    {
        Fx { raw: clip_i128(self.raw as i128 - o.raw as i128) }
    }

    pub fn neg(self) -> (r: Fx)
        ensures
            r.raw as int == fneg(self.v()),
    {
        Fx { raw: clip_i128(-(self.raw as i128)) }
    }

    pub fn abs(self) -> (r: Fx)
        ensures
            r.raw as int == fabs(self.v()),
    {
        if self.raw < 0 {
            self.neg()
        } else {
            self
        }
    }

    pub fn times(self, o: Fx) -> (r: Fx)
        ensures
            r.raw as int == fmul(self.v(), o.v()),
    {
        proof {
            lemma_i64_product_in_i128(self.v(), o.v());
        }
        let p: i128 = (self.raw as i128) * (o.raw as i128);
        Fx { raw: clip_i128(div_floor_i128(p, SCALE as i128)) }
    }

    pub fn over(self, o: Fx) -> (r: Fx)
        ensures
            r.raw as int == fdiv(self.v(), o.v()),
    {
        if o.raw == 0 {
            Fx { raw: 0 }
        } else {
            proof {
                lemma_i64_product_in_i128(self.v(), SCALE as int);
            }
            let wide: i128 = (self.raw as i128) * (SCALE as i128);
            let (nn, dd): (i128, i128) = if o.raw < 0 {
                (-wide, -(o.raw as i128))
            } else {
                (wide, o.raw as i128)
            };
            Fx { raw: clip_i128(div_floor_i128(nn, dd)) }
        }
    }

    pub fn lt(self, o: Fx) -> (r: bool)
        ensures
            r == (self.raw < o.raw),
    {
        self.raw < o.raw
    }

    pub fn le(self, o: Fx) -> (r: bool)
        ensures
            r == (self.raw <= o.raw),
    {
        self.raw <= o.raw
    }

    pub fn gt(self, o: Fx) -> (r: bool)
        ensures
            r == (self.raw > o.raw),
    {
        self.raw > o.raw
    }

    pub fn ge(self, o: Fx) -> (r: bool)
        ensures
            r == (self.raw >= o.raw),
    {
        self.raw >= o.raw
    }

    pub fn fmin(self, o: Fx) -> (r: Fx)
        ensures
            r.raw == if self.raw <= o.raw {
                self.raw
            } else {
                o.raw
            },
    {
        if self.raw <= o.raw {
            self
        } else {
            o
        }
    }

    pub fn fmax(self, o: Fx) -> (r: Fx)
        ensures
            r.raw == if self.raw >= o.raw {
                self.raw
            } else {
                o.raw
            },
    {
        if self.raw >= o.raw {
            self
        } else {
            o
        }
    }

    /// The largest whole number not above `self`.
    pub fn floor(self) -> (r: Fx)
        ensures
            r.raw as int == ffloor(self.v()),
    {
        let q: i128 = div_floor_i128(self.raw as i128, SCALE as i128);
        Fx { raw: (q as i64) * SCALE }
    }

    /// The whole part of `self`, rounded toward zero.
    pub fn trunc_int(self) -> (r: i64)
        ensures
            r as int == ftrunc(self.v()),
    {
        if self.raw >= 0 {
            self.raw / SCALE
        } else {
            let m: i128 = -(self.raw as i128);
            -((m / (SCALE as i128)) as i64)
        }
    }

    /// The nearest whole number, halves away from zero.
    pub fn round_int(self) -> (r: i64)
        ensures
            r as int == fround(self.v()),
    {
        if self.raw >= 0 {
            let m: i128 = self.raw as i128 + (SCALE / 2) as i128;
            (m / (SCALE as i128)) as i64
        } else {
            let m: i128 = -(self.raw as i128) + (SCALE / 2) as i128;
            -((m / (SCALE as i128)) as i64)
        }
    }

    /// The square root, rounded toward minus infinity; the raw result
    /// is the integer square root of `raw * SCALE`.
    pub fn sqrt(self) -> (r: Fx)
        requires
            self.raw >= 0,
        ensures
            fsqrt_ok(self.v(), r.raw as int),
            r.raw as int == fsqrt(self.v()),
    {
        proof {
            assert((self.raw as u128) * (SCALE as u128) < u128::MAX) by (nonlinear_arith)
                requires
                    0 <= self.raw as u128 <= 9223372036854775807,
                    SCALE == 4294967296,
            ;
        }
        let x: u128 = (self.raw as u128) * (SCALE as u128);
        let mut lo: u128 = 0;
        let mut hi: u128 = 281474976710656;
        proof {
            assert(x < 281474976710656 * 281474976710656) by (nonlinear_arith)
                requires
                    x == (self.raw as u128) * (SCALE as u128),
                    0 <= self.raw as u128 <= 9223372036854775807,
                    SCALE == 4294967296,
            ;
        }
        while hi - lo > 1
            invariant
                lo < hi,
                hi <= 281474976710656,
                lo * lo <= x,
                x < hi * hi,
            decreases hi - lo,
        {
            let mid: u128 = lo + (hi - lo) / 2;
            proof {
                assert(mid * mid < u128::MAX) by (nonlinear_arith)
                    requires
                        mid <= 281474976710656,
                ;
            }
            if mid * mid <= x {
                lo = mid;
            } else {
                hi = mid;
            }
        }
        let r = Fx { raw: lo as i64 };
        proof {
            assert(x < (lo + 1) * (lo + 1)) by (nonlinear_arith)
                requires
                    x < hi * hi,
                    lo < hi,
                    hi <= lo + 1,
            ;
            assert(fsqrt_ok(self.v(), r.raw as int));
            lemma_fsqrt_unique(self.v(), r.raw as int, fsqrt(self.v()));
        }
        r
    }

    /// `self` raised to a whole exponent, by repeated saturating
    /// multiplication.
    pub fn powi(self, e: u32) -> (r: Fx)
        ensures
            r.raw as int == fpow(self.v(), e as nat),
    {
        let mut acc = Fx { raw: SCALE };
        let mut i: u32 = 0;
        while i < e
            invariant
                i <= e,
                acc.raw as int == fpow(self.v(), i as nat),
            decreases e - i,
        {
            acc = acc.times(self);
            i = i + 1;
        }
        acc
    }
}

/// A power with the exponent given as a fixed-point value: its whole
/// part, never below zero, drives the repeated multiplication.
pub open spec fn fpow_of(b: int, e: int) -> int {
    let w = ftrunc(e);
    let ww = if w < 0 {
        0
    } else if w > 4294967295 {
        4294967295
    } else {
        w
    };
    fpow(b, ww as nat)
}

impl Fx {
    /// `self` raised to the whole part of a fixed-point exponent.
    pub fn powf_whole(self, e: Fx) -> (r: Fx)
        ensures
            r.raw as int == fpow_of(self.v(), e.v()),
    {
        let w: i64 = e.trunc_int();
        let ww: u32 = if w < 0 {
            0
        } else if w > 4294967295 {
            4294967295
        } else {
            w as u32
        };
        self.powi(ww)
    }
}

/// Whether a whole number has an even magnitude.
pub fn even_abs(t: i64) -> (r: bool)
    ensures
        r == (iabs(t as int) % 2 == 0),
{
    let m: u64 = if t < 0 {
        (-(t as i128)) as u64
    } else {
        t as u64
    };
    m % 2 == 0
}

/// Multiplying by the fixed-point one is the identity on raw values.
pub proof fn lemma_fmul_one(x: int)
    requires
        i64::MIN <= x <= i64::MAX,
    ensures
        fmul(SCALE as int, x) == x,
        fmul(x, SCALE as int) == x,
{
    assert((SCALE as int) * x == x * (SCALE as int)) by (nonlinear_arith);
    if x >= 0 {
        assert(((SCALE as int) * x) / (SCALE as int) == x) by (nonlinear_arith)
            requires
                x >= 0,
                SCALE == 4294967296,
        ;
    } else {
        assert((-((SCALE as int) * x) + (SCALE as int) - 1) / (SCALE as int) == -x)
            by (nonlinear_arith)
            requires
                x < 0,
                SCALE == 4294967296,
        ;
    }
}

/// A square is never negative, even after scaling.
pub proof fn lemma_fsquare_nonneg(a: int)
    ensures
        fmul(a, a) >= 0,
{
    assert(a * a >= 0) by (nonlinear_arith);
    assert(a * a / (SCALE as int) >= 0) by (nonlinear_arith)
        requires
            a * a >= 0,
            SCALE == 4294967296,
    ;
}

/// Two raw values with `fsqrt_ok` for the same operand are equal.
proof fn lemma_fsqrt_unique(a: int, r1: int, r2: int)
    requires
        fsqrt_ok(a, r1),
        r2 == fsqrt(a),
    ensures
        r1 == r2,
{
    assert(fsqrt_ok(a, r2)) by {
        assert(exists|r: int| fsqrt_ok(a, r));
    }
    assert(r1 == r2) by (nonlinear_arith)
        requires
            0 <= r1,
            0 <= r2,
            r1 * r1 <= a * (SCALE as int),
            a * (SCALE as int) < (r1 + 1) * (r1 + 1),
            r2 * r2 <= a * (SCALE as int),
            a * (SCALE as int) < (r2 + 1) * (r2 + 1),
    ;
}

} // verus!
