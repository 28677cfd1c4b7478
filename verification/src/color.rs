//! Colors as red/green/blue channels, each clamped into [0, 1] by
//! every operation.

use vstd::prelude::*;

use crate::fixed::{Fx, SCALE, fadd, fsub, fmul, ftrunc};
use crate::utils::{feq, equal};

verus! {

/// Clamp a raw channel value into [0, 1].
pub open spec fn fclamp01(x: int) -> int {
    if x < 0 {
        0
    } else if x > SCALE {
        SCALE as int
    } else {
        x
    }
}

/// A channel scaled to an 8-bit value, as the whole part of
/// `255 * x`, clamped into [0, 255].
pub open spec fn byte_of(x: int) -> int {
    let t = ftrunc(fmul(x, 255 * (SCALE as int)));
    if t < 0 {
        0
    } else if t > 255 {
        255
    } else {
        t
    }
}

#[derive(Clone, Copy, Debug)]
pub struct Color {
    pub r: Fx,
    pub g: Fx,
    pub b: Fx,
}

impl Color {
    /// The channels, as mathematical integers, for specifications.
    pub open spec fn m(self) -> (int, int, int) {
        (self.r.raw as int, self.g.raw as int, self.b.raw as int)
    }

    pub fn new(r: Fx, g: Fx, b: Fx) -> (c: Color)
        ensures
            c.r.raw as int == fclamp01(r.v()),
            c.g.raw as int == fclamp01(g.v()),
            c.b.raw as int == fclamp01(b.v()),
    {
        Color { r: clamp01(r), g: clamp01(g), b: clamp01(b) }
    }

    pub fn as_rgb(&self) -> (out: [u8; 3])
        ensures
            out[0] as int == byte_of(self.r.v()),
            out[1] as int == byte_of(self.g.v()),
            out[2] as int == byte_of(self.b.v()),
    {
        [byte(self.r), byte(self.g), byte(self.b)]
    }

    pub fn from_vec(rgb: &Vec<Fx>) -> (c: Color)
        requires
            rgb@.len() >= 3,
        ensures
            c.r.raw as int == fclamp01(rgb@[0].v()),
            c.g.raw as int == fclamp01(rgb@[1].v()),
            c.b.raw as int == fclamp01(rgb@[2].v()),
    {
        Color::new(rgb[0], rgb[1], rgb[2])
    }

    pub fn black() -> (c: Color)
        ensures
            c.m() == (0int, 0int, 0int),
    {
        Color::new(Fx::zero(), Fx::zero(), Fx::zero())
    }

    pub fn white() -> (c: Color)
        ensures
            c.m() == (SCALE as int, SCALE as int, SCALE as int),
    {
        Color::new(Fx::one(), Fx::one(), Fx::one())
    }

    /// Channel-wise clamped addition.
    pub fn add(&self, other: &Color) -> (c: Color)
        ensures
            c.m() == cadd(self.m(), other.m()),
    {
        Color {
            r: clamp01(self.r.plus(other.r)),
            g: clamp01(self.g.plus(other.g)),
            b: clamp01(self.b.plus(other.b)),
        }
    }

    /// Channel-wise clamped subtraction.
    pub fn subtract(&self, other: &Color) -> (c: Color)
        ensures
            c.m() == csub(self.m(), other.m()),
    {
        Color {
            r: clamp01(self.r.minus(other.r)),
            g: clamp01(self.g.minus(other.g)),
            b: clamp01(self.b.minus(other.b)),
        }
    }

    /// Clamped scaling by one scalar.
    pub fn multiply(&self, n: Fx) -> (c: Color)
        ensures
            c.m() == cscale(self.m(), n.v()),
    {
        Color {
            r: clamp01(self.r.times(n)),
            g: clamp01(self.g.times(n)),
            b: clamp01(self.b.times(n)),
        }
    }

    /// Channel-wise clamped product.
    pub fn multiply_color(&self, other: &Color) -> (c: Color)
        ensures
            c.m() == cmul(self.m(), other.m()),
    {
        Color {
            r: clamp01(self.r.times(other.r)),
            g: clamp01(self.g.times(other.g)),
            b: clamp01(self.b.times(other.b)),
        }
    }
}

pub open spec fn cadd(a: (int, int, int), b: (int, int, int)) -> (int, int, int) {
    (fclamp01(fadd(a.0, b.0)), fclamp01(fadd(a.1, b.1)), fclamp01(fadd(a.2, b.2)))
}

pub open spec fn csub(a: (int, int, int), b: (int, int, int)) -> (int, int, int) {
    (fclamp01(fsub(a.0, b.0)), fclamp01(fsub(a.1, b.1)), fclamp01(fsub(a.2, b.2)))
}

pub open spec fn cscale(a: (int, int, int), n: int) -> (int, int, int) {
    (fclamp01(fmul(a.0, n)), fclamp01(fmul(a.1, n)), fclamp01(fmul(a.2, n)))
}

pub open spec fn cmul(a: (int, int, int), b: (int, int, int)) -> (int, int, int) {
    (fclamp01(fmul(a.0, b.0)), fclamp01(fmul(a.1, b.1)), fclamp01(fmul(a.2, b.2)))
}

/// Colors are equal when every channel agrees up to the shared
/// tolerance.
pub open spec fn ceq(a: (int, int, int), b: (int, int, int)) -> bool {
    feq(a.0, b.0) && feq(a.1, b.1) && feq(a.2, b.2)
}

fn clamp01(x: Fx) -> (r: Fx)
    ensures
        r.raw as int == fclamp01(x.v()),
{
    if x.raw < 0 {
        Fx::zero()
    } else if x.raw > SCALE {
        Fx::one()
    } else {
        x
    }
}

fn byte(x: Fx) -> (r: u8)
    ensures
        r as int == byte_of(x.v()),
{
    let t: i64 = x.times(Fx::from_int(255)).trunc_int();
    if t < 0 {
        0
    } else if t > 255 {
        255
    } else {
        t as u8
    }
}

impl PartialEq for Color {
    fn eq(&self, other: &Color) -> (r: bool) {
        equal(self.r, other.r) && equal(self.g, other.g) && equal(self.b, other.b)
    }
}

impl vstd::std_specs::cmp::PartialEqSpecImpl for Color {
    open spec fn obeys_eq_spec() -> bool {
        true
    }

    open spec fn eq_spec(&self, other: &Color) -> bool {
        ceq(self.m(), other.m())
    }
}

} // verus!
