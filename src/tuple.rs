//! Points, vectors and colors over fixed-point scalars.
use crate::fixed;
use crate::fixed::{add_spec, div_spec, mul_spec, sat, sqrt_spec, sub_spec};
use vstd::prelude::*;

verus! {

/// A point or a vector in 3D space; which one is decided by how a transform is applied.
#[derive(Clone, Copy, Debug, PartialEq, Eq, Structural)]
pub struct Tuple {
    pub x: i64,
    pub y: i64,
    pub z: i64,
}

/// An RGB color; each channel is a fixed-point scalar, `SCALE` being full intensity.
#[derive(Clone, Copy, Debug, PartialEq, Eq, Structural)]
pub struct Color {
    pub r: i64,
    pub g: i64,
    pub b: i64,
}

pub open spec fn dot_spec(a: Tuple, b: Tuple) -> int {
    add_spec(add_spec(mul_spec(a.x as int, b.x as int), mul_spec(a.y as int, b.y as int)), mul_spec(a.z as int, b.z as int))
}

impl Tuple {
    pub open spec fn plus(self, o: Tuple) -> Tuple {
        Tuple { x: add_spec(self.x as int, o.x as int) as i64, y: add_spec(self.y as int, o.y as int) as i64, z: add_spec(self.z as int, o.z as int) as i64 }
    }

    pub open spec fn minus(self, o: Tuple) -> Tuple {
        Tuple { x: sub_spec(self.x as int, o.x as int) as i64, y: sub_spec(self.y as int, o.y as int) as i64, z: sub_spec(self.z as int, o.z as int) as i64 }
    }

    pub open spec fn negated(self) -> Tuple {
        Tuple { x: sat(-self.x) as i64, y: sat(-self.y) as i64, z: sat(-self.z) as i64 }
    }

    pub open spec fn times(self, k: int) -> Tuple {
        Tuple { x: mul_spec(self.x as int, k) as i64, y: mul_spec(self.y as int, k) as i64, z: mul_spec(self.z as int, k) as i64 }
    }

    pub open spec fn length(self) -> int {
        sqrt_spec(dot_spec(self, self))
    }

    /// The vector divided by its length; a zero-length vector is left as it is.
    pub open spec fn unit(self) -> Tuple {
        let m = self.length();
        if m == 0 {
            self
        } else {
            Tuple { x: div_spec(self.x as int, m) as i64, y: div_spec(self.y as int, m) as i64, z: div_spec(self.z as int, m) as i64 }
        }
    }

    pub open spec fn crossed(self, o: Tuple) -> Tuple {
        Tuple {
            x: sub_spec(mul_spec(self.y as int, o.z as int), mul_spec(self.z as int, o.y as int)) as i64,
            y: sub_spec(mul_spec(self.z as int, o.x as int), mul_spec(self.x as int, o.z as int)) as i64,
            z: sub_spec(mul_spec(self.x as int, o.y as int), mul_spec(self.y as int, o.x as int)) as i64,
        }
    }

    /// The vector mirrored about `n`: `self - n * 2 (self . n)`.
    pub open spec fn reflected(self, n: Tuple) -> Tuple {
        let d = dot_spec(self, n);
        self.minus(n.times(add_spec(d, d)))
    }

    /// The tuple with coordinates given in fixed point.
    pub fn new(x: i64, y: i64, z: i64) -> (r: Tuple)
        ensures
            r == (Tuple { x, y, z }),
    {
        Tuple { x, y, z }
    }

    pub fn add(&self, o: &Tuple) -> (r: Tuple)
        ensures
            r == self.plus(*o),
    {
        Tuple { x: fixed::add(self.x, o.x), y: fixed::add(self.y, o.y), z: fixed::add(self.z, o.z) }
    }

    pub fn sub(&self, o: &Tuple) -> (r: Tuple)
        ensures
            r == self.minus(*o),
    {
        Tuple { x: fixed::sub(self.x, o.x), y: fixed::sub(self.y, o.y), z: fixed::sub(self.z, o.z) }
    }

    pub fn neg(&self) -> (r: Tuple)
        ensures
            r == self.negated(),
    {
        Tuple { x: fixed::neg(self.x), y: fixed::neg(self.y), z: fixed::neg(self.z) }
    }

    pub fn scale(&self, k: i64) -> (r: Tuple)
        ensures
            r == self.times(k as int),
    {
        Tuple { x: fixed::mul(self.x, k), y: fixed::mul(self.y, k), z: fixed::mul(self.z, k) }
    }

    pub fn dot(&self, o: &Tuple) -> (r: i64)
        ensures
            r == dot_spec(*self, *o),
    {
        fixed::add(fixed::add(fixed::mul(self.x, o.x), fixed::mul(self.y, o.y)), fixed::mul(self.z, o.z))
    }

    pub fn magnitude(&self) -> (r: i64)
        ensures
            r == self.length(),
            r >= 0,
    {
        let d = self.dot(self);
        proof {
            lemma_square_nonneg(self.x as int);
            lemma_square_nonneg(self.y as int);
            lemma_square_nonneg(self.z as int);
        }
        fixed::sqrt(d)
    }

    pub fn normalize(&self) -> (r: Tuple)
        ensures
            r == self.unit(),
    {
        let m = self.magnitude();
        if m == 0 {
            *self
        } else {
            Tuple { x: fixed::div(self.x, m), y: fixed::div(self.y, m), z: fixed::div(self.z, m) }
        }
    }

    pub fn cross(&self, o: &Tuple) -> (r: Tuple)
        ensures
            r == self.crossed(*o),
    {
        Tuple {
            x: fixed::sub(fixed::mul(self.y, o.z), fixed::mul(self.z, o.y)),
            y: fixed::sub(fixed::mul(self.z, o.x), fixed::mul(self.x, o.z)),
            z: fixed::sub(fixed::mul(self.x, o.y), fixed::mul(self.y, o.x)),
        }
    }

    pub fn reflect(&self, n: &Tuple) -> (r: Tuple)
        ensures
            r == self.reflected(*n),
    {
        let d = self.dot(n);
        self.sub(&n.scale(fixed::add(d, d)))
    }
}

/// A fixed-point square is never negative.
pub proof fn lemma_square_nonneg(a: int)
    ensures
        mul_spec(a, a) >= 0,
{
    assert(a * a >= 0) by (nonlinear_arith);
    assert((a * a) / (fixed::SCALE as int) >= 0) by (nonlinear_arith)
        requires a * a >= 0;
}

impl Color {
    pub open spec fn plus(self, o: Color) -> Color {
        Color { r: add_spec(self.r as int, o.r as int) as i64, g: add_spec(self.g as int, o.g as int) as i64, b: add_spec(self.b as int, o.b as int) as i64 }
    }

    pub open spec fn times(self, k: int) -> Color {
        Color { r: mul_spec(self.r as int, k) as i64, g: mul_spec(self.g as int, k) as i64, b: mul_spec(self.b as int, k) as i64 }
    }

    /// The channel-by-channel product of two colors.
    pub open spec fn blend(self, o: Color) -> Color {
        Color { r: mul_spec(self.r as int, o.r as int) as i64, g: mul_spec(self.g as int, o.g as int) as i64, b: mul_spec(self.b as int, o.b as int) as i64 }
    }

    pub open spec fn black_spec() -> Color {
        Color { r: 0, g: 0, b: 0 }
    }

    pub fn new(r: i64, g: i64, b: i64) -> (c: Color)
        ensures
            c == (Color { r, g, b }),
    {
        Color { r, g, b }
    }

    pub fn black() -> (c: Color)
        ensures
            c == Color::black_spec(),
    {
        Color { r: 0, g: 0, b: 0 }
    }

    pub fn white() -> (c: Color)
        ensures
            c == (Color { r: fixed::SCALE, g: fixed::SCALE, b: fixed::SCALE }),
    {
        Color { r: fixed::SCALE, g: fixed::SCALE, b: fixed::SCALE }
    }

    pub fn add(&self, o: &Color) -> (c: Color)
        ensures
            c == self.plus(*o),
    {
        Color { r: fixed::add(self.r, o.r), g: fixed::add(self.g, o.g), b: fixed::add(self.b, o.b) }
    }

    pub fn scale(&self, k: i64) -> (c: Color)
        ensures
            c == self.times(k as int),
    {
        Color { r: fixed::mul(self.r, k), g: fixed::mul(self.g, k), b: fixed::mul(self.b, k) }
    }

    pub fn hadamard(&self, o: &Color) -> (c: Color)
        ensures
            c == self.blend(*o),
    {
        Color { r: fixed::mul(self.r, o.r), g: fixed::mul(self.g, o.g), b: fixed::mul(self.b, o.b) }
    }
}

} // verus!
