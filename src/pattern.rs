//! Patterns: a color for each point of pattern space.
use crate::fixed;
use crate::fixed::{add_spec, mul_spec, sqrt_spec, SCALE};
use crate::matrix::Transform;
use crate::tuple::{Color, Tuple};
use vstd::prelude::*;

verus! {

/// Alternates `color_a` and `color_b` in unit-wide bands along the x axis.
#[derive(Clone, Copy, Debug, PartialEq, Eq, Structural)]
pub struct StripePattern {
    pub color_a: Color,
    pub color_b: Color,
    pub transform: Transform,
}

/// Alternates `color_a` and `color_b` in unit-wide rings around the y axis.
#[derive(Clone, Copy, Debug, PartialEq, Eq, Structural)]
pub struct RingPattern {
    pub color_a: Color,
    pub color_b: Color,
    pub transform: Transform,
}

/// The pattern of a material.
#[derive(Clone, Copy, Debug, PartialEq, Eq, Structural)]
pub enum Pattern {
    /// One color everywhere.
    Flat(Color),
    Stripe(StripePattern),
    Ring(RingPattern),
}

/// Whether the whole part of `a` is even.
pub open spec fn even_floor(a: int) -> bool {
    (a / SCALE as int) % 2 == 0
}

impl StripePattern {
    /// White and black stripes, untransformed.
    pub fn new() -> (p: StripePattern)
        ensures
            p == (StripePattern { color_a: Color { r: SCALE, g: SCALE, b: SCALE }, color_b: Color::black_spec(), transform: Transform::identity_spec() }),
    {
        StripePattern { color_a: Color::white(), color_b: Color::black(), transform: Transform::identity() }
    }

    pub open spec fn color_spec(self, p: Tuple) -> Color {
        if even_floor(p.x as int) {
            self.color_a
        } else {
            self.color_b
        }
    }

    /// The color at a point of pattern space.
    pub fn color_at(&self, p: &Tuple) -> (c: Color)
        ensures
            c == self.color_spec(*p),
    {
        if fixed::floor_is_even(p.x) {
            self.color_a
        } else {
            self.color_b
        }
    }
}

impl RingPattern {
    /// White and black rings, untransformed.
    pub fn new() -> (p: RingPattern)
        ensures
            p == (RingPattern { color_a: Color { r: SCALE, g: SCALE, b: SCALE }, color_b: Color::black_spec(), transform: Transform::identity_spec() }),
    {
        RingPattern { color_a: Color::white(), color_b: Color::black(), transform: Transform::identity() }
    }

    /// The distance of a point from the y axis.
    pub open spec fn radius(p: Tuple) -> int {
        sqrt_spec(add_spec(mul_spec(p.x as int, p.x as int), mul_spec(p.z as int, p.z as int)))
    }

    pub open spec fn color_spec(self, p: Tuple) -> Color {
        if even_floor(Self::radius(p)) {
            self.color_a
        } else {
            self.color_b
        }
    }

    /// The color at a point of pattern space.
    pub fn current_color_at(&self, p: &Tuple) -> (c: Color)
        ensures
            c == self.color_spec(*p),
    {
        let xx = fixed::mul(p.x, p.x);
        let zz = fixed::mul(p.z, p.z);
        assert(p.x * p.x >= 0 && p.z * p.z >= 0) by (nonlinear_arith);
        assert(xx >= 0 && zz >= 0) by (nonlinear_arith)
            requires
                xx == mul_spec(p.x as int, p.x as int),
                zz == mul_spec(p.z as int, p.z as int),
                p.x * p.x >= 0,
                p.z * p.z >= 0;
        let r = fixed::sqrt(fixed::add(xx, zz));
        if fixed::floor_is_even(r) {
            self.color_a
        } else {
            self.color_b
        }
    }
}

impl Pattern {
    pub open spec fn transform_spec(self) -> Transform {
        match self {
            Pattern::Flat(_) => Transform::identity_spec(),
            Pattern::Stripe(s) => s.transform,
            Pattern::Ring(r) => r.transform,
        }
    }

    /// The color at a point of object space.
    pub open spec fn color_spec(self, object_point: Tuple) -> Color {
        let p = self.transform_spec().inverse.on_point(object_point);
        match self {
            Pattern::Flat(c) => c,
            Pattern::Stripe(s) => s.color_spec(p),
            Pattern::Ring(r) => r.color_spec(p),
        }
    }

    pub fn transform(&self) -> (t: Transform)
        ensures
            t == self.transform_spec(),
    {
        match self {
            Pattern::Flat(_) => Transform::identity(),
            Pattern::Stripe(s) => s.transform,
            Pattern::Ring(r) => r.transform,
        }
    }

    /// The color at a point of object space, through the pattern's own transform.
    pub fn color_at(&self, object_point: &Tuple) -> (c: Color)
        ensures
            c == self.color_spec(*object_point),
    {
        let p = self.transform().inverse.apply_point(object_point);
        match self {
            Pattern::Flat(c) => *c,
            Pattern::Stripe(s) => s.color_at(&p),
            Pattern::Ring(r) => r.current_color_at(&p),
        }
    }
}

} // verus!
