//! Rays, and the points where they meet shapes.
use crate::fixed;
use crate::matrix::Transform;
use crate::tuple::Tuple;
use vstd::prelude::*;

verus! {

/// A half-line from `origin` along `direction`; the direction need not be of unit length.
#[derive(Clone, Copy, Debug, PartialEq, Eq, Structural)]
pub struct Ray {
    pub origin: Tuple,
    pub direction: Tuple,
}

/// A ray parameter `t` at which the ray meets the shape with index `object`.
#[derive(Clone, Copy, Debug, PartialEq, Eq, Structural)]
pub struct Intersection {
    pub t: i64,
    pub object: usize,
}

impl Ray {
    pub open spec fn at(self, t: int) -> Tuple {
        self.origin.plus(self.direction.times(t))
    }

    /// The same ray expressed in the space that `t` maps into its parent's space.
    pub open spec fn into_local(self, t: Transform) -> Ray {
        Ray { origin: t.inverse.on_point(self.origin), direction: t.inverse.on_vector(self.direction) }
    }

    /// A ray from fixed-point coordinates.
    pub fn new(origin: (i64, i64, i64), direction: (i64, i64, i64)) -> (r: Ray)
        ensures
            r.origin == (Tuple { x: origin.0, y: origin.1, z: origin.2 }),
            r.direction == (Tuple { x: direction.0, y: direction.1, z: direction.2 }),
    {
        Ray {
            origin: Tuple::new(origin.0, origin.1, origin.2),
            direction: Tuple::new(direction.0, direction.1, direction.2),
        }
    }

    /// The point `origin + direction * t`.
    pub fn position(&self, t: i64) -> (p: Tuple)
        ensures
            p == self.at(t as int),
    {
        self.origin.add(&self.direction.scale(t))
    }

    /// The ray with its origin moved by `(x, y, z)`.
    pub fn translate(&self, x: i64, y: i64, z: i64) -> (r: Ray)
        ensures
            r == (Ray { origin: self.origin.plus(Tuple { x, y, z }), direction: self.direction }),
    {
        Ray { origin: self.origin.add(&Tuple::new(x, y, z)), direction: self.direction }
    }

    /// The ray with origin and direction scaled by `(x, y, z)` axis by axis.
    pub fn scale(&self, x: i64, y: i64, z: i64) -> (r: Ray)
        ensures
            r.origin == (Tuple {
                x: fixed::mul_spec(self.origin.x as int, x as int) as i64,
                y: fixed::mul_spec(self.origin.y as int, y as int) as i64,
                z: fixed::mul_spec(self.origin.z as int, z as int) as i64,
            }),
            r.direction == (Tuple {
                x: fixed::mul_spec(self.direction.x as int, x as int) as i64,
                y: fixed::mul_spec(self.direction.y as int, y as int) as i64,
                z: fixed::mul_spec(self.direction.z as int, z as int) as i64,
            }),
    {
        let o = self.origin;
        let d = self.direction;
        Ray {
            origin: Tuple::new(fixed::mul(o.x, x), fixed::mul(o.y, y), fixed::mul(o.z, z)),
            direction: Tuple::new(fixed::mul(d.x, x), fixed::mul(d.y, y), fixed::mul(d.z, z)),
        }
    }

    /// The ray carried through the inverse of `transform`.
    pub fn inverse_transform(&self, transform: &Transform) -> (r: Ray)
        ensures
            r == self.into_local(*transform),
    {
        Ray { origin: transform.inverse.apply_point(&self.origin), direction: transform.inverse.apply_vector(&self.direction) }
    }
}

/// A ray is at its origin at parameter 0, and one direction further at parameter 1.
pub proof fn lemma_position_endpoints(ray: Ray)
    ensures
        ray.at(0) == ray.origin,
        ray.at(fixed::SCALE as int) == ray.origin.plus(ray.direction),
{
    let d = ray.direction;
    assert(d.x as int * 1_000_000 / 1_000_000 == d.x as int) by (nonlinear_arith);
    assert(d.y as int * 1_000_000 / 1_000_000 == d.y as int) by (nonlinear_arith);
    assert(d.z as int * 1_000_000 / 1_000_000 == d.z as int) by (nonlinear_arith);
    assert(d.times(fixed::SCALE as int) == d);
    assert(ray.at(0) =~= ray.origin);
}

} // verus!
