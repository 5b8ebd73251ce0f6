//! Affine transforms: a 3x4 matrix whose implicit last row is `0 0 0 1`,
//! kept together with the matrix that undoes it.
use crate::fixed;
use crate::fixed::{add_spec, div_spec, sat, SCALE};
use crate::tuple::{dot_spec, Tuple};
use vstd::prelude::*;

verus! {

/// One row of an affine matrix: `a x + b y + c z + d`.
#[derive(Clone, Copy, Debug, PartialEq, Eq, Structural)]
pub struct Row {
    pub a: i64,
    pub b: i64,
    pub c: i64,
    pub d: i64,
}

/// The rows that give the x, y and z coordinates of the image.
#[derive(Clone, Copy, Debug, PartialEq, Eq, Structural)]
pub struct Matrix {
    pub x: Row,
    pub y: Row,
    pub z: Row,
}

/// An object-to-parent transform and its inverse, built together so that
/// every transform in a scene can be undone.
#[derive(Clone, Copy, Debug, PartialEq, Eq, Structural)]
pub struct Transform {
    pub matrix: Matrix,
    pub inverse: Matrix,
}

impl Row {
    pub open spec fn linear(self) -> Tuple {
        Tuple { x: self.a, y: self.b, z: self.c }
    }

    pub open spec fn on_vector(self, v: Tuple) -> int {
        dot_spec(self.linear(), v)
    }

    pub open spec fn on_point(self, p: Tuple) -> int {
        add_spec(self.on_vector(p), self.d as int)
    }

    fn apply_vector(&self, v: &Tuple) -> (r: i64)
        ensures
            r == self.on_vector(*v),
    {
        Tuple { x: self.a, y: self.b, z: self.c }.dot(v)
    }

    fn apply_point(&self, p: &Tuple) -> (r: i64)
        ensures
            r == self.on_point(*p),
    {
        fixed::add(self.apply_vector(p), self.d)
    }
}

impl Matrix {
    pub open spec fn on_point(self, p: Tuple) -> Tuple {
        Tuple { x: self.x.on_point(p) as i64, y: self.y.on_point(p) as i64, z: self.z.on_point(p) as i64 }
    }

    pub open spec fn on_vector(self, v: Tuple) -> Tuple {
        Tuple { x: self.x.on_vector(v) as i64, y: self.y.on_vector(v) as i64, z: self.z.on_vector(v) as i64 }
    }

    /// Column `j` (0, 1 or 2) of the linear part.
    pub open spec fn column(self, j: int) -> Tuple {
        if j == 0 {
            Tuple { x: self.x.a, y: self.y.a, z: self.z.a }
        } else if j == 1 {
            Tuple { x: self.x.b, y: self.y.b, z: self.z.b }
        } else {
            Tuple { x: self.x.c, y: self.y.c, z: self.z.c }
        }
    }

    pub open spec fn translation_part(self) -> Tuple {
        Tuple { x: self.x.d, y: self.y.d, z: self.z.d }
    }

    /// The transpose of the linear part, with no translation.
    pub open spec fn transposed(self) -> Matrix {
        Matrix {
            x: Row { a: self.x.a, b: self.y.a, c: self.z.a, d: 0 },
            y: Row { a: self.x.b, b: self.y.b, c: self.z.b, d: 0 },
            z: Row { a: self.x.c, b: self.y.c, c: self.z.c, d: 0 },
        }
    }

    pub open spec fn row_times(r: Row, m: Matrix) -> Row {
        Row {
            a: r.on_vector(m.column(0)) as i64,
            b: r.on_vector(m.column(1)) as i64,
            c: r.on_vector(m.column(2)) as i64,
            d: r.on_point(m.translation_part()) as i64,
        }
    }

    /// The product `self * m`: apply `m` first, then `self`.
    pub open spec fn product(self, m: Matrix) -> Matrix {
        Matrix { x: Self::row_times(self.x, m), y: Self::row_times(self.y, m), z: Self::row_times(self.z, m) }
    }

    pub open spec fn identity_spec() -> Matrix {
        Matrix {
            x: Row { a: fixed::SCALE, b: 0, c: 0, d: 0 },
            y: Row { a: 0, b: fixed::SCALE, c: 0, d: 0 },
            z: Row { a: 0, b: 0, c: fixed::SCALE, d: 0 },
        }
    }

    pub open spec fn diagonal_spec(x: int, y: int, z: int, t: Tuple) -> Matrix {
        Matrix {
            x: Row { a: x as i64, b: 0, c: 0, d: t.x },
            y: Row { a: 0, b: y as i64, c: 0, d: t.y },
            z: Row { a: 0, b: 0, c: z as i64, d: t.z },
        }
    }

    pub fn apply_point(&self, p: &Tuple) -> (r: Tuple)
        ensures
            r == self.on_point(*p),
    {
        Tuple { x: self.x.apply_point(p), y: self.y.apply_point(p), z: self.z.apply_point(p) }
    }

    pub fn apply_vector(&self, v: &Tuple) -> (r: Tuple)
        ensures
            r == self.on_vector(*v),
    {
        Tuple { x: self.x.apply_vector(v), y: self.y.apply_vector(v), z: self.z.apply_vector(v) }
    }

    pub fn transpose(&self) -> (r: Matrix)
        ensures
            r == self.transposed(),
    {
        Matrix {
            x: Row { a: self.x.a, b: self.y.a, c: self.z.a, d: 0 },
            y: Row { a: self.x.b, b: self.y.b, c: self.z.b, d: 0 },
            z: Row { a: self.x.c, b: self.y.c, c: self.z.c, d: 0 },
        }
    }

    fn mul_row(r: &Row, m: &Matrix) -> (o: Row)
        ensures
            o == Self::row_times(*r, *m),
    {
        let c0 = Tuple { x: m.x.a, y: m.y.a, z: m.z.a };
        let c1 = Tuple { x: m.x.b, y: m.y.b, z: m.z.b };
        let c2 = Tuple { x: m.x.c, y: m.y.c, z: m.z.c };
        let t = Tuple { x: m.x.d, y: m.y.d, z: m.z.d };
        Row { a: r.apply_vector(&c0), b: r.apply_vector(&c1), c: r.apply_vector(&c2), d: r.apply_point(&t) }
    }

    pub fn multiply(&self, m: &Matrix) -> (r: Matrix)
        ensures
            r == self.product(*m),
    {
        Matrix { x: Self::mul_row(&self.x, m), y: Self::mul_row(&self.y, m), z: Self::mul_row(&self.z, m) }
    }
}

impl Transform {
    /// Applying `self`, then `next`.
    pub open spec fn followed_by_spec(self, next: Transform) -> Transform {
        Transform { matrix: next.matrix.product(self.matrix), inverse: self.inverse.product(next.inverse) }
    }

    pub open spec fn identity_spec() -> Transform {
        Transform { matrix: Matrix::identity_spec(), inverse: Matrix::identity_spec() }
    }

    pub open spec fn translation_spec(x: i64, y: i64, z: i64) -> Transform {
        Transform {
            matrix: Matrix::diagonal_spec(fixed::SCALE as int, fixed::SCALE as int, fixed::SCALE as int, Tuple { x, y, z }),
            inverse: Matrix::diagonal_spec(fixed::SCALE as int, fixed::SCALE as int, fixed::SCALE as int, Tuple { x, y, z }.negated()),
        }
    }

    pub open spec fn scaling_spec(x: i64, y: i64, z: i64) -> Transform {
        let zero = Tuple { x: 0, y: 0, z: 0 };
        Transform {
            matrix: Matrix::diagonal_spec(x as int, y as int, z as int, zero),
            inverse: Matrix::diagonal_spec(
                div_spec(fixed::SCALE as int, x as int),
                div_spec(fixed::SCALE as int, y as int),
                div_spec(fixed::SCALE as int, z as int),
                zero,
            ),
        }
    }

    pub fn identity() -> (t: Transform)
        ensures
            t == Transform::identity_spec(),
    {
        let m = Matrix {
            x: Row { a: fixed::SCALE, b: 0, c: 0, d: 0 },
            y: Row { a: 0, b: fixed::SCALE, c: 0, d: 0 },
            z: Row { a: 0, b: 0, c: fixed::SCALE, d: 0 },
        };
        Transform { matrix: m, inverse: m }
    }

    fn diagonal(x: i64, y: i64, z: i64, t: Tuple) -> (m: Matrix)
        ensures
            m == Matrix::diagonal_spec(x as int, y as int, z as int, t),
    {
        Matrix {
            x: Row { a: x, b: 0, c: 0, d: t.x },
            y: Row { a: 0, b: y, c: 0, d: t.y },
            z: Row { a: 0, b: 0, c: z, d: t.z },
        }
    }

    /// Moves points by `(x, y, z)`; vectors are unchanged.
    pub fn translation(x: i64, y: i64, z: i64) -> (t: Transform)
        ensures
            t == Transform::translation_spec(x, y, z),
    {
        let s = fixed::SCALE;
        let v = Tuple { x, y, z };
        Transform { matrix: Self::diagonal(s, s, s, v), inverse: Self::diagonal(s, s, s, v.neg()) }
    }

    /// Scales each axis by a nonzero factor; the inverse scales by its reciprocal.
    pub fn scaling(x: i64, y: i64, z: i64) -> (t: Transform)
        requires
            x != 0,
            y != 0,
            z != 0,
        ensures
            t == Transform::scaling_spec(x, y, z),
    {
        let zero = Tuple { x: 0, y: 0, z: 0 };
        let s = fixed::SCALE;
        Transform {
            matrix: Self::diagonal(x, y, z, zero),
            inverse: Self::diagonal(fixed::div(s, x), fixed::div(s, y), fixed::div(s, z), zero),
        }
    }

    /// `sin` and `cos` are the sine and cosine of one angle, up to rounding:
    /// `sin^2 + cos^2` is within one part in 100 000 of 1.
    pub open spec fn is_sine_cosine(sin: int, cos: int) -> bool {
        let s2 = SCALE as int * SCALE as int;
        s2 - 10 * SCALE as int <= sin * sin + cos * cos <= s2 + 10 * SCALE as int
    }

    /// A rotation given by the sine and cosine of its angle, about the x, y or z axis
    /// (`axis` 0, 1 or 2); its inverse is its transpose.
    pub open spec fn rotation_spec(axis: u8, sin: i64, cos: i64) -> Transform {
        let s = fixed::SCALE;
        let ns = sat(-sin) as i64;
        let m = if axis == 0 {
            Matrix { x: Row { a: s, b: 0, c: 0, d: 0 }, y: Row { a: 0, b: cos, c: ns, d: 0 }, z: Row { a: 0, b: sin, c: cos, d: 0 } }
        } else if axis == 1 {
            Matrix { x: Row { a: cos, b: 0, c: sin, d: 0 }, y: Row { a: 0, b: s, c: 0, d: 0 }, z: Row { a: ns, b: 0, c: cos, d: 0 } }
        } else {
            Matrix { x: Row { a: cos, b: ns, c: 0, d: 0 }, y: Row { a: sin, b: cos, c: 0, d: 0 }, z: Row { a: 0, b: 0, c: s, d: 0 } }
        };
        Transform { matrix: m, inverse: m.transposed() }
    }

    pub fn rotation(axis: u8, sin: i64, cos: i64) -> (t: Transform)
        requires
            axis <= 2,
            Transform::is_sine_cosine(sin as int, cos as int),
        ensures
            t == Transform::rotation_spec(axis, sin, cos),
    {
        let s = fixed::SCALE;
        let ns = fixed::neg(sin);
        let m = if axis == 0 {
            Matrix { x: Row { a: s, b: 0, c: 0, d: 0 }, y: Row { a: 0, b: cos, c: ns, d: 0 }, z: Row { a: 0, b: sin, c: cos, d: 0 } }
        } else if axis == 1 {
            Matrix { x: Row { a: cos, b: 0, c: sin, d: 0 }, y: Row { a: 0, b: s, c: 0, d: 0 }, z: Row { a: ns, b: 0, c: cos, d: 0 } }
        } else {
            Matrix { x: Row { a: cos, b: ns, c: 0, d: 0 }, y: Row { a: sin, b: cos, c: 0, d: 0 }, z: Row { a: 0, b: 0, c: s, d: 0 } }
        };
        Transform { matrix: m, inverse: m.transpose() }
    }

    /// The transform that applies `self` first and `next` after it.
    pub fn followed_by(&self, next: &Transform) -> (t: Transform)
        ensures
            t == self.followed_by_spec(*next),
    {
        Transform { matrix: next.matrix.multiply(&self.matrix), inverse: self.inverse.multiply(&next.inverse) }
    }

    /// The rows of the orientation used by a view transform.
    pub open spec fn orientation_spec(from: Tuple, to: Tuple, up: Tuple) -> Matrix {
        let forward = to.minus(from).unit();
        let left = forward.crossed(up.unit());
        let true_up = left.crossed(forward);
        let back = forward.negated();
        Matrix {
            x: Row { a: left.x, b: left.y, c: left.z, d: 0 },
            y: Row { a: true_up.x, b: true_up.y, c: true_up.z, d: 0 },
            z: Row { a: back.x, b: back.y, c: back.z, d: 0 },
        }
    }

    /// The world-to-eye transform of an eye at `from` looking at `to`, with `up`
    /// roughly upward; the orientation is orthonormal, so its inverse is its transpose.
    pub open spec fn view_spec(from: Tuple, to: Tuple, up: Tuple) -> Transform {
        let o = Self::orientation_spec(from, to, up);
        let s = fixed::SCALE as int;
        Transform {
            matrix: o.product(Matrix::diagonal_spec(s, s, s, from.negated())),
            inverse: Matrix::diagonal_spec(s, s, s, from).product(o.transposed()),
        }
    }

    pub fn view(from: &Tuple, to: &Tuple, up: &Tuple) -> (t: Transform)
        ensures
            t == Transform::view_spec(*from, *to, *up),
    {
        let forward = to.sub(from).normalize();
        let left = forward.cross(&up.normalize());
        let true_up = left.cross(&forward);
        let back = forward.neg();
        let o = Matrix {
            x: Row { a: left.x, b: left.y, c: left.z, d: 0 },
            y: Row { a: true_up.x, b: true_up.y, c: true_up.z, d: 0 },
            z: Row { a: back.x, b: back.y, c: back.z, d: 0 },
        };
        let s = fixed::SCALE;
        let to_origin = Self::diagonal(s, s, s, from.neg());
        let back_from_origin = Self::diagonal(s, s, s, *from);
        Transform { matrix: o.multiply(&to_origin), inverse: back_from_origin.multiply(&o.transpose()) }
    }
}

/// A translation's stored inverse undoes it exactly, for every point whose
/// translated coordinates stay within `i64`; vectors are left unchanged by both.
pub proof fn lemma_translation_round_trip(x: i64, y: i64, z: i64, p: Tuple, v: Tuple)
    requires
        x > i64::MIN && y > i64::MIN && z > i64::MIN,
        i64::MIN <= p.x + x <= i64::MAX,
        i64::MIN <= p.y + y <= i64::MAX,
        i64::MIN <= p.z + z <= i64::MAX,
    ensures
        Transform::translation_spec(x, y, z).inverse.on_point(Transform::translation_spec(x, y, z).matrix.on_point(p)) == p,
        Transform::translation_spec(x, y, z).matrix.on_vector(v) == v,
        Transform::translation_spec(x, y, z).inverse.on_vector(v) == v,
{
    let s = SCALE as int;
    assert forall|a: int| i64::MIN <= a <= i64::MAX implies #[trigger] crate::fixed::mul_spec(s, a) == a && crate::fixed::mul_spec(a, 0) == 0 by {
        assert(s * a / s == a) by (nonlinear_arith) requires s == 1_000_000;
        assert(a * 0 == 0);
    }
    assert(crate::fixed::mul_spec(s, p.x as int) == p.x);
    assert(crate::fixed::mul_spec(s, p.y as int) == p.y);
    assert(crate::fixed::mul_spec(s, p.z as int) == p.z);
    assert(crate::fixed::mul_spec(s, v.x as int) == v.x);
    assert(crate::fixed::mul_spec(s, v.y as int) == v.y);
    assert(crate::fixed::mul_spec(s, v.z as int) == v.z);
    let q = Transform::translation_spec(x, y, z).matrix.on_point(p);
    assert(q == Tuple { x: (p.x + x) as i64, y: (p.y + y) as i64, z: (p.z + z) as i64 });
    assert(crate::fixed::mul_spec(s, q.x as int) == q.x);
    assert(crate::fixed::mul_spec(s, q.y as int) == q.y);
    assert(crate::fixed::mul_spec(s, q.z as int) == q.z);
    assert(crate::fixed::mul_spec(q.x as int, 0) == 0);
}

} // verus!
