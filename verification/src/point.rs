//! Points and vectors of the plane.
//!
//! [`Vector`] is the mathematical model: a pair of real coordinates.
//! [`Point`] is the executable value, a pair of exact scalars, whose view is
//! a `Vector`.

use vstd::prelude::*;
use crate::matrix::{Mat2, Matrix};
use crate::scalar::Scalar;

verus! {

/// A vector of the real plane.
pub struct Vector {
    pub x: real,
    pub y: real,
}

impl Vector {
    /// The zero vector.
    pub open spec fn zero() -> Vector {
        Vector { x: 0real, y: 0real }
    }

    /// The sum of two vectors.
    #[verifier::opaque]
    pub open spec fn add(self, rhs: Vector) -> Vector {
        Vector { x: self.x + rhs.x, y: self.y + rhs.y }
    }

    /// The difference of two vectors.
    #[verifier::opaque]
    pub open spec fn sub(self, rhs: Vector) -> Vector {
        Vector { x: self.x - rhs.x, y: self.y - rhs.y }
    }

    /// This vector multiplied by the number `k`.
    #[verifier::opaque]
    pub open spec fn scale(self, k: real) -> Vector {
        Vector { x: k * self.x, y: k * self.y }
    }

    /// The dot product of two vectors.
    #[verifier::opaque]
    pub open spec fn dot(self, rhs: Vector) -> real {
        self.x * rhs.x + self.y * rhs.y
    }

    /// The squared Euclidean norm.
    #[verifier::opaque]
    pub open spec fn sqr_norm(self) -> real {
        self.x * self.x + self.y * self.y
    }

    /// The outer product: this vector as a column times `rhs` as a row.
    #[verifier::opaque]
    pub open spec fn outer(self, rhs: Vector) -> Matrix {
        Matrix {
            m11: self.x * rhs.x,
            m12: self.x * rhs.y,
            m21: self.y * rhs.x,
            m22: self.y * rhs.y,
        }
    }

    /// This vector as a row, times the matrix `m`.
    #[verifier::opaque]
    pub open spec fn times(self, m: Matrix) -> Vector {
        Vector { x: self.x * m.m11 + self.y * m.m21, y: self.x * m.m12 + self.y * m.m22 }
    }
}

/// A point of the plane with exact rational coordinates.
#[derive(Debug)]
pub struct Point {
    pub x: Scalar,
    pub y: Scalar,
}

impl View for Point {
    type V = Vector;

    open spec fn view(&self) -> Vector {
        Vector { x: self.x@, y: self.y@ }
    }
}

impl Point {
    /// The point with the given coordinates.
    pub fn new(x: Scalar, y: Scalar) -> (r: Point)
        ensures
            r == (Point { x, y }),
    {
        Point { x, y }
    }

    /// The origin.
    pub fn zero() -> (r: Point)
        ensures
            r@ == Vector::zero(),
    {
        Point { x: Scalar::zero(), y: Scalar::zero() }
    }

    /// The dot product with another point.
    pub fn dot(&self, rhs: &Point) -> (r: Scalar)
        ensures
            r@ == self@.dot(rhs@),
    {
        reveal(Vector::dot);
        let a = self.x.mul(&rhs.x);
        let b = self.y.mul(&rhs.y);
        a.add(&b)
    }

    /// The squared Euclidean norm.
    pub fn sqr_norm(&self) -> (r: Scalar)
        ensures
            r@ == self@.sqr_norm(),
    {
        reveal(Vector::sqr_norm);
        let a = self.x.mul(&self.x);
        let b = self.y.mul(&self.y);
        a.add(&b)
    }

    /// The outer product: this point as a column times `rhs` as a row.
    pub fn times_transpose(&self, rhs: &Point) -> (r: Mat2)
        ensures
            r@ == self@.outer(rhs@),
    {
        reveal(Vector::outer);
        Mat2 {
            m11: self.x.mul(&rhs.x),
            m21: self.y.mul(&rhs.x),
            m12: self.x.mul(&rhs.y),
            m22: self.y.mul(&rhs.y),
        }
    }

    /// The sum of two points, coordinate by coordinate.
    pub fn add(&self, rhs: &Point) -> (r: Point)
        ensures
            r@ == self@.add(rhs@),
    {
        reveal(Vector::add);
        Point { x: self.x.add(&rhs.x), y: self.y.add(&rhs.y) }
    }

    /// The difference of two points, coordinate by coordinate.
    pub fn sub(&self, rhs: &Point) -> (r: Point)
        ensures
            r@ == self@.sub(rhs@),
    {
        reveal(Vector::sub);
        Point { x: self.x.sub(&rhs.x), y: self.y.sub(&rhs.y) }
    }

    /// This point multiplied by the scalar `k`.
    pub fn scale(&self, k: &Scalar) -> (r: Point)
        ensures
            r@ == self@.scale(k@),
    {
        reveal(Vector::scale);
        Point { x: k.mul(&self.x), y: k.mul(&self.y) }
    }

    /// This point as a row, times the matrix `m`.
    pub fn times(&self, m: &Mat2) -> (r: Point)
        ensures
            r@ == self@.times(m@),
    {
        reveal(Vector::times);
        let x = self.x.mul(&m.m11).add(&self.y.mul(&m.m21));
        let y = self.x.mul(&m.m12).add(&self.y.mul(&m.m22));
        Point { x, y }
    }

    /// Whether the two points have the same coordinates.
    pub fn eq(&self, rhs: &Point) -> (r: bool)
        ensures
            r == (self@ == rhs@),
    {
        self.x.eq(&rhs.x) && self.y.eq(&rhs.y)
    }
}

impl Clone for Point {
    fn clone(&self) -> (r: Point)
        ensures
            r@ == self@,
    {
        Point { x: self.x.clone(), y: self.y.clone() }
    }
}

impl vstd::std_specs::convert::FromSpecImpl<(Scalar, Scalar)> for Point {
    open spec fn obeys_from_spec() -> bool {
        true
    }

    open spec fn from_spec(pair: (Scalar, Scalar)) -> Point {
        Point { x: pair.0, y: pair.1 }
    }
}

impl From<(Scalar, Scalar)> for Point {
    fn from(pair: (Scalar, Scalar)) -> (r: Point) {
        Point { x: pair.0, y: pair.1 }
    }
}

} // verus!
