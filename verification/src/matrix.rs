//! Two-by-two matrices.
//!
//! [`Matrix`] is the mathematical model: four real coefficients laid out as
//!
//! ```text
//! | m11  m12 |
//! | m21  m22 |
//! ```
//!
//! [`Mat2`] is the executable value, four exact scalars, whose view is a
//! `Matrix`.

use vstd::prelude::*;
use crate::scalar::Scalar;

verus! {

/// A two-by-two matrix of reals.
pub struct Matrix {
    pub m11: real,
    pub m12: real,
    pub m21: real,
    pub m22: real,
}

impl Matrix {
    /// The zero matrix.
    pub open spec fn zero() -> Matrix {
        Matrix { m11: 0real, m12: 0real, m21: 0real, m22: 0real }
    }

    /// The identity matrix.
    pub open spec fn identity() -> Matrix {
        Matrix { m11: 1real, m12: 0real, m21: 0real, m22: 1real }
    }

    /// The sum of two matrices.
    #[verifier::opaque]
    pub open spec fn add(self, rhs: Matrix) -> Matrix {
        Matrix {
            m11: self.m11 + rhs.m11,
            m12: self.m12 + rhs.m12,
            m21: self.m21 + rhs.m21,
            m22: self.m22 + rhs.m22,
        }
    }

    /// This matrix multiplied by the number `k`.
    #[verifier::opaque]
    pub open spec fn scale(self, k: real) -> Matrix {
        Matrix { m11: k * self.m11, m12: k * self.m12, m21: k * self.m21, m22: k * self.m22 }
    }

    /// The matrix product, row by column.
    #[verifier::opaque]
    pub open spec fn mul(self, rhs: Matrix) -> Matrix {
        Matrix {
            m11: self.m11 * rhs.m11 + self.m12 * rhs.m21,
            m12: self.m11 * rhs.m12 + self.m12 * rhs.m22,
            m21: self.m21 * rhs.m11 + self.m22 * rhs.m21,
            m22: self.m21 * rhs.m12 + self.m22 * rhs.m22,
        }
    }

    /// The determinant.
    #[verifier::opaque]
    pub open spec fn det(self) -> real {
        self.m11 * self.m22 - self.m21 * self.m12
    }

    /// The adjugate: the matrix that, divided by the determinant, inverts
    /// this one.
    #[verifier::opaque]
    pub open spec fn adjugate(self) -> Matrix {
        Matrix { m11: self.m22, m12: -self.m12, m21: -self.m21, m22: self.m11 }
    }

    /// The inverse, where the determinant is not zero.
    #[verifier::opaque]
    pub open spec fn inverse(self) -> Matrix {
        self.adjugate().scale(1real / self.det())
    }
}

/// A two-by-two matrix with exact rational coefficients.
#[derive(Debug)]
pub struct Mat2 {
    pub m11: Scalar,
    pub m21: Scalar,
    pub m12: Scalar,
    pub m22: Scalar,
}

impl View for Mat2 {
    type V = Matrix;

    open spec fn view(&self) -> Matrix {
        Matrix { m11: self.m11@, m12: self.m12@, m21: self.m21@, m22: self.m22@ }
    }
}

impl Mat2 {
    /// The zero matrix.
    pub fn zero() -> (r: Mat2)
        ensures
            r@ == Matrix::zero(),
    {
        Mat2 { m11: Scalar::zero(), m21: Scalar::zero(), m12: Scalar::zero(), m22: Scalar::zero() }
    }

    /// The determinant.
    pub fn det(&self) -> (r: Scalar)
        ensures
            r@ == self@.det(),
    {
        reveal(Matrix::det);
        let a = self.m11.mul(&self.m22);
        let b = self.m21.mul(&self.m12);
        a.sub(&b)
    }

    /// The inverse, or `None` where the determinant is zero.
    pub fn inv(&self) -> (r: Option<Mat2>)
        ensures
            r is None <==> self@.det() == 0real,
            r matches Some(m) ==> m@ == self@.inverse(),
    {
        reveal(Matrix::adjugate);
        reveal(Matrix::inverse);
        match self.det().recip() {
            None => None,
            Some(k) => {
                let adjugate = Mat2 {
                    m11: self.m22.clone(),
                    m21: self.m21.neg(),
                    m12: self.m12.neg(),
                    m22: self.m11.clone(),
                };
                Some(adjugate.scale(&k))
            },
        }
    }

    /// The sum of two matrices, coefficient by coefficient.
    pub fn add(&self, rhs: &Mat2) -> (r: Mat2)
        ensures
            r@ == self@.add(rhs@),
    {
        reveal(Matrix::add);
        Mat2 {
            m11: self.m11.add(&rhs.m11),
            m21: self.m21.add(&rhs.m21),
            m12: self.m12.add(&rhs.m12),
            m22: self.m22.add(&rhs.m22),
        }
    }

    /// This matrix multiplied by the scalar `k`.
    pub fn scale(&self, k: &Scalar) -> (r: Mat2)
        ensures
            r@ == self@.scale(k@),
    {
        reveal(Matrix::scale);
        Mat2 {
            m11: k.mul(&self.m11),
            m21: k.mul(&self.m21),
            m12: k.mul(&self.m12),
            m22: k.mul(&self.m22),
        }
    }

    /// The matrix product, row by column.
    pub fn mul(&self, rhs: &Mat2) -> (r: Mat2)
        ensures
            r@ == self@.mul(rhs@),
    {
        reveal(Matrix::mul);
        Mat2 {
            m11: self.m11.mul(&rhs.m11).add(&self.m12.mul(&rhs.m21)),
            m21: self.m21.mul(&rhs.m11).add(&self.m22.mul(&rhs.m21)),
            m12: self.m11.mul(&rhs.m12).add(&self.m12.mul(&rhs.m22)),
            m22: self.m21.mul(&rhs.m12).add(&self.m22.mul(&rhs.m22)),
        }
    }
}

} // verus!
