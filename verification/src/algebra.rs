//! Identities of real, vector and matrix algebra.
//!
//! The operations of [`Vector`] and [`Matrix`] are opaque to the solver, so
//! that a proof about a deformation reasons about vectors and matrices, not
//! about their coordinates. The identities that such proofs need are
//! collected here, each proved from the definitions.

use vstd::prelude::*;
use crate::matrix::Matrix;
use crate::point::Vector;

verus! {

/// A non-zero number times its reciprocal is one.
pub proof fn lemma_reciprocal(s: real)
    requires
        s != 0real,
    ensures
        (1real / s) * s == 1real,
{
    let k = 1real / s;
    assert(k * s == 1real) by (nonlinear_arith)
        requires
            s != 0real,
            k == 1real / s,
    ;
}

/// A product with a zero factor is zero.
pub proof fn lemma_zero_product(x: real, y: real)
    requires
        x == 0real || y == 0real,
    ensures
        x * y == 0real,
{
    if x == 0real {
        assert(x * y == 0real) by (nonlinear_arith)
            requires
                x == 0real,
        ;
    } else {
        assert(x * y == 0real) by (nonlinear_arith)
            requires
                y == 0real,
        ;
    }
}

/// A product with the factor one is the other factor.
pub proof fn lemma_one_product(x: real, y: real)
    requires
        y == 1real,
    ensures
        x * y == x,
        y * x == x,
{
    assert(x * y == x && y * x == x) by (nonlinear_arith)
        requires
            y == 1real,
    ;
}

/// Multiplication by a number distributes over a sum, on either side.
pub proof fn lemma_distribute(k: real, a: real, b: real)
    ensures
        k * (a + b) == k * a + k * b,
        (a + b) * k == a * k + b * k,
{
    assert(k * (a + b) == k * a + k * b) by (nonlinear_arith);
    assert((a + b) * k == a * k + b * k) by (nonlinear_arith);
}

/// Dividing `a + s * t` by a non-zero `s` gives `a / s + t`.
pub proof fn lemma_mean_of_shifted(a: real, s: real, t: real)
    requires
        s != 0real,
    ensures
        (1real / s) * (a + s * t) == (1real / s) * a + t,
{
    let k = 1real / s;
    lemma_reciprocal(s);
    let one = k * s;
    assert(k * (a + s * t) == k * a + (k * s) * t) by (nonlinear_arith);
    lemma_one_product(t, one);
}

/// Dividing `s * c` by a non-zero `s` gives `c`.
pub proof fn lemma_cancel_factor(s: real, c: real)
    requires
        s != 0real,
    ensures
        (1real / s) * (s * c) == c,
{
    let k = 1real / s;
    lemma_reciprocal(s);
    let one = k * s;
    assert(k * (s * c) == (k * s) * c) by (nonlinear_arith);
    lemma_one_product(c, one);
}

/// Subtracting a vector and adding it back changes nothing.
pub proof fn lemma_sub_then_add(v: Vector, c: Vector)
    ensures
        v.sub(c).add(c) == v,
{
    reveal(Vector::add);
    reveal(Vector::sub);
}

/// Subtracting `c` and adding `c + t` amounts to adding `t`.
pub proof fn lemma_sub_then_add_translated(v: Vector, c: Vector, t: Vector)
    ensures
        v.sub(c).add(c.add(t)) == v.add(t),
{
    reveal(Vector::add);
    reveal(Vector::sub);
}

/// The difference of two vectors is unchanged when both move by `t`.
pub proof fn lemma_sub_translated(p: Vector, c: Vector, t: Vector)
    ensures
        p.add(t).sub(c.add(t)) == p.sub(c),
{
    reveal(Vector::add);
    reveal(Vector::sub);
}

/// A vector minus itself is the zero vector.
pub proof fn lemma_sub_self(c: Vector)
    ensures
        c.sub(c) == Vector::zero(),
{
    reveal(Vector::sub);
}

/// Adding the zero vector changes nothing.
pub proof fn lemma_add_zero(a: Vector)
    ensures
        a.add(Vector::zero()) == a,
{
    reveal(Vector::add);
}

/// Any vector scaled by zero is the zero vector.
pub proof fn lemma_scale_by_zero(t: Vector)
    ensures
        t.scale(0real) == Vector::zero(),
{
    reveal(Vector::scale);
}

/// Scaling one vector by two numbers and adding is scaling by their sum.
pub proof fn lemma_scale_sum(c: Vector, s: real, w: real)
    ensures
        c.scale(s).add(c.scale(w)) == c.scale(s + w),
{
    reveal(Vector::add);
    reveal(Vector::scale);
    lemma_distribute(c.x, s, w);
    lemma_distribute(c.y, s, w);
}

/// Scaling by a non-zero number and then by its reciprocal changes nothing.
pub proof fn lemma_scale_cancel(c: Vector, s: real)
    requires
        s != 0real,
    ensures
        c.scale(s).scale(1real / s) == c,
{
    reveal(Vector::scale);
    lemma_cancel_factor(s, c.x);
    lemma_cancel_factor(s, c.y);
}

/// One more term of a weighted sum of translated vectors: the translation
/// gathers in a single term scaled by the sum of the weights.
pub proof fn lemma_translated_step(a: Vector, p: Vector, t: Vector, s: real, w: real)
    ensures
        a.add(t.scale(s)).add(p.add(t).scale(w)) == a.add(p.scale(w)).add(t.scale(s + w)),
{
    reveal(Vector::add);
    reveal(Vector::scale);
    lemma_distribute(w, p.x, t.x);
    lemma_distribute(w, p.y, t.y);
    lemma_distribute(t.x, s, w);
    lemma_distribute(t.y, s, w);
}

/// The mean of a sum that holds `t` once per unit of weight is the mean of
/// the rest, moved by `t`.
pub proof fn lemma_shifted_mean(a: Vector, t: Vector, s: real)
    requires
        s != 0real,
    ensures
        a.add(t.scale(s)).scale(1real / s) == a.scale(1real / s).add(t),
{
    reveal(Vector::add);
    reveal(Vector::scale);
    lemma_mean_of_shifted(a.x, s, t.x);
    lemma_mean_of_shifted(a.y, s, t.y);
}

/// A row vector times the identity matrix is itself.
pub proof fn lemma_times_identity(u: Vector)
    ensures
        u.times(Matrix::identity()) == u,
{
    reveal(Vector::times);
    let i = Matrix::identity();
    lemma_one_product(u.x, i.m11);
    lemma_zero_product(u.y, i.m21);
    lemma_zero_product(u.x, i.m12);
    lemma_one_product(u.y, i.m22);
}

/// The outer product of the zero vector with any vector is the zero matrix.
pub proof fn lemma_zero_outer(x: Vector)
    ensures
        Vector::zero().outer(x) == Matrix::zero(),
{
    reveal(Vector::outer);
}

/// The zero matrix scaled by any number is the zero matrix.
pub proof fn lemma_zero_scale(w: real)
    ensures
        Matrix::zero().scale(w) == Matrix::zero(),
{
    reveal(Matrix::scale);
}

/// Adding the zero matrix changes nothing.
pub proof fn lemma_add_zero_matrix(a: Matrix)
    ensures
        a.add(Matrix::zero()) == a,
{
    reveal(Matrix::add);
}

/// The determinant of the zero matrix is zero.
pub proof fn lemma_zero_det()
    ensures
        Matrix::zero().det() == 0real,
{
    reveal(Matrix::det);
}

/// Products of three numbers regroup, with or without a sign.
pub proof fn lemma_regroup(k: real, x: real, y: real)
    ensures
        (k * x) * y == k * (x * y),
        (k * x) * y == k * (y * x),
        (k * (-x)) * y == -(k * (x * y)),
        (k * (-x)) * y == -(k * (y * x)),
{
    assert((k * x) * y == k * (x * y)) by (nonlinear_arith);
    assert(k * (x * y) == k * (y * x)) by (nonlinear_arith);
    assert((k * (-x)) * y == -(k * (x * y))) by (nonlinear_arith);
}

/// Multiplication by a number distributes over a difference.
pub proof fn lemma_distribute_difference(k: real, p: real, q: real)
    ensures
        k * (p - q) == k * p - k * q,
{
    assert(k * (p - q) == k * p - k * q) by (nonlinear_arith);
}

/// The four coefficients of `k` times the adjugate of a matrix, times that
/// matrix: `k` times the determinant on the diagonal, zero elsewhere.
pub proof fn lemma_adjugate_product(a: real, b: real, c: real, e: real, k: real)
    ensures
        (k * e) * a + (k * (-b)) * c == k * (a * e - c * b),
        (k * e) * b + (k * (-b)) * e == 0real,
        (k * (-c)) * a + (k * a) * c == 0real,
        (k * (-c)) * b + (k * a) * e == k * (a * e - c * b),
{
    lemma_distribute_difference(k, a * e, c * b);
    lemma_regroup(k, e, a);
    lemma_regroup(k, b, c);
    lemma_regroup(k, e, b);
    lemma_regroup(k, b, e);
    lemma_regroup(k, c, a);
    lemma_regroup(k, a, c);
    lemma_regroup(k, c, b);
    lemma_regroup(k, a, e);
}

/// A matrix with a non-zero determinant is cancelled by its inverse.
pub proof fn lemma_inverse_cancels(m: Matrix)
    requires
        m.det() != 0real,
    ensures
        m.inverse().mul(m) == Matrix::identity(),
{
    reveal(Matrix::det);
    reveal(Matrix::adjugate);
    reveal(Matrix::inverse);
    reveal(Matrix::scale);
    reveal(Matrix::mul);
    lemma_reciprocal(m.det());
    lemma_adjugate_product(m.m11, m.m12, m.m21, m.m22, 1real / m.det());
}

} // verus!
