//! The moving-least-squares affine deformation.
//!
//! Given control points `p_1..p_n`, their targets `q_1..q_n` and a query
//! point `v`, the deformation weights each control point by the inverse of
//! its squared distance to `v`, fits the affine map that best carries the
//! weighted `p_i` to the `q_i` in the least-squares sense, and applies that
//! map to `v`. A query that coincides with a control point is mapped to the
//! target of the first such control point.
//!
//! [`deform_model`] states the whole function over the reals;
//! [`deform_affine`] computes it in exact rational arithmetic. Nothing is
//! rounded, so a query coincides with a control point only where the two are
//! equal, and the covariance is singular only where its determinant is zero:
//! neither test needs a tolerance.

use vstd::prelude::*;
use crate::matrix::{Mat2, Matrix};
use crate::point::{Point, Vector};
use crate::scalar::Scalar;

verus! {

/// Why a deformation has no result.
#[derive(Clone, Copy, Debug, PartialEq, Eq, Structural)]
pub enum DeformError {
    /// There is no control point, or the control points and their targets
    /// differ in number.
    InvalidInput,
    /// The weighted covariance of the control points is singular: they all
    /// coincide or lie on one line, so no affine map is determined.
    DegenerateGeometry,
}

/// The squared distance from the control point `p` to the query `v`.
pub open spec fn sqr_dist(p: Vector, v: Vector) -> real {
    p.sub(v).sqr_norm()
}

/// The weight of the control point `p` for the query `v`: the inverse of
/// their squared distance.
#[verifier::opaque]
pub open spec fn weight(p: Vector, v: Vector) -> real {
    1real / sqr_dist(p, v)
}

/// The sum of the weights of the first `n` control points.
pub open spec fn weight_sum(ps: Seq<Vector>, v: Vector, n: nat) -> real
    decreases n,
{
    if n == 0 {
        0real
    } else {
        weight_sum(ps, v, (n - 1) as nat) + weight(ps[n - 1], v)
    }
}

/// The sum of the first `n` vectors of `xs`, each multiplied by the weight of
/// the control point of the same index.
pub open spec fn weighted_sum(ps: Seq<Vector>, xs: Seq<Vector>, v: Vector, n: nat) -> Vector
    decreases n,
{
    if n == 0 {
        Vector::zero()
    } else {
        weighted_sum(ps, xs, v, (n - 1) as nat).add(xs[n - 1].scale(weight(ps[n - 1], v)))
    }
}

/// The weighted mean of `xs` under the weights of the control points `ps`.
pub open spec fn centroid(ps: Seq<Vector>, xs: Seq<Vector>, v: Vector) -> Vector {
    weighted_sum(ps, xs, v, ps.len()).scale(1real / weight_sum(ps, v, ps.len()))
}

/// The weighted sum, over the first `n` indices, of the outer products of the
/// centred control points with the centred vectors of `xs`.
pub open spec fn moment(ps: Seq<Vector>, xs: Seq<Vector>, v: Vector, n: nat) -> Matrix
    decreases n,
{
    if n == 0 {
        Matrix::zero()
    } else {
        moment(ps, xs, v, (n - 1) as nat).add(
            ps[n - 1].sub(centroid(ps, ps, v)).outer(xs[n - 1].sub(centroid(ps, xs, v))).scale(
                weight(ps[n - 1], v),
            ),
        )
    }
}

/// The weighted covariance of the control points about their centroid.
pub open spec fn covariance(ps: Seq<Vector>, v: Vector) -> Matrix {
    moment(ps, ps, v, ps.len())
}

/// The linear part of the fitted affine map.
pub open spec fn linear_part(ps: Seq<Vector>, qs: Seq<Vector>, v: Vector) -> Matrix {
    covariance(ps, v).inverse().mul(moment(ps, qs, v, ps.len()))
}

/// The image of `v` under the fitted affine map.
pub open spec fn affine_image(ps: Seq<Vector>, qs: Seq<Vector>, v: Vector) -> Vector {
    v.sub(centroid(ps, ps, v)).times(linear_part(ps, qs, v)).add(centroid(ps, qs, v))
}

/// Whether the query `v` coincides with some control point.
pub open spec fn has_coincident(ps: Seq<Vector>, v: Vector) -> bool {
    exists|i: int| 0 <= i < ps.len() && ps[i] == v
}

/// Whether `i` is the first index at which a control point coincides with `v`.
pub open spec fn is_first_coincident(ps: Seq<Vector>, v: Vector, i: int) -> bool {
    &&& 0 <= i < ps.len()
    &&& ps[i] == v
    &&& forall|j: int| 0 <= j < i ==> ps[j] != v
}

/// The first index at which a control point coincides with `v`, where there
/// is one.
pub open spec fn first_coincident(ps: Seq<Vector>, v: Vector) -> int {
    choose|i: int| is_first_coincident(ps, v, i)
}

/// The deformation, as a function of the control points `ps`, their targets
/// `qs` and the query `v`.
pub open spec fn deform_model(ps: Seq<Vector>, qs: Seq<Vector>, v: Vector) -> Result<
    Vector,
    DeformError,
> {
    if ps.len() == 0 || ps.len() != qs.len() {
        Err(DeformError::InvalidInput)
    } else if has_coincident(ps, v) {
        Ok(qs[first_coincident(ps, v)])
    } else if covariance(ps, v).det() == 0real {
        Err(DeformError::DegenerateGeometry)
    } else {
        Ok(affine_image(ps, qs, v))
    }
}

/// The vectors that a sequence of points denotes.
pub open spec fn points_view(points: Seq<Point>) -> Seq<Vector> {
    points.map_values(|p: Point| p@)
}

/// The outcome of a deformation with its point, if any, taken as a vector.
pub open spec fn outcome_view(r: Result<Point, DeformError>) -> Result<Vector, DeformError> {
    match r {
        Ok(p) => Ok(p@),
        Err(e) => Err(e),
    }
}

/// The first coincident index is the only index that satisfies its
/// definition.
pub proof fn lemma_first_coincident_unique(ps: Seq<Vector>, v: Vector, i: int)
    requires
        is_first_coincident(ps, v, i),
    ensures
        has_coincident(ps, v),
        first_coincident(ps, v) == i,
{
    let k = first_coincident(ps, v);
    assert(is_first_coincident(ps, v, k));
    if k < i {
        assert(ps[k] != v);
    } else if i < k {
        assert(ps[i] != v);
    }
}

/// Two distinct points are at a positive squared distance, so the weight of a
/// control point that does not coincide with the query is positive.
pub proof fn lemma_weight_positive(p: Vector, v: Vector)
    requires
        p != v,
    ensures
        sqr_dist(p, v) > 0real,
        weight(p, v) > 0real,
{
    reveal(Vector::sub);
    reveal(Vector::sqr_norm);
    reveal(weight);
    let dx = p.x - v.x;
    let dy = p.y - v.y;
    assert(dx * dx + dy * dy > 0real) by (nonlinear_arith)
        requires
            dx != 0real || dy != 0real,
    ;
    let d = sqr_dist(p, v);
    assert(1real / d > 0real) by (nonlinear_arith)
        requires
            d > 0real,
    ;
}

/// The weights of control points that do not coincide with the query sum to
/// a positive number.
pub proof fn lemma_weight_sum_positive(ps: Seq<Vector>, v: Vector, n: nat)
    requires
        0 < n <= ps.len(),
        !has_coincident(ps, v),
    ensures
        weight_sum(ps, v, n) > 0real,
    decreases n,
{
    assert(ps[n - 1] != v);
    lemma_weight_positive(ps[n - 1], v);
    if n > 1 {
        lemma_weight_sum_positive(ps, v, (n - 1) as nat);
    } else {
        assert(weight_sum(ps, v, 0) == 0real);
    }
}

/// The first index at which a control point coincides with `point`, or
/// `None` where none does.
pub fn first_coincident_index(controls_p: &[Point], point: &Point) -> (r: Option<usize>)
    ensures
        r is None <==> !has_coincident(points_view(controls_p@), point@),
        r matches Some(i) ==> is_first_coincident(points_view(controls_p@), point@, i as int)
            && first_coincident(points_view(controls_p@), point@) == i,
{
    let ghost ps = points_view(controls_p@);
    let n = controls_p.len();
    let mut i: usize = 0;
    while i < n
        invariant
            i <= n,
            n == controls_p@.len(),
            ps == points_view(controls_p@),
            forall|j: int| 0 <= j < i ==> ps[j] != point@,
        decreases n - i,
    {
        if controls_p[i].eq(point) {
            proof {
                lemma_first_coincident_unique(ps, point@, i as int);
            }
            return Some(i);
        }
        i = i + 1;
    }
    None
}

/// Maps the query `point` through the moving-least-squares affine deformation
/// that carries the control points `controls_p` to `controls_q`.
///
/// `proximity_threshold` is reserved: it has no effect on the result.
pub fn deform_affine(
    controls_p: &[Point],
    controls_q: &[Point],
    point: Point,
    proximity_threshold: Scalar,
) -> (r: Result<Point, DeformError>)
    ensures
        outcome_view(r) == deform_model(points_view(controls_p@), points_view(controls_q@), point@),
        r == Err::<Point, DeformError>(DeformError::InvalidInput) <==> controls_p@.len() == 0
            || controls_p@.len() != controls_q@.len(),
{
    let ghost ps = points_view(controls_p@);
    let ghost qs = points_view(controls_q@);
    let ghost v = point@;
    let n = controls_p.len();
    if n == 0 || n != controls_q.len() {
        return Err(DeformError::InvalidInput);
    }
    if let Some(index) = first_coincident_index(controls_p, &point) {
        return Ok(controls_q[index].clone());
    }
    let mut w_all: Vec<Scalar> = Vec::new();
    let mut w_sum = Scalar::zero();
    let mut wp_sum = Point::zero();
    let mut wq_sum = Point::zero();
    let mut i: usize = 0;
    while i < n
        invariant
            i <= n,
            n == controls_p@.len(),
            n == controls_q@.len(),
            ps == points_view(controls_p@),
            qs == points_view(controls_q@),
            v == point@,
            !has_coincident(ps, v),
            w_all@.len() == i,
            forall|j: int| 0 <= j < i ==> (#[trigger] w_all@[j])@ == weight(ps[j], v),
            w_sum@ == weight_sum(ps, v, i as nat),
            wp_sum@ == weighted_sum(ps, ps, v, i as nat),
            wq_sum@ == weighted_sum(ps, qs, v, i as nat),
        decreases n - i,
    {
        let d = controls_p[i].sub(&point).sqr_norm();
        proof {
            reveal(weight);
            assert(ps[i as int] != v);
            lemma_weight_positive(ps[i as int], v);
        }
        let w = d.inverse();
        w_sum = w_sum.add(&w);
        wp_sum = wp_sum.add(&controls_p[i].scale(&w));
        wq_sum = wq_sum.add(&controls_q[i].scale(&w));
        w_all.push(w);
        i = i + 1;
    }
    proof {
        lemma_weight_sum_positive(ps, v, n as nat);
    }
    let k = w_sum.inverse();
    let p_star = wp_sum.scale(&k);
    let q_star = wq_sum.scale(&k);
    assert(p_star@ == centroid(ps, ps, v));
    assert(q_star@ == centroid(ps, qs, v));

    let mut mp = Mat2::zero();
    let mut mq = Mat2::zero();
    let mut i: usize = 0;
    while i < n
        invariant
            i <= n,
            n == controls_p@.len(),
            n == controls_q@.len(),
            ps == points_view(controls_p@),
            qs == points_view(controls_q@),
            w_all@.len() == n,
            forall|j: int| 0 <= j < n ==> (#[trigger] w_all@[j])@ == weight(ps[j], v),
            p_star@ == centroid(ps, ps, v),
            q_star@ == centroid(ps, qs, v),
            mp@ == moment(ps, ps, v, i as nat),
            mq@ == moment(ps, qs, v, i as nat),
        decreases n - i,
    {
        let p_hat = controls_p[i].sub(&p_star);
        let q_hat = controls_q[i].sub(&q_star);
        let w = &w_all[i];
        mp = mp.add(&p_hat.times_transpose(&p_hat).scale(w));
        mq = mq.add(&p_hat.times_transpose(&q_hat).scale(w));
        i = i + 1;
    }
    match mp.inv() {
        None => Err(DeformError::DegenerateGeometry),
        Some(mp_inv) => {
            let m = mp_inv.mul(&mq);
            Ok(point.sub(&p_star).times(&m).add(&q_star))
        },
    }
}

} // verus!
