//! Laws of the deformation, proved of [`deform_model`].
//!
//! [`deform_affine`](crate::deform::deform_affine) returns what
//! `deform_model` states, so each law holds of every call.

use vstd::prelude::*;
use crate::algebra::{
    lemma_add_zero, lemma_add_zero_matrix, lemma_inverse_cancels, lemma_scale_by_zero,
    lemma_scale_cancel, lemma_scale_sum, lemma_shifted_mean, lemma_sub_self,
    lemma_sub_then_add, lemma_sub_then_add_translated, lemma_sub_translated,
    lemma_times_identity, lemma_translated_step, lemma_zero_det, lemma_zero_outer,
    lemma_zero_scale,
};
use crate::deform::{
    centroid, covariance, deform_model, first_coincident, has_coincident, is_first_coincident,
    lemma_first_coincident_unique, lemma_weight_sum_positive, moment, outcome_view, points_view,
    weight, weight_sum, weighted_sum, DeformError,
};
use crate::matrix::Matrix;
use crate::point::{Point, Vector};

verus! {

/// Where every target is its control point moved by `t`, the weighted sum of
/// the targets is that of the control points plus `t` times the sum of the
/// weights.
pub proof fn lemma_weighted_sum_translated(
    ps: Seq<Vector>,
    qs: Seq<Vector>,
    t: Vector,
    v: Vector,
    n: nat,
)
    requires
        n <= ps.len(),
        ps.len() == qs.len(),
        forall|i: int| 0 <= i < ps.len() ==> qs[i] == ps[i].add(t),
    ensures
        weighted_sum(ps, qs, v, n) == weighted_sum(ps, ps, v, n).add(
            t.scale(weight_sum(ps, v, n)),
        ),
    decreases n,
{
    if n == 0 {
        lemma_scale_by_zero(t);
        lemma_add_zero(Vector::zero());
    } else {
        let m = (n - 1) as nat;
        lemma_weighted_sum_translated(ps, qs, t, v, m);
        assert(qs[n - 1] == ps[n - 1].add(t));
        lemma_translated_step(
            weighted_sum(ps, ps, v, m),
            ps[n - 1],
            t,
            weight_sum(ps, v, m),
            weight(ps[n - 1], v),
        );
    }
}

/// Where every target is its control point moved by `t`, the centroid of the
/// targets is the centroid of the control points moved by `t`.
pub proof fn lemma_centroid_translated(ps: Seq<Vector>, qs: Seq<Vector>, t: Vector, v: Vector)
    requires
        ps.len() == qs.len(),
        forall|i: int| 0 <= i < ps.len() ==> qs[i] == ps[i].add(t),
        weight_sum(ps, v, ps.len()) != 0real,
    ensures
        centroid(ps, qs, v) == centroid(ps, ps, v).add(t),
{
    lemma_weighted_sum_translated(ps, qs, t, v, ps.len());
    lemma_shifted_mean(weighted_sum(ps, ps, v, ps.len()), t, weight_sum(ps, v, ps.len()));
}

/// Where every target is its control point moved by `t`, the cross moment of
/// control points and targets is the covariance of the control points.
pub proof fn lemma_moment_translated(
    ps: Seq<Vector>,
    qs: Seq<Vector>,
    t: Vector,
    v: Vector,
    n: nat,
)
    requires
        n <= ps.len(),
        ps.len() == qs.len(),
        forall|i: int| 0 <= i < ps.len() ==> qs[i] == ps[i].add(t),
        weight_sum(ps, v, ps.len()) != 0real,
    ensures
        moment(ps, qs, v, n) == moment(ps, ps, v, n),
    decreases n,
{
    if n > 0 {
        lemma_moment_translated(ps, qs, t, v, (n - 1) as nat);
        lemma_centroid_translated(ps, qs, t, v);
        assert(qs[n - 1] == ps[n - 1].add(t));
        lemma_sub_translated(ps[n - 1], centroid(ps, ps, v), t);
    }
}

/// Where all control points are the one point `c`, their weighted sum is `c`
/// times the sum of the weights.
pub proof fn lemma_weighted_sum_constant(ps: Seq<Vector>, c: Vector, v: Vector, n: nat)
    requires
        n <= ps.len(),
        forall|i: int| 0 <= i < ps.len() ==> ps[i] == c,
    ensures
        weighted_sum(ps, ps, v, n) == c.scale(weight_sum(ps, v, n)),
    decreases n,
{
    if n == 0 {
        lemma_scale_by_zero(c);
    } else {
        let m = (n - 1) as nat;
        lemma_weighted_sum_constant(ps, c, v, m);
        assert(ps[n - 1] == c);
        lemma_scale_sum(c, weight_sum(ps, v, m), weight(ps[n - 1], v));
    }
}

/// Where all control points are the one point `c`, every moment about their
/// centroid vanishes.
pub proof fn lemma_moment_constant(ps: Seq<Vector>, xs: Seq<Vector>, c: Vector, v: Vector, n: nat)
    requires
        n <= ps.len(),
        forall|i: int| 0 <= i < ps.len() ==> ps[i] == c,
        weight_sum(ps, v, ps.len()) != 0real,
    ensures
        moment(ps, xs, v, n) == Matrix::zero(),
    decreases n,
{
    if n > 0 {
        lemma_moment_constant(ps, xs, c, v, (n - 1) as nat);
        lemma_weighted_sum_constant(ps, c, v, ps.len());
        lemma_scale_cancel(c, weight_sum(ps, v, ps.len()));
        assert(centroid(ps, ps, v) == c);
        assert(ps[n - 1] == c);
        lemma_sub_self(c);
        lemma_zero_outer(xs[n - 1].sub(centroid(ps, xs, v)));
        lemma_zero_scale(weight(ps[n - 1], v));
        lemma_add_zero_matrix(Matrix::zero());
    }
}

/// Below any index at which a control point coincides with the query there
/// is a first such index.
pub proof fn lemma_first_exists(ps: Seq<Vector>, v: Vector, i: int)
    requires
        0 <= i < ps.len(),
        ps[i] == v,
    ensures
        has_coincident(ps, v),
        is_first_coincident(ps, v, first_coincident(ps, v)),
        first_coincident(ps, v) <= i,
    decreases i,
{
    if forall|j: int| 0 <= j < i ==> ps[j] != v {
        assert(is_first_coincident(ps, v, i));
        lemma_first_coincident_unique(ps, v, i);
    } else {
        let j = choose|j: int| 0 <= j < i && ps[j] == v;
        lemma_first_exists(ps, v, j);
    }
}

/// Exact interpolation: a query that lies on a control point is mapped to
/// the target of the first control point on which it lies.
pub proof fn law_exact_interpolation(ps: Seq<Vector>, qs: Seq<Vector>, v: Vector, i: int)
    requires
        ps.len() == qs.len(),
        0 <= i < ps.len(),
        ps[i] == v,
    ensures
        is_first_coincident(ps, v, first_coincident(ps, v)),
        first_coincident(ps, v) <= i,
        (forall|j: int| 0 <= j < i ==> ps[j] != v) ==> first_coincident(ps, v) == i,
        deform_model(ps, qs, v) == Ok::<Vector, DeformError>(qs[first_coincident(ps, v)]),
{
    lemma_first_exists(ps, v, i);
    if forall|j: int| 0 <= j < i ==> ps[j] != v {
        lemma_first_coincident_unique(ps, v, i);
    }
}

/// Identity law: where every target is its own control point, every query
/// that has an image at all is its own image.
pub proof fn law_identity(ps: Seq<Vector>, v: Vector)
    requires
        deform_model(ps, ps, v) is Ok,
    ensures
        deform_model(ps, ps, v) == Ok::<Vector, DeformError>(v),
{
    if has_coincident(ps, v) {
        let i = choose|i: int| 0 <= i < ps.len() && ps[i] == v;
        lemma_first_exists(ps, v, i);
    } else {
        lemma_inverse_cancels(covariance(ps, v));
        lemma_times_identity(v.sub(centroid(ps, ps, v)));
        lemma_sub_then_add(v, centroid(ps, ps, v));
    }
}

/// Translation law: where every target is its control point moved by `t`,
/// every query that has an image at all is mapped to itself moved by `t`.
pub proof fn law_translation(ps: Seq<Vector>, qs: Seq<Vector>, t: Vector, v: Vector)
    requires
        ps.len() == qs.len(),
        forall|i: int| 0 <= i < ps.len() ==> qs[i] == ps[i].add(t),
        deform_model(ps, qs, v) is Ok,
    ensures
        deform_model(ps, qs, v) == Ok::<Vector, DeformError>(v.add(t)),
{
    if has_coincident(ps, v) {
        let i = choose|i: int| 0 <= i < ps.len() && ps[i] == v;
        lemma_first_exists(ps, v, i);
    } else {
        lemma_weight_sum_positive(ps, v, ps.len());
        lemma_centroid_translated(ps, qs, t, v);
        lemma_moment_translated(ps, qs, t, v, ps.len());
        lemma_inverse_cancels(covariance(ps, v));
        lemma_times_identity(v.sub(centroid(ps, ps, v)));
        lemma_sub_then_add_translated(v, centroid(ps, ps, v), t);
    }
}

/// Degenerate detection: where all control points are the one point `c` and
/// the query is another point, the deformation has no image. It reports
/// invalid input where the shape of the input is wrong, and degenerate
/// geometry otherwise.
pub proof fn law_coincident_controls_are_degenerate(
    ps: Seq<Vector>,
    qs: Seq<Vector>,
    c: Vector,
    v: Vector,
)
    requires
        forall|i: int| 0 <= i < ps.len() ==> ps[i] == c,
        v != c,
    ensures
        deform_model(ps, qs, v) == Err::<Vector, DeformError>(
            if ps.len() == 0 || ps.len() != qs.len() {
                DeformError::InvalidInput
            } else {
                DeformError::DegenerateGeometry
            },
        ),
{
    if ps.len() > 0 && ps.len() == qs.len() {
        assert(!has_coincident(ps, v));
        lemma_weight_sum_positive(ps, v, ps.len());
        lemma_moment_constant(ps, ps, c, v, ps.len());
        lemma_zero_det();
    }
}

/// Determinism: the outcome is a function of the numbers that the inputs
/// denote. Two calls whose control points, targets and queries denote the
/// same vectors end alike: with the same error, or with points that denote
/// the same vector.
pub proof fn law_deterministic(
    controls_p1: Seq<Point>,
    controls_q1: Seq<Point>,
    point1: Point,
    outcome1: Result<Point, DeformError>,
    controls_p2: Seq<Point>,
    controls_q2: Seq<Point>,
    point2: Point,
    outcome2: Result<Point, DeformError>,
)
    requires
        points_view(controls_p1) == points_view(controls_p2),
        points_view(controls_q1) == points_view(controls_q2),
        point1@ == point2@,
        outcome_view(outcome1) == deform_model(
            points_view(controls_p1),
            points_view(controls_q1),
            point1@,
        ),
        outcome_view(outcome2) == deform_model(
            points_view(controls_p2),
            points_view(controls_q2),
            point2@,
        ),
    ensures
        outcome_view(outcome1) == outcome_view(outcome2),
{
}

} // verus!
