use moving_least_squares::deform::{deform_affine, first_coincident_index, DeformError};
use moving_least_squares::point::Point;
use moving_least_squares::scalar::Scalar;

fn ratio(num: i64, den: i64) -> Scalar {
    Scalar::from_ratio(num, den).unwrap()
}

fn point(x: i64, y: i64) -> Point {
    Point::new(Scalar::from_i64(x), Scalar::from_i64(y))
}

fn same(a: &Point, x: Scalar, y: Scalar) -> bool {
    a.x.eq(&x) && a.y.eq(&y)
}

fn triangle() -> Vec<Point> {
    vec![point(0, 0), point(1, 0), point(0, 1)]
}

#[test]
fn identity_controls_leave_the_query_in_place() {
    let v = Point::new(ratio(1, 2), ratio(1, 2));
    let r = deform_affine(&triangle(), &triangle(), v, Scalar::zero()).unwrap();
    assert!(same(&r, ratio(1, 2), ratio(1, 2)));
}

#[test]
fn translated_controls_translate_the_query() {
    let q = vec![point(2, 3), point(3, 3), point(2, 4)];
    let v = Point::new(ratio(1, 2), ratio(1, 2));
    let r = deform_affine(&triangle(), &q, v, Scalar::zero()).unwrap();
    assert!(same(&r, ratio(5, 2), ratio(7, 2)));
}

#[test]
fn query_on_a_control_point_takes_its_target() {
    let p = vec![point(0, 0)];
    let q = vec![point(5, 5)];
    let r = deform_affine(&p, &q, point(0, 0), Scalar::zero()).unwrap();
    assert!(same(&r, Scalar::from_i64(5), Scalar::from_i64(5)));
}

#[test]
fn duplicate_controls_are_degenerate() {
    let p = vec![point(0, 0), point(0, 0)];
    let q = vec![point(1, 2), point(3, 4)];
    let r = deform_affine(&p, &q, point(7, -3), Scalar::zero());
    assert_eq!(r.err(), Some(DeformError::DegenerateGeometry));
}

#[test]
fn query_on_duplicate_controls_takes_the_first_target() {
    let p = vec![point(1, 1), point(0, 0), point(0, 0)];
    let q = vec![point(9, 9), point(1, 2), point(3, 4)];
    let r = deform_affine(&p, &q, point(0, 0), Scalar::zero()).unwrap();
    assert!(same(&r, Scalar::from_i64(1), Scalar::from_i64(2)));
}

#[test]
fn query_on_the_last_control_point() {
    let q = vec![point(7, 7), point(8, 8), point(-3, 5)];
    let r = deform_affine(&triangle(), &q, point(0, 1), Scalar::zero()).unwrap();
    assert!(same(&r, Scalar::from_i64(-3), Scalar::from_i64(5)));
}

#[test]
fn coincidence_does_not_depend_on_how_a_number_is_written() {
    let p = vec![Point::new(ratio(2, 4), ratio(-3, 6)), point(1, 0), point(0, 1)];
    let q = vec![point(4, 4), point(5, 5), point(6, 6)];
    let v = Point::new(ratio(1, 2), ratio(1, -2));
    let r = deform_affine(&p, &q, v, Scalar::zero()).unwrap();
    assert!(same(&r, Scalar::from_i64(4), Scalar::from_i64(4)));
}

#[test]
fn no_control_point_is_invalid() {
    let none: Vec<Point> = Vec::new();
    let r = deform_affine(&none, &none, point(0, 0), Scalar::zero());
    assert_eq!(r.err(), Some(DeformError::InvalidInput));
}

#[test]
fn different_numbers_of_controls_and_targets_are_invalid() {
    let q = vec![point(0, 0), point(1, 0)];
    let r = deform_affine(&triangle(), &q, point(5, 5), Scalar::zero());
    assert_eq!(r.err(), Some(DeformError::InvalidInput));
    let r = deform_affine(&q, &triangle(), point(5, 5), Scalar::zero());
    assert_eq!(r.err(), Some(DeformError::InvalidInput));
}

#[test]
fn shape_is_checked_before_coincidence() {
    let q = vec![point(0, 0)];
    let r = deform_affine(&triangle(), &q, point(0, 0), Scalar::zero());
    assert_eq!(r.err(), Some(DeformError::InvalidInput));
}

#[test]
fn a_single_control_point_away_from_the_query_is_degenerate() {
    let p = vec![point(0, 0)];
    let q = vec![point(5, 5)];
    let r = deform_affine(&p, &q, point(1, 1), Scalar::zero());
    assert_eq!(r.err(), Some(DeformError::DegenerateGeometry));
}

#[test]
fn collinear_controls_are_degenerate() {
    let p = vec![point(0, 0), point(1, 1), point(2, 2)];
    let q = vec![point(0, 0), point(2, 0), point(0, 1)];
    let r = deform_affine(&p, &q, point(5, 0), Scalar::zero());
    assert_eq!(r.err(), Some(DeformError::DegenerateGeometry));
}

#[test]
fn an_affine_map_of_the_controls_is_reproduced() {
    // The targets stretch the plane by two along x.
    let q = vec![point(0, 0), point(2, 0), point(0, 1)];
    let v = Point::new(ratio(1, 2), ratio(1, 2));
    let r = deform_affine(&triangle(), &q, v, Scalar::zero()).unwrap();
    assert!(same(&r, Scalar::from_i64(1), ratio(1, 2)));
}

#[test]
fn one_displaced_corner_of_a_square() {
    let p = vec![point(0, 0), point(1, 0), point(0, 1), point(1, 1)];
    let q = vec![point(0, 0), point(1, 0), point(0, 1), point(2, 2)];
    let v = Point::new(ratio(1, 2), ratio(1, 4));
    let r = deform_affine(&p, &q, v, Scalar::zero()).unwrap();
    assert!(same(&r, ratio(5, 8), ratio(3, 8)));
    let r = deform_affine(&p, &q, point(3, -2), Scalar::zero()).unwrap();
    assert!(same(&r, ratio(36, 13), ratio(-29, 13)));
}

#[test]
fn the_reserved_threshold_changes_nothing() {
    let p = vec![point(0, 0), point(1, 0), point(0, 1), point(1, 1)];
    let q = vec![point(0, 0), point(1, 0), point(0, 1), point(2, 2)];
    let near = Point::new(ratio(1, 1000), ratio(1, 1000));
    let r = deform_affine(&p, &q, near, Scalar::from_i64(1_000_000)).unwrap();
    let near = Point::new(ratio(1, 1000), ratio(1, 1000));
    let s = deform_affine(&p, &q, near, Scalar::zero()).unwrap();
    assert!(r.eq(&s));
    assert!(!r.eq(&point(0, 0)));
}

#[test]
fn repeated_calls_agree() {
    let p = vec![point(0, 0), point(1, 0), point(0, 1), point(1, 1)];
    let q = vec![point(0, 0), point(1, 0), point(0, 1), point(2, 2)];
    let a = deform_affine(&p, &q, point(3, -2), Scalar::zero()).unwrap();
    let b = deform_affine(&p, &q, point(3, -2), Scalar::zero()).unwrap();
    assert!(a.eq(&b));
    assert_eq!(a.x.numerator().to_limbs(), b.x.numerator().to_limbs());
    assert_eq!(a.x.denominator().to_limbs(), b.x.denominator().to_limbs());
    assert_eq!(a.y.numerator().to_limbs(), b.y.numerator().to_limbs());
    assert_eq!(a.y.denominator().to_limbs(), b.y.denominator().to_limbs());
}

#[test]
fn translation_of_many_controls_far_from_the_origin() {
    let coords: [(i64, i64); 8] = [
        (120, 45), (873, 12), (400, 999), (15, 640),
        (512, 512), (77, 301), (950, 720), (333, 58),
    ];
    let p: Vec<Point> = coords.iter().map(|&(x, y)| point(x, y)).collect();
    let q: Vec<Point> = coords.iter().map(|&(x, y)| point(x - 40, y + 25)).collect();
    let r = deform_affine(&p, &q, point(333, 777), Scalar::zero()).unwrap();
    assert!(same(&r, Scalar::from_i64(293), Scalar::from_i64(802)));
}

#[test]
fn first_coincident_index_is_the_smallest() {
    let p = vec![point(1, 1), point(0, 0), point(0, 0), point(1, 1)];
    assert_eq!(first_coincident_index(&p, &point(0, 0)), Some(1));
    assert_eq!(first_coincident_index(&p, &point(1, 1)), Some(0));
    assert_eq!(first_coincident_index(&p, &point(2, 2)), None);
    let none: Vec<Point> = Vec::new();
    assert_eq!(first_coincident_index(&none, &point(0, 0)), None);
}
