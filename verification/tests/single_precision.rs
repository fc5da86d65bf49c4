use moving_least_squares::deform::{deform_affine, DeformError};
use moving_least_squares::natural::Natural;
use moving_least_squares::point::Point;
use moving_least_squares::scalar::Scalar;

fn shifted(m: u32, k: u32) -> Natural {
    let mut limbs = vec![0u32; (k / 32) as usize];
    let wide = u64::from(m) << (k % 32);
    limbs.push(wide as u32);
    limbs.push((wide >> 32) as u32);
    Natural::from_limbs(limbs)
}

fn exact(x: f32) -> Scalar {
    assert!(x.is_finite());
    let bits = x.to_bits();
    let negative = bits >> 31 == 1;
    let exponent = ((bits >> 23) & 0xff) as i32;
    let fraction = bits & 0x007f_ffff;
    let (mantissa, power) = if exponent == 0 {
        (fraction, -149)
    } else {
        (fraction | 0x0080_0000, exponent - 150)
    };
    let (num, den) = if power >= 0 {
        (shifted(mantissa, power as u32), Natural::from_u64(1))
    } else {
        (Natural::from_u64(u64::from(mantissa)), shifted(1, power.unsigned_abs()))
    };
    Scalar::new(negative, num, den).unwrap()
}

fn leading(limbs: &[u32]) -> (f64, i32) {
    let used = limbs.iter().rposition(|&limb| limb != 0).map_or(0, |top| top + 1);
    let low = used.saturating_sub(3);
    let mut head: u128 = 0;
    for &limb in limbs[low..used].iter().rev() {
        head = (head << 32) | u128::from(limb);
    }
    (head as f64, 32 * low as i32)
}

fn rounded(s: &Scalar) -> f32 {
    let (num, num_power) = leading(&s.numerator().to_limbs());
    let (den, den_power) = leading(&s.denominator().to_limbs());
    let magnitude = (num / den) * 2f64.powi(num_power - den_power);
    let value = if s.is_negative() { -magnitude } else { magnitude };
    value as f32
}

fn points(pairs: &[(f32, f32)]) -> Vec<Point> {
    pairs.iter().map(|&(x, y)| Point::from((exact(x), exact(y)))).collect()
}

fn deform(p: &[(f32, f32)], q: &[(f32, f32)], v: (f32, f32)) -> Result<(f32, f32), DeformError> {
    let image = deform_affine(
        &points(p),
        &points(q),
        Point::from((exact(v.0), exact(v.1))),
        Scalar::zero(),
    )?;
    Ok((rounded(&image.x), rounded(&image.y)))
}

#[test]
fn single_precision_numbers_are_taken_exactly() {
    assert!(exact(0.5).eq(&Scalar::from_ratio(1, 2).unwrap()));
    assert!(exact(-0.375).eq(&Scalar::from_ratio(-3, 8).unwrap()));
    assert!(exact(0.0).is_zero());
    assert!(exact(-0.0).is_zero());
    assert!(exact(16_777_216.0).eq(&Scalar::from_i64(16_777_216)));
    // 0.1 is not one tenth in binary.
    assert!(!exact(0.1).eq(&Scalar::from_ratio(1, 10).unwrap()));
    assert!(exact(0.1).eq(&Scalar::from_ratio(13_421_773, 134_217_728).unwrap()));
}

#[test]
fn single_precision_extremes_are_taken_exactly() {
    // The largest finite value is (2^24 - 1) * 2^104.
    let max = exact(f32::MAX);
    let expected = Scalar::new(false, shifted(0x00ff_ffff, 104), Natural::from_u64(1)).unwrap();
    assert!(max.eq(&expected));
    // The smallest positive value is 2^-149.
    let tiny = exact(f32::from_bits(1));
    let expected = Scalar::new(false, Natural::from_u64(1), shifted(1, 149)).unwrap();
    assert!(tiny.eq(&expected));
    assert!(tiny.mul(&exact(f32::MAX)).eq(&Scalar::from_ratio(0x00ff_ffff, 1 << 45).unwrap()));
}

#[test]
fn rounding_returns_the_number_taken() {
    for x in [0.0f32, 1.0, -1.0, 0.1, -123.456, 3.0e38, 1.0e-40, f32::MAX, f32::MIN_POSITIVE] {
        assert_eq!(rounded(&exact(x)), x);
    }
    assert_eq!(rounded(&Scalar::from_ratio(1, 3).unwrap()), 1.0f32 / 3.0);
    assert_eq!(rounded(&Scalar::from_ratio(-2, 3).unwrap()), -2.0f32 / 3.0);
}

#[test]
fn identity_in_single_precision() {
    let p = [(0.0, 0.0), (1.0, 0.0), (0.0, 1.0)];
    assert_eq!(deform(&p, &p, (0.5, 0.5)), Ok((0.5, 0.5)));
}

#[test]
fn translation_in_single_precision() {
    let p = [(0.0, 0.0), (1.0, 0.0), (0.0, 1.0)];
    let q = [(2.0, 3.0), (3.0, 3.0), (2.0, 4.0)];
    assert_eq!(deform(&p, &q, (0.5, 0.5)), Ok((2.5, 3.5)));
}

#[test]
fn coincidence_in_single_precision() {
    assert_eq!(deform(&[(0.0, 0.0)], &[(5.0, 5.0)], (0.0, 0.0)), Ok((5.0, 5.0)));
}

#[test]
fn degenerate_in_single_precision() {
    let p = [(0.0, 0.0), (0.0, 0.0)];
    let q = [(1.0, 2.0), (3.0, 4.0)];
    assert_eq!(deform(&p, &q, (0.25, 0.75)), Err(DeformError::DegenerateGeometry));
}

#[test]
fn identity_holds_where_single_precision_arithmetic_would_round() {
    let p = [(0.1, 0.2), (0.7, 0.3), (0.4, 0.9), (0.8, 0.8)];
    assert_eq!(deform(&p, &p, (0.3, 0.6)), Ok((0.3, 0.6)));
}
