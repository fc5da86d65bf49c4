use moving_least_squares::natural::Natural;
use moving_least_squares::scalar::Scalar;

fn ratio(num: i64, den: i64) -> Scalar {
    Scalar::from_ratio(num, den).unwrap()
}

#[test]
fn zero_scalar_is_zero() {
    assert!(Scalar::zero().is_zero());
    assert!(Scalar::from_i64(0).is_zero());
    assert!(ratio(0, -5).is_zero());
    assert!(!ratio(1, 1_000_000).is_zero());
}

#[test]
fn ratio_with_zero_denominator_is_refused() {
    assert!(Scalar::from_ratio(1, 0).is_none());
    assert!(Scalar::from_ratio(0, 0).is_none());
    assert!(Scalar::new(false, Natural::from_u64(1), Natural::zero()).is_none());
}

#[test]
fn equal_numbers_in_different_terms_are_equal() {
    assert!(ratio(2, 4).eq(&ratio(1, 2)));
    assert!(ratio(-3, 6).eq(&ratio(1, -2)));
    assert!(ratio(-1, -2).eq(&ratio(1, 2)));
    assert!(!ratio(1, 2).eq(&ratio(-1, 2)));
    assert!(!ratio(1, 2).eq(&ratio(1, 3)));
}

#[test]
fn negative_zero_is_zero() {
    let z = Scalar::zero().neg();
    assert!(z.is_zero());
    assert!(z.eq(&Scalar::zero()));
}

#[test]
fn extreme_machine_words() {
    let min = Scalar::from_i64(i64::MIN);
    let max = Scalar::from_i64(i64::MAX);
    // MIN + MAX = -1
    assert!(min.add(&max).eq(&Scalar::from_i64(-1)));
    assert!(min.numerator().eq(&Natural::from_limbs(vec![0, 0x8000_0000])));
    assert!(min.is_negative());
    assert!(!max.is_negative());
}

#[test]
fn half_plus_third() {
    let sum = ratio(1, 2).add(&ratio(1, 3));
    assert!(sum.eq(&ratio(5, 6)));
}

#[test]
fn sums_of_mixed_signs() {
    assert!(ratio(1, 2).add(&ratio(-1, 3)).eq(&ratio(1, 6)));
    assert!(ratio(-1, 2).add(&ratio(1, 3)).eq(&ratio(-1, 6)));
    assert!(ratio(1, 3).add(&ratio(-1, 2)).eq(&ratio(-1, 6)));
    assert!(ratio(-1, 2).add(&ratio(-1, 3)).eq(&ratio(-5, 6)));
    assert!(ratio(3, 7).add(&ratio(-3, 7)).is_zero());
}

#[test]
fn sums_over_a_shared_denominator() {
    assert!(ratio(1, 7).add(&ratio(2, 7)).eq(&ratio(3, 7)));
    assert!(ratio(1, 7).add(&ratio(-3, 7)).eq(&ratio(-2, 7)));
}

#[test]
fn difference_is_sum_with_the_negation() {
    assert!(ratio(1, 2).sub(&ratio(1, 3)).eq(&ratio(1, 6)));
    assert!(ratio(1, 3).sub(&ratio(1, 2)).eq(&ratio(-1, 6)));
    assert!(ratio(-1, 3).sub(&ratio(-1, 3)).is_zero());
}

#[test]
fn product_multiplies_signs() {
    assert!(ratio(2, 3).mul(&ratio(3, 4)).eq(&ratio(1, 2)));
    assert!(ratio(-2, 3).mul(&ratio(3, 4)).eq(&ratio(-1, 2)));
    assert!(ratio(-2, 3).mul(&ratio(-3, 4)).eq(&ratio(1, 2)));
    assert!(ratio(2, 3).mul(&Scalar::zero()).is_zero());
}

#[test]
fn reciprocal_swaps_the_parts() {
    assert!(ratio(2, 3).recip().unwrap().eq(&ratio(3, 2)));
    assert!(ratio(-2, 3).recip().unwrap().eq(&ratio(-3, 2)));
    assert!(Scalar::zero().recip().is_none());
}

#[test]
fn quotient_and_division_by_zero() {
    assert!(ratio(1, 2).div(&ratio(1, 4)).unwrap().eq(&Scalar::from_i64(2)));
    assert!(ratio(1, 2).div(&ratio(-1, 4)).unwrap().eq(&Scalar::from_i64(-2)));
    assert!(ratio(1, 2).div(&Scalar::zero()).is_none());
}

#[test]
fn negation_flips_the_sign() {
    assert!(ratio(1, 2).neg().eq(&ratio(-1, 2)));
    assert!(ratio(-1, 2).neg().eq(&ratio(1, 2)));
}

#[test]
fn parts_of_a_scalar_built_from_parts() {
    let s = Scalar::new(true, Natural::from_u64(6), Natural::from_u64(8)).unwrap();
    assert!(s.is_negative());
    assert!(s.numerator().eq(&Natural::from_u64(6)));
    assert!(s.denominator().eq(&Natural::from_u64(8)));
    assert!(s.eq(&ratio(-3, 4)));
}

#[test]
fn numbers_beyond_a_machine_word() {
    // 2^100 / 2^98 = 4
    let num = Natural::from_limbs(vec![0, 0, 0, 16]);
    let den = Natural::from_limbs(vec![0, 0, 0, 4]);
    let s = Scalar::new(false, num, den).unwrap();
    assert!(s.eq(&Scalar::from_i64(4)));
    assert!(s.mul(&s).eq(&Scalar::from_i64(16)));
}

#[test]
fn clone_keeps_the_scalar() {
    let s = ratio(-7, 9);
    assert!(s.clone().eq(&s));
    assert!(s.clone().is_negative());
}
