use moving_least_squares::natural::Natural;

#[test]
fn zero_is_zero() {
    assert!(Natural::zero().is_zero());
    assert!(Natural::from_u64(0).is_zero());
    assert!(Natural::from_limbs(vec![0, 0, 0]).is_zero());
    assert!(!Natural::from_u64(1).is_zero());
    assert!(!Natural::from_limbs(vec![0, 0, 7]).is_zero());
}

#[test]
fn from_u64_splits_into_two_limbs() {
    let n = Natural::from_u64(0x1234_5678_9abc_def0);
    assert!(n.eq(&Natural::from_limbs(vec![0x9abc_def0, 0x1234_5678])));
    assert!(!n.eq(&Natural::from_limbs(vec![0x1234_5678, 0x9abc_def0])));
}

#[test]
fn limbs_round_trip() {
    let n = Natural::from_limbs(vec![5, 6, 7]);
    assert_eq!(n.to_limbs(), vec![5, 6, 7]);
}

#[test]
fn leading_zero_limbs_do_not_change_the_number() {
    let a = Natural::from_limbs(vec![9, 0, 0, 0]);
    let b = Natural::from_u64(9);
    assert!(a.eq(&b));
    assert!(!a.lt(&b));
    assert!(!b.lt(&a));
}

#[test]
fn sum_carries_into_a_new_limb() {
    let a = Natural::from_limbs(vec![0xffff_ffff, 0xffff_ffff]);
    let b = Natural::from_u64(1);
    let s = a.add(&b);
    assert!(s.eq(&Natural::from_limbs(vec![0, 0, 1])));
}

#[test]
fn sum_of_numbers_of_different_lengths() {
    let a = Natural::from_limbs(vec![1, 2, 3]);
    let b = Natural::from_limbs(vec![0xffff_ffff]);
    assert!(a.add(&b).eq(&Natural::from_limbs(vec![0, 3, 3])));
    assert!(b.add(&a).eq(&Natural::from_limbs(vec![0, 3, 3])));
}

#[test]
fn product_carries_across_limbs() {
    let a = Natural::from_u64(0xffff_ffff_ffff_ffff);
    let p = a.mul(&a);
    // (2^64 - 1)^2 = 2^128 - 2^65 + 1
    assert!(p.eq(&Natural::from_limbs(vec![1, 0, 0xffff_fffe, 0xffff_ffff])));
}

#[test]
fn product_with_zero_and_one() {
    let a = Natural::from_limbs(vec![3, 4, 5]);
    assert!(a.mul(&Natural::zero()).is_zero());
    assert!(Natural::zero().mul(&a).is_zero());
    assert!(a.mul(&Natural::from_u64(1)).eq(&a));
}

#[test]
fn product_of_small_numbers() {
    let p = Natural::from_u64(123_456_789).mul(&Natural::from_u64(987_654_321));
    assert!(p.eq(&Natural::from_u64(121_932_631_112_635_269)));
}

#[test]
fn order_looks_at_the_top_limb_first() {
    let small = Natural::from_limbs(vec![0xffff_ffff, 1]);
    let large = Natural::from_limbs(vec![0, 2]);
    assert!(small.lt(&large));
    assert!(!large.lt(&small));
    assert!(!small.lt(&small));
}

#[test]
fn absolute_difference_borrows_across_limbs() {
    let a = Natural::from_limbs(vec![0, 0, 1]);
    let b = Natural::from_u64(1);
    let (d, smaller) = a.abs_diff(&b);
    assert!(!smaller);
    assert!(d.eq(&Natural::from_limbs(vec![0xffff_ffff, 0xffff_ffff])));
    let (d, smaller) = b.abs_diff(&a);
    assert!(smaller);
    assert!(d.eq(&Natural::from_limbs(vec![0xffff_ffff, 0xffff_ffff])));
}

#[test]
fn absolute_difference_of_equal_numbers_is_zero() {
    let a = Natural::from_limbs(vec![7, 8]);
    let (d, smaller) = a.abs_diff(&Natural::from_limbs(vec![7, 8, 0]));
    assert!(!smaller);
    assert!(d.is_zero());
}

#[test]
fn clone_keeps_the_number() {
    let a = Natural::from_limbs(vec![1, 2, 3]);
    assert!(a.clone().eq(&a));
}
