use third_person_scene::root::ceil_sqrt_u128;
use third_person_scene::vector::{Vec3, ONE, SPAN};

#[test]
fn roots_round_up() {
    assert_eq!(ceil_sqrt_u128(0), 0);
    assert_eq!(ceil_sqrt_u128(1), 1);
    assert_eq!(ceil_sqrt_u128(2), 2);
    assert_eq!(ceil_sqrt_u128(3), 2);
    assert_eq!(ceil_sqrt_u128(4), 2);
    assert_eq!(ceil_sqrt_u128(5), 3);
    assert_eq!(ceil_sqrt_u128(9), 3);
    assert_eq!(ceil_sqrt_u128(10), 4);
    assert_eq!(ceil_sqrt_u128(16), 4);
    assert_eq!(ceil_sqrt_u128(17), 5);
    assert_eq!(ceil_sqrt_u128(1_000_000_000_000), 1_000_000);
    assert_eq!(ceil_sqrt_u128(2_000_000_000_000_000_000_000_000), 1_414_213_562_374);
}

#[test]
fn roots_of_the_largest_numbers() {
    assert_eq!(ceil_sqrt_u128(1 << 64), 1 << 32);
    let largest: u128 = u64::MAX as u128;
    assert_eq!(ceil_sqrt_u128(largest * largest), largest);
    assert_eq!(ceil_sqrt_u128(largest * largest + 1), largest + 1);
    assert_eq!(ceil_sqrt_u128(u128::MAX), largest + 1);
}

#[test]
fn unit_vectors_have_length_one() {
    assert_eq!(Vec3::new(ONE, 0, ONE).unit(), Vec3::new(707_106, 0, 707_106));
    assert_eq!(Vec3::new(-ONE, 0, ONE).unit(), Vec3::new(-707_106, 0, 707_106));
    assert_eq!(Vec3::new(3, 0, 4).unit(), Vec3::new(600_000, 0, 800_000));
    assert_eq!(Vec3::new(-600_000, 0, 800_000).unit(), Vec3::new(-600_000, 0, 800_000));
    assert_eq!(Vec3::new(1, 2, 2).unit(), Vec3::new(333_333, 666_666, 666_666));
    assert_eq!(Vec3::new(ONE, -ONE, ONE).unit(), Vec3::new(577_350, -577_350, 577_350));
    assert_eq!(Vec3::new(1, 0, 1).unit(), Vec3::new(707_106, 0, 707_106));
}

#[test]
fn unit_vectors_along_an_axis_are_exact() {
    assert_eq!(Vec3::new(0, 0, -5).unit(), Vec3::new(0, 0, -ONE));
    assert_eq!(Vec3::new(2 * ONE, 0, 0).unit(), Vec3::new(ONE, 0, 0));
    assert_eq!(Vec3::new(0, 1, 0).unit(), Vec3::new(0, ONE, 0));
    assert_eq!(Vec3::new(-SPAN, 0, 0).unit(), Vec3::new(-ONE, 0, 0));
}

#[test]
fn the_unit_vector_of_nothing_is_nothing() {
    assert_eq!(Vec3::zero().unit(), Vec3::zero());
}

#[test]
fn unit_vectors_of_the_longest_vectors() {
    assert_eq!(Vec3::new(SPAN, SPAN, SPAN).unit(), Vec3::new(577_350, 577_350, 577_350));
    assert_eq!(Vec3::new(-SPAN, SPAN, -SPAN).unit(), Vec3::new(-577_350, 577_350, -577_350));
    assert_eq!(Vec3::new(1, 0, 10_000_000).unit(), Vec3::new(0, 0, 999_999));
}

#[test]
fn scaling_rounds_toward_zero() {
    assert_eq!(Vec3::new(707_106, 0, 707_106).scaled(1_000_000), Vec3::new(707_106, 0, 707_106));
    assert_eq!(Vec3::new(707_106, 0, -707_106).scaled(33_334), Vec3::new(23_570, 0, -23_570));
    assert_eq!(Vec3::new(-1, 0, 1).scaled(999_999), Vec3::zero());
    assert_eq!(Vec3::new(ONE, -ONE, 0).scaled(0), Vec3::zero());
    assert_eq!(Vec3::new(500_000, 0, -500_000).scaled(3), Vec3::new(1, 0, -1));
    assert_eq!(Vec3::new(ONE, 0, -ONE).scaled(i64::MAX as u64), Vec3::new(i64::MAX, 0, -i64::MAX));
}

#[test]
fn vectors_add_and_turn_about() {
    let v = Vec3::new(1, -2, 3);
    assert_eq!(v.plus(Vec3::new(10, 20, -30)), Vec3::new(11, 18, -27));
    assert_eq!(v.plus(v.negated()), Vec3::zero());
    assert_eq!(v.negated(), Vec3::new(-1, 2, -3));
    assert_eq!(v.flat(), Vec3::new(1, 0, 3));
    assert_eq!(Vec3::new(i64::MAX, 0, i64::MIN).plus(Vec3::new(0, 0, 0)), Vec3::new(i64::MAX, 0, i64::MIN));
    assert_eq!(Vec3::new(i64::MAX, 0, -i64::MAX).negated(), Vec3::new(-i64::MAX, 0, i64::MAX));
}

#[test]
fn zero_is_zero() {
    assert!(Vec3::zero().is_zero());
    assert_eq!(Vec3::zero(), Vec3::new(0, 0, 0));
    assert!(!Vec3::new(0, 0, 1).is_zero());
    assert!(!Vec3::new(0, -1, 0).is_zero());
    assert!(!Vec3::new(1, 0, 0).is_zero());
}

#[test]
fn within_looks_at_each_coordinate() {
    assert!(Vec3::new(ONE, -ONE, 0).within(ONE));
    assert!(!Vec3::new(ONE + 1, 0, 0).within(ONE));
    assert!(!Vec3::new(0, -ONE - 1, 0).within(ONE));
    assert!(!Vec3::new(0, 0, ONE + 1).within(ONE));
    assert!(Vec3::zero().within(0));
    assert!(!Vec3::zero().within(-1));
    assert!(!Vec3::new(i64::MIN, 0, 0).within(i64::MAX));
    assert!(Vec3::new(-i64::MAX, i64::MAX, 0).within(i64::MAX));
}
