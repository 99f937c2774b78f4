use polyring::{Ring, RationalNumber, ScalesBy, Semiring};

#[test]
fn test_add_rational_numbers() {
    let a = RationalNumber::new(1, 2);
    let b = RationalNumber::new(1, 3);
    let c = a.add(&b);
    assert_eq!(c, RationalNumber::new(5, 6));
}

#[test]
fn test_sub_rational_numbers() {
    let a = RationalNumber::new(1, 2);
    let b = RationalNumber::new(1, 3);
    let c = a.sub(&b);
    assert_eq!(c, RationalNumber::new(1, 6));
}

#[test]
fn test_mul_rational_numbers() {
    let a = RationalNumber::new(3, 2);
    let b = RationalNumber::new(1, 3);
    let c = a.mul(&b);
    assert_eq!(c, RationalNumber::new(1, 2));
}

#[test]
fn test_zero_rational_numbers() {
    let a = RationalNumber::zero();
    assert_eq!(a, RationalNumber::new(0, 1));
}

#[test]
fn test_one_rational_numbers() {
    let a = RationalNumber::one();
    assert_eq!(a, RationalNumber::new(1, 1));
}

#[test]
fn test_normalize() {
    let a = RationalNumber::new(2, 4);
    assert_eq!(a, RationalNumber::new(1, 2));
}

#[test]
fn rational_new_reduces_to_lowest_terms() {
    let r = RationalNumber::new(2, 4);
    assert_eq!(r.numerator(), 1);
    assert_eq!(r.denominator(), 2);
}

#[test]
fn rational_negative_denominator_moves_sign() {
    let r = RationalNumber::new(3, -6);
    assert_eq!(r.numerator(), -1);
    assert_eq!(r.denominator(), 2);
    let s = RationalNumber::new(-4, -10);
    assert_eq!(s.numerator(), 2);
    assert_eq!(s.denominator(), 5);
}

#[test]
fn rational_zero_numerator_has_unit_denominator() {
    let r = RationalNumber::new(0, -7);
    assert_eq!(r.numerator(), 0);
    assert_eq!(r.denominator(), 1);
    assert!(r.is_zero());
}

#[test]
fn rational_neg_and_scale() {
    let r = RationalNumber::new(2, 3);
    assert_eq!(r.neg(), RationalNumber::new(-2, 3));
    assert_eq!(r.scale(&RationalNumber::new(3, 4)), RationalNumber::new(1, 2));
    assert!(!r.is_zero());
}

#[test]
fn rational_sub_to_zero() {
    let r = RationalNumber::new(5, 7);
    let z = r.sub(&r);
    assert_eq!(z, RationalNumber::zero());
    assert!(z.is_zero());
}
