use polyring::{NaturalNumber, ScalesBy, Semiring};

#[test]
fn test_add_natural_numbers() {
    let a = NaturalNumber::new(5);
    let b = NaturalNumber::new(3);
    let c = a.add(&b);
    assert_eq!(c, NaturalNumber::new(8));
}

#[test]
fn test_mul_natural_numbers() {
    let a = NaturalNumber::new(5);
    let b = NaturalNumber::new(3);
    let c = a.mul(&b);
    assert_eq!(c, NaturalNumber::new(15));
}

#[test]
fn test_zero_natural_numbers() {
    let a = NaturalNumber::zero();
    assert_eq!(a, NaturalNumber::new(0));
}

#[test]
fn test_is_zero_natural_numbers() {
    let a = NaturalNumber::zero();
    assert!(a.is_zero());
}

#[test]
fn test_one_natural_numbers() {
    let a = NaturalNumber::one();
    assert_eq!(a, NaturalNumber::new(1));
}

#[test]
fn natural_number_value_round_trip() {
    assert_eq!(NaturalNumber::new(42).val(), 42);
    assert_eq!(NaturalNumber::new(u64::MAX).val(), u64::MAX);
}

#[test]
fn natural_number_add_at_the_largest_value() {
    let a = NaturalNumber::new(u64::MAX - 1);
    assert_eq!(a.add(&NaturalNumber::one()), NaturalNumber::new(u64::MAX));
    assert!(!NaturalNumber::one().is_zero());
}

#[test]
fn natural_number_scale() {
    assert_eq!(
        NaturalNumber::new(6).scale(&NaturalNumber::new(7)),
        NaturalNumber::new(42)
    );
}
