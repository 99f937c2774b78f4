use polyring::{NaturalNumber, Polynomial, Ring, ScalesBy, Semiring, SquareMatrix};

fn x_squared_plus_x_plus_one() -> Polynomial<i32> {
    let x = Polynomial::<i32>::x();
    let x2 = Polynomial::<i32>::x_pow(2);
    x2.add(&x).add(&Polynomial::from_constant(1))
}

fn x_minus_one() -> Polynomial<i32> {
    Polynomial::<i32>::x().add(&Polynomial::from_constant(-1))
}

#[test]
fn composition_substitutes_a_polynomial() {
    let square_plus = x_squared_plus_x_plus_one();
    let x_less_one = x_minus_one();
    assert_eq!(square_plus.eval(x_less_one.clone()), Polynomial::from_vector(vec![1, -1, 1]));
    assert_eq!(x_less_one.eval(square_plus), Polynomial::from_vector(vec![0, 1, 1]));
}

#[test]
fn evaluation_at_an_integer() {
    let square_plus = x_squared_plus_x_plus_one();
    assert_eq!(square_plus.eval(2), 7);
    let p = Polynomial::from_vector(vec![1, 2, 3]);
    assert_eq!(p.eval(2), 17);
}

#[test]
fn from_vector_drops_trailing_zero() {
    assert_eq!(
        Polynomial::from_vector(vec![1, 2, 3, 0]),
        Polynomial::from_vector(vec![1, 2, 3])
    );
}

#[test]
fn from_vector_of_zeros_is_zero_polynomial() {
    let p = Polynomial::from_vector(vec![0, 0, 0]);
    assert_eq!(p, Polynomial::<i32>::zero());
    assert!(p.is_zero());
    let empty = Polynomial::<i32>::from_vector(vec![]);
    assert_eq!(empty, Polynomial::from_constant(0));
}

#[test]
fn normalize_is_idempotent() {
    let mut p = Polynomial::from_vector(vec![4, 0, 5, 0, 0]);
    let once = p.clone();
    p.normalize();
    assert_eq!(p, once);
    assert_eq!(p, Polynomial::from_vector(vec![4, 0, 5]));
}

#[test]
fn add_is_commutative_and_cancels_to_normal_form() {
    let p = Polynomial::from_vector(vec![1, 2, 3]);
    let q = Polynomial::from_vector(vec![4, 5, -3]);
    assert_eq!(p.add(&q), q.add(&p));
    assert_eq!(p.add(&q), Polynomial::from_vector(vec![5, 7]));
    let r = Polynomial::from_vector(vec![0, 0, 0, 9]);
    assert_eq!(p.add(&q).add(&r), p.add(&q.add(&r)));
    assert_eq!(p.add(&Polynomial::zero()), p);
}

#[test]
fn sub_and_neg() {
    let p = Polynomial::from_vector(vec![1, 2, 3]);
    let q = Polynomial::from_vector(vec![1, 5, 3]);
    assert_eq!(p.sub(&q), Polynomial::from_vector(vec![0, -3]));
    assert_eq!(p.sub(&p), Polynomial::zero());
    assert_eq!(p.neg(), Polynomial::from_vector(vec![-1, -2, -3]));
    assert_eq!(p.add(&q.neg()), p.sub(&q));
}

#[test]
fn multiplication_is_convolution() {
    let p = Polynomial::from_vector(vec![1, 1]);
    let q = Polynomial::from_vector(vec![-1, 1]);
    assert_eq!(p.mul(&q), Polynomial::from_vector(vec![-1, 0, 1]));
    let r = Polynomial::from_vector(vec![1, 2, 3]);
    assert_eq!(r.mul(&Polynomial::one()), r);
    assert_eq!(r.mul(&Polynomial::zero()), Polynomial::zero());
}

#[test]
fn multiplication_length_with_cancelling_leading_coefficients() {
    let a = SquareMatrix::new([[1, 0], [0, 0]]);
    let b = SquareMatrix::new([[0, 0], [0, 1]]);
    let one = SquareMatrix::<i32, 2>::one();
    let p = Polynomial::from_vector(vec![one, a]);
    let q = Polynomial::from_vector(vec![one, b]);
    let prod = p.mul(&q);
    assert_eq!(prod, Polynomial::from_vector(vec![one, SquareMatrix::new([[1, 0], [0, 1]])]));
    let full = Polynomial::from_vector(vec![1, 2]).mul(&Polynomial::from_vector(vec![3, 4, 5]));
    assert_eq!(full, Polynomial::from_vector(vec![3, 10, 13, 10]));
}

#[test]
fn power_matches_repeated_multiplication() {
    let p = Polynomial::from_vector(vec![1, 1]);
    assert_eq!(p.pow(0), Polynomial::one());
    assert_eq!(Polynomial::<i32>::zero().pow(0), Polynomial::one());
    assert_eq!(p.pow(1), p);
    assert_eq!(p.pow(3), Polynomial::from_vector(vec![1, 3, 3, 1]));
    assert_eq!(p.pow(2).mul(&p.pow(3)), p.pow(5));
    assert_eq!(p.pow(5), Polynomial::from_vector(vec![1, 5, 10, 10, 5, 1]));
}

#[test]
fn evaluation_is_additive_and_multiplicative() {
    let p = Polynomial::from_vector(vec![2, 0, 1]);
    let q = Polynomial::from_vector(vec![-1, 3]);
    let x = 3;
    assert_eq!(p.add(&q).eval(x), p.eval(x) + q.eval(x));
    assert_eq!(p.mul(&q).eval(x), p.eval(x) * q.eval(x));
}

#[test]
fn constant_term_add_and_sub() {
    let p = Polynomial::from_vector(vec![1, 2]);
    assert_eq!(p.add_constant(&4), Polynomial::from_vector(vec![5, 2]));
    assert_eq!(p.sub_constant(&1), Polynomial::from_vector(vec![0, 2]));
    let c = Polynomial::from_constant(3);
    assert_eq!(c.sub_constant(&3), Polynomial::zero());
}

#[test]
fn scalar_multiplication_normalizes() {
    let p = Polynomial::from_vector(vec![1, 2, 3]);
    assert_eq!(p.scale(&2), Polynomial::from_vector(vec![2, 4, 6]));
    assert_eq!(p.scale(&0), Polynomial::zero());
}

#[test]
fn evaluation_at_a_matrix() {
    let p = Polynomial::from_vector(vec![1, -1, 1]);
    let m = SquareMatrix::new([[1, 2], [-3, 7]]);
    assert_eq!(p.eval(m), SquareMatrix::new([[-5, 14], [-21, 37]]));
}

#[test]
fn polynomial_with_matrix_coefficients_at_a_matrix() {
    let m = SquareMatrix::new([[NaturalNumber::new(1), NaturalNumber::new(2)], [NaturalNumber::new(0), NaturalNumber::new(1)]]);
    let p = Polynomial::<SquareMatrix<NaturalNumber, 2>>::x().add(&Polynomial::from_constant(m));
    let r = p.eval(m);
    let two_m = m.add(&m);
    assert_eq!(r, two_m);
}

#[test]
fn natural_number_polynomial_laws_on_values() {
    let p = Polynomial::from_vector(vec![NaturalNumber::new(1), NaturalNumber::new(2)]);
    let q = Polynomial::from_vector(vec![NaturalNumber::new(3), NaturalNumber::new(0), NaturalNumber::new(1)]);
    let r = Polynomial::from_vector(vec![NaturalNumber::new(4)]);
    assert_eq!(p.mul(&q).mul(&r), p.mul(&q.mul(&r)));
    assert_eq!(p.pow(2).mul(&p.pow(3)), p.pow(5));
    let x = NaturalNumber::new(3);
    assert_eq!(p.mul(&q).eval(x), p.eval(x).mul(&q.eval(x)));
    assert_eq!(p.add(&q).eval(x), p.eval(x).add(&q.eval(x)));
    assert_eq!(p.mul(&q).eval(x), NaturalNumber::new(84));
}

#[test]
fn power_of_zero_polynomial() {
    let z = Polynomial::<i32>::zero();
    assert_eq!(z.pow(0), Polynomial::one());
    assert_eq!(z.pow(3), Polynomial::zero());
}
