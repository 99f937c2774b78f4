//! Rational numbers: fractions of `i64` kept in lowest terms with a positive
//! denominator.
use vstd::prelude::*;

use crate::algebra::{Ring, ScalesBy, Semiring};
use crate::gcd::{
    abs, divides, gcd, gcd_i64, lemma_div_exact, lemma_divided_by_gcd_coprime, lemma_gcd_divides,
    times,
};

verus! {

/// A fraction `numerator / denominator` with `denominator > 0`.
#[derive(Debug, Clone, Copy, PartialEq, Eq, Structural)]
pub struct RationalNumber {
    numerator: i64,
    denominator: i64,
}

/// The fraction `n / d` divided through by the greatest common divisor of its
/// parts, with the signs moved so that the denominator is positive.
pub open spec fn reduce(n: int, d: int) -> (int, int) {
    let g = gcd(abs(n), abs(d)) as int;
    if d / g < 0 {
        (-(n / g), -(d / g))
    } else {
        (n / g, d / g)
    }
}

/// A fraction in lowest terms with a positive denominator.
pub open spec fn is_reduced(p: (int, int)) -> bool {
    p.1 > 0 && gcd(abs(p.0), abs(p.1)) == 1
}

/// Reduction gives a fraction in lowest terms with a positive denominator,
/// and the same value: `reduce(n, d).0 * d == n * reduce(n, d).1`.
pub proof fn lemma_reduce_in_lowest_terms(n: int, d: int)
    requires
        d != 0,
    ensures
        is_reduced(reduce(n, d)),
        reduce(n, d).0 * d == n * reduce(n, d).1,
{
    lemma_gcd_divides(abs(n), abs(d));
    let g = gcd(abs(n), abs(d)) as int;
    lemma_exact_quotient(n, g);
    lemma_exact_quotient(d, g);
    lemma_divided_by_gcd_coprime(abs(n), abs(d));
    let a = n / g;
    let b = d / g;
    assert(a * d == n * b) by (nonlinear_arith)
        requires
            a * g == n,
            b * g == d,
    ;
    assert((-a) * d == n * (-b)) by (nonlinear_arith)
        requires
            a * d == n * b,
    ;
}

/// The model of a sum `a + b` before reduction.
pub open spec fn sum_parts(a: (int, int), b: (int, int)) -> (int, int) {
    (a.0 * b.1 + b.0 * a.1, a.1 * b.1)
}

/// The model of a product `a * b` before reduction.
pub open spec fn product_parts(a: (int, int), b: (int, int)) -> (int, int) {
    (a.0 * b.0, a.1 * b.1)
}

/// Both parts fit an `i64` other than its smallest value.
pub open spec fn parts_fit(p: (int, int)) -> bool {
    i64::MIN < p.0 <= i64::MAX && i64::MIN < p.1 <= i64::MAX
}

impl View for RationalNumber {
    type V = (int, int);

    closed spec fn view(&self) -> (int, int) {
        (self.numerator as int, self.denominator as int)
    }
}

impl RationalNumber {
    #[verifier::type_invariant]
    closed spec fn inv(self) -> bool {
        self.numerator > i64::MIN && is_reduced((self.numerator as int, self.denominator as int))
    }

    /// The fraction `numerator / denominator`, reduced to lowest terms with a
    /// positive denominator.
    pub fn new(numerator: i64, denominator: i64) -> (r: Self)
        requires
            denominator != 0,
            numerator != i64::MIN,
            denominator != i64::MIN,
        ensures
            r@ == reduce(numerator as int, denominator as int),
            is_reduced(r@),
    {
        proof {
            lemma_reduce_in_lowest_terms(numerator as int, denominator as int);
        }
        Self::normalize(numerator, denominator)
    }

    /// The numerator, in lowest terms.
    pub fn numerator(&self) -> (r: i64)
        ensures
            r as int == self@.0,
            is_reduced(self@),
    {
        proof {
            use_type_invariant(self);
        }
        self.numerator
    }

    /// The denominator, in lowest terms; always positive.
    pub fn denominator(&self) -> (r: i64)
        ensures
            r as int == self@.1,
            is_reduced(self@),
    {
        proof {
            use_type_invariant(self);
        }
        self.denominator
    }

    /// The value `n / d` in lowest terms with a positive denominator.
    fn normalize(n: i64, d: i64) -> (r: Self)
        requires
            d != 0,
            n != i64::MIN,
            d != i64::MIN,
        ensures
            r@ == reduce(n as int, d as int),
    {
        let g = gcd_i64(n, d);
        let ghost gi = g as int;
        proof {
            lemma_gcd_divides(abs(n as int), abs(d as int));
            lemma_exact_quotient(n as int, gi);
            lemma_exact_quotient(d as int, gi);
            lemma_reduce_in_lowest_terms(n as int, d as int);
        }
        let num = Self::exact_quotient(n, g);
        let den = Self::exact_quotient(d, g);
        if den < 0 {
            RationalNumber { numerator: -num, denominator: -den }
        } else {
            RationalNumber { numerator: num, denominator: den }
        }
    }
}

impl RationalNumber {
    /// `x / g` where `g` is a positive divisor of `x`.
    fn exact_quotient(x: i64, g: i64) -> (q: i64)
        requires
            x != i64::MIN,
            g > 0,
            divides(g as int, abs(x as int) as int),
        ensures
            q as int == x as int / g as int,
    {
        proof {
            lemma_exact_quotient(x as int, g as int);
        }
        let mag: u64 = if x < 0 { (-x) as u64 } else { x as u64 };
        let qm = mag / (g as u64);
        proof {
            lemma_exact_quotient(mag as int, g as int);
            assert(abs(mag as int) == abs(x as int));
        }
        if x < 0 {
            proof {
                assert(((-(qm as int)) * (g as int)) == x as int) by (nonlinear_arith)
                    requires
                        (qm as int) * (g as int) == mag as int,
                        mag as int == -(x as int),
                ;
                lemma_div_exact(-(qm as int), g as int);
            }
            -(qm as i64)
        } else {
            qm as i64
        }
    }
}

impl Semiring for RationalNumber {
    open spec fn zero_spec() -> (int, int) {
        (0, 1)
    }

    open spec fn one_spec() -> (int, int) {
        (1, 1)
    }

    open spec fn add_spec(a: (int, int), b: (int, int)) -> (int, int) {
        reduce(sum_parts(a, b).0, sum_parts(a, b).1)
    }

    open spec fn mul_spec(a: (int, int), b: (int, int)) -> (int, int) {
        reduce(product_parts(a, b).0, product_parts(a, b).1)
    }

    open spec fn is_zero_spec(a: (int, int)) -> bool {
        a.0 == 0
    }

    open spec fn add_req(a: (int, int), b: (int, int)) -> bool {
        parts_fit(sum_parts(a, b))
    }

    open spec fn mul_req(a: (int, int), b: (int, int)) -> bool {
        parts_fit(product_parts(a, b))
    }

    fn zero() -> (r: Self) {
        assert(gcd(0, 1) == gcd(1, 0));
        RationalNumber { numerator: 0, denominator: 1 }
    }

    fn one() -> (r: Self) {
        assert(gcd(1, 1) == gcd(1, 0));
        RationalNumber { numerator: 1, denominator: 1 }
    }

    fn is_zero(&self) -> (r: bool) {
        self.numerator == 0
    }

    fn add(&self, other: &Self) -> (r: Self) {
        proof {
            use_type_invariant(self);
            use_type_invariant(other);
            lemma_product_bound(self.numerator as int, other.denominator as int);
            lemma_product_bound(other.numerator as int, self.denominator as int);
        }
        let n = (self.numerator as i128) * (other.denominator as i128) + (other.numerator as i128)
            * (self.denominator as i128);
        let d = (self.denominator as i128) * (other.denominator as i128);
        proof {
            lemma_positive_product(self.denominator as int, other.denominator as int);
        }
        Self::normalize(n as i64, d as i64)
    }

    fn mul(&self, other: &Self) -> (r: Self) {
        proof {
            use_type_invariant(self);
            use_type_invariant(other);
            lemma_product_bound(self.numerator as int, other.numerator as int);
            lemma_product_bound(self.denominator as int, other.denominator as int);
        }
        let n = (self.numerator as i128) * (other.numerator as i128);
        let d = (self.denominator as i128) * (other.denominator as i128);
        proof {
            lemma_positive_product(self.denominator as int, other.denominator as int);
        }
        Self::normalize(n as i64, d as i64)
    }

    fn duplicate(&self) -> (r: Self) {
        *self
    }
}

impl Ring for RationalNumber {
    open spec fn neg_spec(a: (int, int)) -> (int, int) {
        (-a.0, a.1)
    }

    open spec fn sub_spec(a: (int, int), b: (int, int)) -> (int, int) {
        Self::add_spec(a, Self::neg_spec(b))
    }

    open spec fn neg_req(a: (int, int)) -> bool {
        true
    }

    open spec fn sub_req(a: (int, int), b: (int, int)) -> bool {
        Self::add_req(a, Self::neg_spec(b))
    }

    fn neg(&self) -> (r: Self) {
        proof {
            use_type_invariant(self);
        }
        RationalNumber { numerator: -self.numerator, denominator: self.denominator }
    }

    fn sub(&self, other: &Self) -> (r: Self) {
        self.add(&other.neg())
    }
}

impl ScalesBy<RationalNumber> for RationalNumber {
    open spec fn scale_spec(a: (int, int), c: (int, int)) -> (int, int) {
        Self::mul_spec(a, c)
    }

    open spec fn scale_req(a: (int, int), c: (int, int)) -> bool {
        Self::mul_req(a, c)
    }

    fn scale(&self, c: &RationalNumber) -> (r: Self) {
        self.mul(c)
    }
}

proof fn lemma_positive_product(x: int, y: int)
    requires
        x > 0,
        y > 0,
    ensures
        x * y > 0,
{
    assert(x * y > 0) by (nonlinear_arith)
        requires
            x > 0,
            y > 0,
    ;
}

/// A product of two values of magnitude below `2^63` has magnitude below `2^126`.
proof fn lemma_product_bound(x: int, y: int)
    requires
        -0x8000_0000_0000_0000 < x < 0x8000_0000_0000_0000,
        -0x8000_0000_0000_0000 < y < 0x8000_0000_0000_0000,
    ensures
        -0x4000_0000_0000_0000_0000_0000_0000_0000 < x * y < 0x4000_0000_0000_0000_0000_0000_0000_0000,
{
    assert(-0x4000_0000_0000_0000_0000_0000_0000_0000 < x * y < 0x4000_0000_0000_0000_0000_0000_0000_0000)
        by (nonlinear_arith)
        requires
            -0x8000_0000_0000_0000 < x < 0x8000_0000_0000_0000,
            -0x8000_0000_0000_0000 < y < 0x8000_0000_0000_0000,
    ;
}

/// Dividing `x` by a positive divisor of its magnitude gives a quotient no
/// larger in magnitude, exact, and with the sign of `x`.
proof fn lemma_exact_quotient(x: int, g: int)
    requires
        g > 0,
        divides(g, abs(x) as int),
    ensures
        (x / g) * g == x,
        abs(x / g) <= abs(x),
        abs(x / g) as int == abs(x) as int / g,
        x < 0 <==> x / g < 0,
        x == 0 <==> x / g == 0,
{
    let k = choose|k: int| #[trigger] times(k, g) == abs(x) as int;
    assert(k >= 0) by (nonlinear_arith)
        requires
            k * g >= 0,
            g > 0,
    ;
    assert(k <= k * g) by (nonlinear_arith)
        requires
            k >= 0,
            g > 0,
    ;
    assert(k == 0 <==> x == 0) by (nonlinear_arith)
        requires
            k * g == abs(x) as int,
            g > 0,
    ;
    lemma_div_exact(k, g);
    if x < 0 {
        assert((-k) * g == x) by (nonlinear_arith)
            requires
                k * g == -x,
        ;
        lemma_div_exact(-k, g);
    }
}

} // verus!
