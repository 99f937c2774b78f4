//! Natural numbers: a semiring of non-negative machine integers.
use vstd::prelude::*;

use crate::algebra::{
    lift_additive, lift_multiplicative, mul_associative, mul_commutative, mul_right_distributive,
    mul_zero_left, semiring_laws, ScalesBy, Semiring,
};
use crate::laws::{eval_additive_laws, eval_multiplicative_laws};
use crate::mul_laws::mul_semiring_laws;

verus! {

/// A natural number held in a `u64`.
#[derive(Debug, Clone, Copy, PartialEq, Eq, Structural)]
pub struct NaturalNumber {
    val: u64,
}

impl View for NaturalNumber {
    type V = nat;

    closed spec fn view(&self) -> nat {
        self.val as nat
    }
}

impl NaturalNumber {
    /// The natural number `val`.
    pub fn new(val: u64) -> (r: Self)
        ensures
            r@ == val as nat,
    {
        NaturalNumber { val }
    }

    /// The value as a `u64`.
    pub fn val(&self) -> (r: u64)
        ensures
            r as nat == self@,
    {
        self.val
    }
}

impl Semiring for NaturalNumber {
    open spec fn zero_spec() -> nat {
        0
    }

    open spec fn one_spec() -> nat {
        1
    }

    open spec fn add_spec(a: nat, b: nat) -> nat {
        a + b
    }

    open spec fn mul_spec(a: nat, b: nat) -> nat {
        a * b
    }

    open spec fn is_zero_spec(a: nat) -> bool {
        a == 0
    }

    open spec fn add_req(a: nat, b: nat) -> bool {
        a + b <= u64::MAX
    }

    open spec fn mul_req(a: nat, b: nat) -> bool {
        a * b <= u64::MAX
    }

    fn zero() -> (r: Self) {
        NaturalNumber { val: 0 }
    }

    fn one() -> (r: Self) {
        NaturalNumber { val: 1 }
    }

    fn is_zero(&self) -> (r: bool) {
        self.val == 0
    }

    fn add(&self, other: &Self) -> (r: Self) {
        NaturalNumber { val: self.val + other.val }
    }

    fn mul(&self, other: &Self) -> (r: Self) {
        NaturalNumber { val: self.val * other.val }
    }

    fn duplicate(&self) -> (r: Self) {
        *self
    }
}

impl ScalesBy<NaturalNumber> for NaturalNumber {
    open spec fn scale_spec(a: nat, c: nat) -> nat {
        a * c
    }

    open spec fn scale_req(a: nat, c: nat) -> bool {
        a * c <= u64::MAX
    }

    fn scale(&self, c: &NaturalNumber) -> (r: Self) {
        self.mul(c)
    }
}

/// Natural numbers obey the semiring laws that the laws of polynomials rely
/// on, and evaluating a polynomial over them at a natural number is additive
/// and multiplicative.
pub proof fn lemma_natural_number_laws()
    ensures
        semiring_laws::<NaturalNumber>(),
        mul_semiring_laws::<NaturalNumber>(),
        eval_additive_laws::<NaturalNumber, NaturalNumber>(),
        eval_multiplicative_laws::<NaturalNumber, NaturalNumber>(),
{
    reveal(mul_commutative);
    reveal(mul_associative);
    assert forall|a: nat, b: nat, c: nat|
        #[trigger] NaturalNumber::mul_spec(NaturalNumber::mul_spec(a, b), c) == NaturalNumber::mul_spec(
            a,
            NaturalNumber::mul_spec(b, c),
        ) by {
        vstd::arithmetic::mul::lemma_mul_is_associative(a as int, b as int, c as int);
    }
    assert forall|a: nat, b: nat|
        #[trigger] NaturalNumber::mul_spec(a, b) == NaturalNumber::mul_spec(b, a) by {
        vstd::arithmetic::mul::lemma_mul_is_commutative(a as int, b as int);
    }
    assert(lift_multiplicative::<NaturalNumber, NaturalNumber>());
    assert forall|a: nat, b: nat, x: nat|
        #[trigger] NaturalNumber::mul_spec(NaturalNumber::add_spec(a, b), x) == NaturalNumber::add_spec(
            NaturalNumber::mul_spec(a, x),
            NaturalNumber::mul_spec(b, x),
        ) by {
        vstd::arithmetic::mul::lemma_mul_is_distributive_add_other_way(x as int, a as int, b as int);
    }
    assert forall|x: nat, a: nat, b: nat|
        #[trigger] NaturalNumber::mul_spec(x, NaturalNumber::add_spec(a, b)) == NaturalNumber::add_spec(
            NaturalNumber::mul_spec(x, a),
            NaturalNumber::mul_spec(x, b),
        ) by {
        vstd::arithmetic::mul::lemma_mul_is_distributive_add(x as int, a as int, b as int);
    }
}

} // verus!
