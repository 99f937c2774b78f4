//! The capability sets that coefficient types and evaluation targets provide.
//!
//! Each capability is stated over the mathematical model of a value (its view).
//! An operation may carry a precondition (`add_req`, `mul_req`, ...) that rules
//! out inputs the executable type cannot represent, such as integer overflow.
use vstd::prelude::*;

verus! {

/// Additive and multiplicative identities, addition, multiplication,
/// a zero test and duplication.
pub trait Semiring: View + Sized {
    /// The additive identity.
    spec fn zero_spec() -> Self::V;

    /// The multiplicative identity.
    spec fn one_spec() -> Self::V;

    /// The sum of two values.
    spec fn add_spec(a: Self::V, b: Self::V) -> Self::V;

    /// The product of two values.
    spec fn mul_spec(a: Self::V, b: Self::V) -> Self::V;

    /// What the executable zero test reports.
    spec fn is_zero_spec(a: Self::V) -> bool;

    /// The sum is representable.
    spec fn add_req(a: Self::V, b: Self::V) -> bool;

    /// The product is representable.
    spec fn mul_req(a: Self::V, b: Self::V) -> bool;

    fn zero() -> (r: Self)
        ensures
            r@ == Self::zero_spec(),
    ;

    fn one() -> (r: Self)
        ensures
            r@ == Self::one_spec(),
    ;

    fn is_zero(&self) -> (r: bool)
        ensures
            r == Self::is_zero_spec(self@),
    ;

    fn add(&self, other: &Self) -> (r: Self)
        requires
            Self::add_req(self@, other@),
        ensures
            r@ == Self::add_spec(self@, other@),
    ;

    fn mul(&self, other: &Self) -> (r: Self)
        requires
            Self::mul_req(self@, other@),
        ensures
            r@ == Self::mul_spec(self@, other@),
    ;

    /// An independent copy with the same value.
    fn duplicate(&self) -> (r: Self)
        ensures
            r@ == self@,
    ;
}

/// A semiring with negation and subtraction.
pub trait Ring: Semiring {
    /// The additive inverse.
    spec fn neg_spec(a: Self::V) -> Self::V;

    /// The difference of two values.
    spec fn sub_spec(a: Self::V, b: Self::V) -> Self::V;

    /// The additive inverse is representable.
    spec fn neg_req(a: Self::V) -> bool;

    /// The difference is representable.
    spec fn sub_req(a: Self::V, b: Self::V) -> bool;

    fn neg(&self) -> (r: Self)
        requires
            Self::neg_req(self@),
        ensures
            r@ == Self::neg_spec(self@),
    ;

    fn sub(&self, other: &Self) -> (r: Self)
        requires
            Self::sub_req(self@, other@),
        ensures
            r@ == Self::sub_spec(self@, other@),
    ;
}

/// Multiplication of a value of `Self` by a value of `T` on the right,
/// giving a value of `Self`.
pub trait ScalesBy<T: View>: Semiring {
    /// The value scaled by `c`.
    spec fn scale_spec(a: Self::V, c: T::V) -> Self::V;

    /// The scaled value is representable.
    spec fn scale_req(a: Self::V, c: T::V) -> bool;

    fn scale(&self, c: &T) -> (r: Self)
        requires
            Self::scale_req(self@, c@),
        ensures
            r@ == Self::scale_spec(self@, c@),
    ;
}

/// Addition is commutative.
pub open spec fn add_commutative<T: Semiring>() -> bool {
    forall|a: T::V, b: T::V| #[trigger] T::add_spec(a, b) == T::add_spec(b, a)
}

/// Addition is associative.
pub open spec fn add_associative<T: Semiring>() -> bool {
    forall|a: T::V, b: T::V, c: T::V|
        #[trigger] T::add_spec(T::add_spec(a, b), c) == T::add_spec(a, T::add_spec(b, c))
}

/// Zero is a right identity of addition.
pub open spec fn add_zero_identity<T: Semiring>() -> bool {
    forall|a: T::V| #[trigger] T::add_spec(a, T::zero_spec()) == a
}

/// One is a right identity of multiplication.
pub open spec fn mul_one_identity<T: Semiring>() -> bool {
    forall|a: T::V| #[trigger] T::mul_spec(a, T::one_spec()) == a
}

/// Multiplying by zero on the right gives zero.
pub open spec fn mul_zero_absorbs<T: Semiring>() -> bool {
    forall|a: T::V| #[trigger] T::mul_spec(a, T::zero_spec()) == T::zero_spec()
}

/// The zero test holds of zero and of nothing else.
pub open spec fn zero_test_exact<T: Semiring>() -> bool {
    forall|a: T::V| #[trigger] T::is_zero_spec(a) <==> a == T::zero_spec()
}

/// The additive laws of a commutative monoid with an exact zero test, and
/// the identity and absorbing laws of multiplication on the right.
pub open spec fn semiring_laws<T: Semiring>() -> bool {
    &&& add_commutative::<T>()
    &&& add_associative::<T>()
    &&& add_zero_identity::<T>()
    &&& mul_one_identity::<T>()
    &&& mul_zero_absorbs::<T>()
    &&& zero_test_exact::<T>()
}

/// Multiplication distributes over addition from the right.
pub open spec fn mul_right_distributive<U: Semiring>() -> bool {
    forall|a: U::V, b: U::V, x: U::V|
        #[trigger] U::mul_spec(U::add_spec(a, b), x) == U::add_spec(U::mul_spec(a, x), U::mul_spec(b, x))
}

/// Zero times anything is zero.
pub open spec fn mul_zero_left<U: Semiring>() -> bool {
    forall|x: U::V| #[trigger] U::mul_spec(U::zero_spec(), x) == U::zero_spec()
}

/// Lifting a coefficient into `U` as `one * c` maps zero to zero and sums to sums.
pub open spec fn lift_additive<T: Semiring, U: ScalesBy<T>>() -> bool {
    &&& U::scale_spec(U::one_spec(), T::zero_spec()) == U::zero_spec()
    &&& forall|c: T::V, d: T::V|
        #[trigger] U::scale_spec(U::one_spec(), T::add_spec(c, d)) == U::add_spec(
            U::scale_spec(U::one_spec(), c),
            U::scale_spec(U::one_spec(), d),
        )
}

/// Multiplication is commutative.
#[verifier::opaque]
pub open spec fn mul_commutative<U: Semiring>() -> bool {
    forall|a: U::V, b: U::V| #[trigger] U::mul_spec(a, b) == U::mul_spec(b, a)
}

/// Multiplication is associative.
#[verifier::opaque]
pub open spec fn mul_associative<U: Semiring>() -> bool {
    forall|a: U::V, b: U::V, c: U::V|
        #[trigger] U::mul_spec(U::mul_spec(a, b), c) == U::mul_spec(a, U::mul_spec(b, c))
}

/// Lifting a coefficient into `U` as `one * c` maps products to products.
pub open spec fn lift_multiplicative<T: Semiring, U: ScalesBy<T>>() -> bool {
    forall|c: T::V, d: T::V|
        #[trigger] U::scale_spec(U::one_spec(), T::mul_spec(c, d)) == U::mul_spec(
            U::scale_spec(U::one_spec(), c),
            U::scale_spec(U::one_spec(), d),
        )
}

/// Multiplication distributes over addition from the left.
pub open spec fn mul_left_distributive<U: Semiring>() -> bool {
    forall|x: U::V, a: U::V, b: U::V|
        #[trigger] U::mul_spec(x, U::add_spec(a, b)) == U::add_spec(U::mul_spec(x, a), U::mul_spec(x, b))
}

/// One is a left identity of multiplication.
pub open spec fn mul_one_left<U: Semiring>() -> bool {
    forall|a: U::V| #[trigger] U::mul_spec(U::one_spec(), a) == a
}

} // verus!
