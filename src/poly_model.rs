//! The mathematical model of polynomials: coefficient sequences over the
//! model of a coefficient semiring, and the operations on them.
use vstd::prelude::*;

use crate::algebra::{Ring, ScalesBy, Semiring};

verus! {

/// Coefficient `i` of `s`, with the additive identity past either end.
pub open spec fn coef<T: Semiring>(s: Seq<T::V>, i: int) -> T::V {
    if 0 <= i < s.len() {
        s[i]
    } else {
        T::zero_spec()
    }
}

/// The larger of two lengths.
pub open spec fn max_len(m: nat, n: nat) -> nat {
    if m >= n {
        m
    } else {
        n
    }
}

/// Non-empty, and without a trailing zero coefficient unless it is the only one.
pub open spec fn is_normalized<T: Semiring>(s: Seq<T::V>) -> bool {
    s.len() >= 1 && (s.len() == 1 || !T::is_zero_spec(s.last()))
}

/// `s` with trailing zero coefficients dropped while more than one remains;
/// the empty sequence becomes the single additive identity.
pub open spec fn normalize_seq<T: Semiring>(s: Seq<T::V>) -> Seq<T::V>
    decreases s.len(),
{
    if s.len() == 0 {
        seq![T::zero_spec()]
    } else if s.len() == 1 || !T::is_zero_spec(s.last()) {
        s
    } else {
        normalize_seq::<T>(s.drop_last())
    }
}

/// Every coefficient tests zero.
pub open spec fn all_zero<T: Semiring>(s: Seq<T::V>) -> bool {
    forall|i: int| 0 <= i < s.len() ==> T::is_zero_spec(#[trigger] s[i])
}

/// The coefficient-wise sum, up to the longer length, before normalization.
pub open spec fn add_raw<T: Semiring>(a: Seq<T::V>, b: Seq<T::V>) -> Seq<T::V> {
    Seq::new(max_len(a.len(), b.len()), |i: int| T::add_spec(coef::<T>(a, i), coef::<T>(b, i)))
}

/// The coefficient-wise sums are representable.
pub open spec fn add_ok<T: Semiring>(a: Seq<T::V>, b: Seq<T::V>) -> bool {
    forall|i: int|
        0 <= i < max_len(a.len(), b.len()) ==> #[trigger] T::add_req(
            coef::<T>(a, i),
            coef::<T>(b, i),
        )
}

/// The sum of two polynomials.
pub open spec fn poly_add<T: Semiring>(a: Seq<T::V>, b: Seq<T::V>) -> Seq<T::V> {
    normalize_seq::<T>(add_raw::<T>(a, b))
}

/// The sum of the products `a[i'] * b[k - i']` over `i' < i`, accumulated in
/// increasing order of `i'` from the additive identity.
pub open spec fn conv_partial<T: Semiring>(a: Seq<T::V>, b: Seq<T::V>, k: int, i: int) -> T::V
    decreases i,
{
    if i <= 0 {
        T::zero_spec()
    } else {
        let prev = conv_partial::<T>(a, b, k, i - 1);
        let j = k - (i - 1);
        if 0 <= j < b.len() && i - 1 < a.len() {
            T::add_spec(prev, T::mul_spec(a[i - 1], b[j]))
        } else {
            prev
        }
    }
}

/// The discrete convolution of `a` and `b`, of length `len(a) + len(b) - 1`,
/// before normalization.
pub open spec fn conv<T: Semiring>(a: Seq<T::V>, b: Seq<T::V>) -> Seq<T::V> {
    Seq::new((a.len() + b.len() - 1) as nat, |k: int| conv_partial::<T>(a, b, k, a.len() as int))
}

/// The product `a[i] * b[j]` and its addition into coefficient `i + j` are
/// representable.
pub open spec fn conv_step_ok<T: Semiring>(a: Seq<T::V>, b: Seq<T::V>, i: int, j: int) -> bool {
    T::mul_req(a[i], b[j]) && T::add_req(
        conv_partial::<T>(a, b, i + j, i),
        T::mul_spec(a[i], b[j]),
    )
}

/// Both operands are non-empty and every step of their convolution is representable.
pub open spec fn mul_ok<T: Semiring>(a: Seq<T::V>, b: Seq<T::V>) -> bool {
    &&& a.len() >= 1
    &&& b.len() >= 1
    &&& a.len() + b.len() - 1 <= usize::MAX
    &&& forall|i: int, j: int|
        0 <= i < a.len() && 0 <= j < b.len() ==> #[trigger] conv_step_ok::<T>(a, b, i, j)
}

/// The product of two polynomials.
pub open spec fn poly_mul<T: Semiring>(a: Seq<T::V>, b: Seq<T::V>) -> Seq<T::V> {
    normalize_seq::<T>(conv::<T>(a, b))
}

/// Every coefficient multiplied by `c` on the right, before normalization.
pub open spec fn scale_raw<T: Semiring>(a: Seq<T::V>, c: T::V) -> Seq<T::V> {
    a.map_values(|x: T::V| T::mul_spec(x, c))
}

/// The coefficient-wise differences, up to the longer length, before normalization.
pub open spec fn sub_raw<T: Ring>(a: Seq<T::V>, b: Seq<T::V>) -> Seq<T::V> {
    Seq::new(max_len(a.len(), b.len()), |i: int| T::sub_spec(coef::<T>(a, i), coef::<T>(b, i)))
}

/// The value of the polynomial `s` at `x`, by Horner's scheme: the value of
/// the coefficients above the first, times `x`, plus the first coefficient
/// lifted into `U` as `one * s[0]`.
pub open spec fn horner<T: Semiring, U: ScalesBy<T>>(s: Seq<T::V>, x: U::V) -> U::V
    decreases s.len(),
{
    if s.len() == 0 {
        U::zero_spec()
    } else {
        U::add_spec(
            U::mul_spec(horner::<T, U>(s.drop_first(), x), x),
            U::scale_spec(U::one_spec(), s[0]),
        )
    }
}

/// Every step of Horner's scheme for `s` at `x` is representable.
pub open spec fn horner_ok<T: Semiring, U: ScalesBy<T>>(s: Seq<T::V>, x: U::V) -> bool
    decreases s.len(),
{
    if s.len() == 0 {
        true
    } else {
        let rest = horner::<T, U>(s.drop_first(), x);
        &&& horner_ok::<T, U>(s.drop_first(), x)
        &&& U::mul_req(rest, x)
        &&& U::scale_req(U::one_spec(), s[0])
        &&& U::add_req(U::mul_spec(rest, x), U::scale_spec(U::one_spec(), s[0]))
    }
}

} // verus!

verus! {

/// The product accumulated by binary exponentiation: starting from `acc` and
/// `base`, for each bit of `e` from the lowest, multiply `base` into `acc`
/// when the bit is set, then square `base` if higher bits remain.
pub open spec fn pow_from<T: Semiring>(acc: Seq<T::V>, base: Seq<T::V>, e: nat) -> Seq<T::V>
    decreases e,
{
    if e == 0 {
        acc
    } else {
        let next = if e % 2 == 1 {
            poly_mul::<T>(acc, base)
        } else {
            acc
        };
        if e / 2 == 0 {
            next
        } else {
            pow_from::<T>(next, poly_mul::<T>(base, base), e / 2)
        }
    }
}

/// Every multiplication that `pow_from(acc, base, e)` performs is representable.
pub open spec fn pow_from_ok<T: Semiring>(acc: Seq<T::V>, base: Seq<T::V>, e: nat) -> bool
    decreases e,
{
    if e == 0 {
        true
    } else {
        let next = if e % 2 == 1 {
            poly_mul::<T>(acc, base)
        } else {
            acc
        };
        &&& (e % 2 == 1 ==> mul_ok::<T>(acc, base))
        &&& (e / 2 != 0 ==> mul_ok::<T>(base, base) && pow_from_ok::<T>(
            next,
            poly_mul::<T>(base, base),
            e / 2,
        ))
    }
}

/// `p` raised to the power `n` by binary exponentiation.
pub open spec fn poly_pow<T: Semiring>(p: Seq<T::V>, n: nat) -> Seq<T::V> {
    pow_from::<T>(seq![T::one_spec()], p, n)
}

/// Every multiplication that `poly_pow(p, n)` performs is representable.
pub open spec fn pow_ok<T: Semiring>(p: Seq<T::V>, n: nat) -> bool {
    pow_from_ok::<T>(seq![T::one_spec()], p, n)
}

} // verus!
