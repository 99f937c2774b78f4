//! Laws of the polynomial operations, stated over their models.
use vstd::prelude::*;

use crate::algebra::{
    lift_additive, lift_multiplicative, mul_associative, mul_commutative, mul_right_distributive,
    mul_zero_left, semiring_laws, ScalesBy, Semiring,
};
use crate::poly_model::{
    add_raw, coef, conv, conv_partial, horner, is_normalized, max_len, normalize_seq, poly_add, poly_mul,
};

verus! {

/// Normalization is idempotent, its result never has a trailing zero
/// coefficient unless it is the single-coefficient polynomial, and it leaves
/// a normalized sequence as it is.
pub proof fn lemma_normalize_idempotent<T: Semiring>(s: Seq<T::V>)
    ensures
        normalize_seq::<T>(normalize_seq::<T>(s)) == normalize_seq::<T>(s),
        is_normalized::<T>(normalize_seq::<T>(s)),
        is_normalized::<T>(s) ==> normalize_seq::<T>(s) == s,
    decreases s.len(),
{
    if s.len() > 1 && T::is_zero_spec(s.last()) {
        lemma_normalize_idempotent::<T>(s.drop_last());
    }
}

/// Normalization never lengthens a non-empty sequence, and shortens one whose
/// last coefficient tests zero when more than one remains.
pub proof fn lemma_normalize_len<T: Semiring>(s: Seq<T::V>)
    ensures
        s.len() >= 1 ==> normalize_seq::<T>(s).len() <= s.len(),
        s.len() > 1 && T::is_zero_spec(s.last()) ==> normalize_seq::<T>(s).len() < s.len(),
        normalize_seq::<T>(s).len() >= 1,
    decreases s.len(),
{
    if s.len() > 1 && T::is_zero_spec(s.last()) {
        lemma_normalize_len::<T>(s.drop_last());
    }
}

/// Under an exact zero test, normalization keeps every coefficient.
pub(crate) proof fn lemma_normalize_coef<T: Semiring>(s: Seq<T::V>, i: int)
    requires
        semiring_laws::<T>(),
    ensures
        coef::<T>(normalize_seq::<T>(s), i) == coef::<T>(s, i),
    decreases s.len(),
{
    if s.len() > 1 && T::is_zero_spec(s.last()) {
        lemma_normalize_coef::<T>(s.drop_last(), i);
        assert(T::is_zero_spec(s.last()) <==> s.last() == T::zero_spec());
    } else if s.len() == 0 {
        assert(T::is_zero_spec(T::zero_spec()) <==> T::zero_spec() == T::zero_spec());
    }
}

/// Under an exact zero test, two sequences with the same coefficients
/// normalize alike.
pub(crate) proof fn lemma_same_coefs_normalize<T: Semiring>(s: Seq<T::V>, t: Seq<T::V>)
    requires
        semiring_laws::<T>(),
        forall|i: int| #[trigger] coef::<T>(s, i) == coef::<T>(t, i),
    ensures
        normalize_seq::<T>(s) == normalize_seq::<T>(t),
    decreases s.len() + t.len(),
{
    if s.len() > t.len() {
        assert(coef::<T>(s, s.len() - 1) == coef::<T>(t, s.len() - 1));
        assert(T::is_zero_spec(s.last()) <==> s.last() == T::zero_spec());
        if s.len() == 1 {
            assert(coef::<T>(s, 0) == coef::<T>(t, 0));
            assert(s =~= seq![T::zero_spec()]);
        } else {
            let s_rest = s.drop_last();
            assert forall|i: int| #[trigger] coef::<T>(s_rest, i) == coef::<T>(t, i) by {
                assert(coef::<T>(s, i) == coef::<T>(t, i));
            }
            lemma_same_coefs_normalize::<T>(s_rest, t);
        }
    } else if t.len() > s.len() {
        assert(coef::<T>(s, t.len() - 1) == coef::<T>(t, t.len() - 1));
        assert(T::is_zero_spec(t.last()) <==> t.last() == T::zero_spec());
        if t.len() == 1 {
            assert(coef::<T>(s, 0) == coef::<T>(t, 0));
            assert(t =~= seq![T::zero_spec()]);
        } else {
            let t_rest = t.drop_last();
            assert forall|i: int| #[trigger] coef::<T>(s, i) == coef::<T>(t_rest, i) by {
                assert(coef::<T>(s, i) == coef::<T>(t, i));
            }
            lemma_same_coefs_normalize::<T>(s, t_rest);
        }
    } else {
        assert forall|i: int| 0 <= i < s.len() implies s[i] == t[i] by {
            assert(coef::<T>(s, i) == coef::<T>(t, i));
        }
        assert(s =~= t);
    }
}

/// The coefficients of a raw sum are the sums of the coefficients.
pub(crate) proof fn lemma_add_raw_coef<T: Semiring>(a: Seq<T::V>, b: Seq<T::V>, i: int)
    requires
        semiring_laws::<T>(),
    ensures
        coef::<T>(add_raw::<T>(a, b), i) == T::add_spec(coef::<T>(a, i), coef::<T>(b, i)),
{
    if !(0 <= i < max_len(a.len(), b.len())) {
        assert(T::add_spec(T::zero_spec(), T::zero_spec()) == T::zero_spec());
    }
}

/// The coefficients of a sum of polynomials are the sums of the coefficients.
proof fn lemma_poly_add_coef<T: Semiring>(a: Seq<T::V>, b: Seq<T::V>, i: int)
    requires
        semiring_laws::<T>(),
    ensures
        coef::<T>(poly_add::<T>(a, b), i) == T::add_spec(coef::<T>(a, i), coef::<T>(b, i)),
{
    lemma_normalize_coef::<T>(add_raw::<T>(a, b), i);
    lemma_add_raw_coef::<T>(a, b, i);
}

/// Addition of polynomials is commutative.
pub proof fn lemma_add_commutative<T: Semiring>(p: Seq<T::V>, q: Seq<T::V>)
    requires
        semiring_laws::<T>(),
    ensures
        poly_add::<T>(p, q) == poly_add::<T>(q, p),
{
    assert(add_raw::<T>(p, q) =~= add_raw::<T>(q, p));
}

/// Addition of polynomials is associative.
pub proof fn lemma_add_associative<T: Semiring>(p: Seq<T::V>, q: Seq<T::V>, r: Seq<T::V>)
    requires
        semiring_laws::<T>(),
    ensures
        poly_add::<T>(poly_add::<T>(p, q), r) == poly_add::<T>(p, poly_add::<T>(q, r)),
{
    let lhs = add_raw::<T>(poly_add::<T>(p, q), r);
    let rhs = add_raw::<T>(p, poly_add::<T>(q, r));
    assert forall|i: int| #[trigger] coef::<T>(lhs, i) == coef::<T>(rhs, i) by {
        lemma_add_raw_coef::<T>(poly_add::<T>(p, q), r, i);
        lemma_add_raw_coef::<T>(p, poly_add::<T>(q, r), i);
        lemma_poly_add_coef::<T>(p, q, i);
        lemma_poly_add_coef::<T>(q, r, i);
    }
    lemma_same_coefs_normalize::<T>(lhs, rhs);
}

/// Zero is an identity of addition on normalized polynomials.
pub proof fn lemma_add_zero<T: Semiring>(p: Seq<T::V>)
    requires
        semiring_laws::<T>(),
        is_normalized::<T>(p),
    ensures
        poly_add::<T>(p, seq![T::zero_spec()]) == p,
{
    let z = seq![T::zero_spec()];
    let s = add_raw::<T>(p, z);
    assert forall|i: int| #[trigger] coef::<T>(s, i) == coef::<T>(p, i) by {
        lemma_add_raw_coef::<T>(p, z, i);
    }
    lemma_same_coefs_normalize::<T>(s, p);
    lemma_normalize_idempotent::<T>(p);
}

/// The convolution with a single coefficient `c`: each coefficient is
/// multiplied by `c`, added to zero.
proof fn lemma_conv_single<T: Semiring>(a: Seq<T::V>, c: T::V, k: int, i: int)
    requires
        0 <= k < a.len(),
        0 <= i <= a.len(),
    ensures
        conv_partial::<T>(a, seq![c], k, i) == if k < i {
            T::add_spec(T::zero_spec(), T::mul_spec(a[k], c))
        } else {
            T::zero_spec()
        },
    decreases i,
{
    if i > 0 {
        lemma_conv_single::<T>(a, c, k, i - 1);
    }
}

/// One is an identity of multiplication on normalized polynomials.
pub proof fn lemma_mul_one<T: Semiring>(p: Seq<T::V>)
    requires
        semiring_laws::<T>(),
        is_normalized::<T>(p),
    ensures
        poly_mul::<T>(p, seq![T::one_spec()]) == p,
{
    let s = conv::<T>(p, seq![T::one_spec()]);
    assert forall|i: int| 0 <= i < p.len() implies s[i] == p[i] by {
        lemma_conv_single::<T>(p, T::one_spec(), i, p.len() as int);
        assert(T::add_spec(T::zero_spec(), p[i]) == T::add_spec(p[i], T::zero_spec()));
    }
    assert(s =~= p);
    lemma_normalize_idempotent::<T>(p);
}

/// Multiplying by zero gives the zero polynomial.
pub proof fn lemma_mul_zero<T: Semiring>(p: Seq<T::V>)
    requires
        semiring_laws::<T>(),
    ensures
        poly_mul::<T>(p, seq![T::zero_spec()]) == seq![T::zero_spec()],
{
    let z = seq![T::zero_spec()];
    let s = conv::<T>(p, z);
    assert forall|i: int| #[trigger] coef::<T>(s, i) == coef::<T>(z, i) by {
        if 0 <= i < s.len() {
            lemma_conv_single::<T>(p, T::zero_spec(), i, p.len() as int);
        }
    }
    lemma_same_coefs_normalize::<T>(s, z);
    lemma_normalize_idempotent::<T>(z);
    assert(T::is_zero_spec(T::zero_spec()));
}

/// Below the last coefficient of `a`, nothing reaches the top coefficient of
/// the convolution.
proof fn lemma_conv_top_partial<T: Semiring>(a: Seq<T::V>, b: Seq<T::V>, i: int)
    requires
        a.len() >= 1,
        b.len() >= 1,
        0 <= i < a.len(),
    ensures
        conv_partial::<T>(a, b, a.len() + b.len() - 2, i) == T::zero_spec(),
    decreases i,
{
    if i > 0 {
        lemma_conv_top_partial::<T>(a, b, i - 1);
    }
}

/// The product of two polynomials of lengths `m` and `n` has length at most
/// `m + n - 1`, and exactly that unless the product of the leading
/// coefficients tests zero (or `m + n - 1` is already one).
pub proof fn lemma_mul_length<T: Semiring>(p: Seq<T::V>, q: Seq<T::V>)
    requires
        semiring_laws::<T>(),
        is_normalized::<T>(p),
        is_normalized::<T>(q),
    ensures
        poly_mul::<T>(p, q).len() <= p.len() + q.len() - 1,
        poly_mul::<T>(p, q).len() == p.len() + q.len() - 1 <==> (p.len() + q.len() - 1 == 1
            || !T::is_zero_spec(T::mul_spec(p.last(), q.last()))),
{
    let s = conv::<T>(p, q);
    let top = p.len() + q.len() - 2;
    lemma_conv_top_partial::<T>(p, q, p.len() - 1);
    let lead = T::mul_spec(p.last(), q.last());
    assert(T::add_spec(T::zero_spec(), lead) == T::add_spec(lead, T::zero_spec()));
    assert(s.last() == conv_partial::<T>(p, q, top, p.len() as int));
    assert(s.last() == lead);
    lemma_normalize_len::<T>(s);
}

/// The sequence without its first coefficient; the empty sequence stays empty.
pub open spec fn tail<A>(s: Seq<A>) -> Seq<A> {
    if s.len() == 0 {
        s
    } else {
        s.drop_first()
    }
}

/// The laws on `T` and `U` under which evaluation at a point of `U` is additive.
pub open spec fn eval_additive_laws<T: Semiring, U: ScalesBy<T>>() -> bool {
    &&& semiring_laws::<T>()
    &&& semiring_laws::<U>()
    &&& mul_right_distributive::<U>()
    &&& mul_zero_left::<U>()
    &&& lift_additive::<T, U>()
}

/// Horner's scheme, unfolded once on any sequence: the value of the tail times
/// `x`, plus the lifted first coefficient (zero past the end).
proof fn lemma_horner_unfold<T: Semiring, U: ScalesBy<T>>(s: Seq<T::V>, x: U::V)
    requires
        eval_additive_laws::<T, U>(),
    ensures
        horner::<T, U>(s, x) == U::add_spec(
            U::mul_spec(horner::<T, U>(tail(s), x), x),
            U::scale_spec(U::one_spec(), coef::<T>(s, 0)),
        ),
{
    if s.len() == 0 {
        assert(U::mul_spec(U::zero_spec(), x) == U::zero_spec());
        assert(U::add_spec(U::zero_spec(), U::zero_spec()) == U::zero_spec());
    }
}

/// Horner's scheme depends on the coefficients alone.
proof fn lemma_horner_same_coefs<T: Semiring, U: ScalesBy<T>>(s: Seq<T::V>, t: Seq<T::V>, x: U::V)
    requires
        eval_additive_laws::<T, U>(),
        forall|i: int| #[trigger] coef::<T>(s, i) == coef::<T>(t, i),
    ensures
        horner::<T, U>(s, x) == horner::<T, U>(t, x),
    decreases s.len() + t.len(),
{
    if s.len() > 0 || t.len() > 0 {
        let s_rest = tail(s);
        let t_rest = tail(t);
        assert forall|i: int| #[trigger] coef::<T>(s_rest, i) == coef::<T>(t_rest, i) by {
            assert(coef::<T>(s, i + 1) == coef::<T>(t, i + 1));
        }
        lemma_horner_same_coefs::<T, U>(s_rest, t_rest, x);
        lemma_horner_unfold::<T, U>(s, x);
        lemma_horner_unfold::<T, U>(t, x);
        assert(coef::<T>(s, 0) == coef::<T>(t, 0));
    }
}

/// `(a + b) + (c + d) == (a + c) + (b + d)` in a commutative monoid.
pub(crate) proof fn lemma_add_swap_middle<U: Semiring>(a: U::V, b: U::V, c: U::V, d: U::V)
    requires
        semiring_laws::<U>(),
    ensures
        U::add_spec(U::add_spec(a, b), U::add_spec(c, d)) == U::add_spec(
            U::add_spec(a, c),
            U::add_spec(b, d),
        ),
{
    assert(U::add_spec(U::add_spec(a, b), U::add_spec(c, d)) == U::add_spec(a, U::add_spec(b, U::add_spec(c, d))));
    assert(U::add_spec(b, U::add_spec(c, d)) == U::add_spec(U::add_spec(b, c), d));
    assert(U::add_spec(b, c) == U::add_spec(c, b));
    assert(U::add_spec(U::add_spec(c, b), d) == U::add_spec(c, U::add_spec(b, d)));
    assert(U::add_spec(a, U::add_spec(c, U::add_spec(b, d))) == U::add_spec(U::add_spec(a, c), U::add_spec(b, d)));
}

/// Horner's scheme on a coefficient-wise sum is the sum of the values.
proof fn lemma_horner_add_raw<T: Semiring, U: ScalesBy<T>>(p: Seq<T::V>, q: Seq<T::V>, x: U::V)
    requires
        eval_additive_laws::<T, U>(),
    ensures
        horner::<T, U>(add_raw::<T>(p, q), x) == U::add_spec(horner::<T, U>(p, x), horner::<T, U>(q, x)),
    decreases p.len() + q.len(),
{
    let r = add_raw::<T>(p, q);
    if p.len() == 0 && q.len() == 0 {
        assert(U::add_spec(U::zero_spec(), U::zero_spec()) == U::zero_spec());
    } else {
        let p_rest = tail(p);
        let q_rest = tail(q);
        lemma_horner_add_raw::<T, U>(p_rest, q_rest, x);
        assert forall|i: int| #[trigger] coef::<T>(tail(r), i) == coef::<T>(add_raw::<T>(p_rest, q_rest), i) by {
            lemma_add_raw_coef::<T>(p, q, i + 1);
            lemma_add_raw_coef::<T>(p_rest, q_rest, i);
            if i < 0 {
                assert(T::add_spec(T::zero_spec(), T::zero_spec()) == T::zero_spec());
            }
        }
        lemma_horner_same_coefs::<T, U>(tail(r), add_raw::<T>(p_rest, q_rest), x);
        lemma_horner_unfold::<T, U>(r, x);
        lemma_horner_unfold::<T, U>(p, x);
        lemma_horner_unfold::<T, U>(q, x);
        lemma_add_raw_coef::<T>(p, q, 0);
        let hp = horner::<T, U>(p_rest, x);
        let hq = horner::<T, U>(q_rest, x);
        let lp = U::scale_spec(U::one_spec(), coef::<T>(p, 0));
        let lq = U::scale_spec(U::one_spec(), coef::<T>(q, 0));
        assert(U::scale_spec(U::one_spec(), coef::<T>(r, 0)) == U::add_spec(lp, lq));
        assert(U::mul_spec(U::add_spec(hp, hq), x) == U::add_spec(U::mul_spec(hp, x), U::mul_spec(hq, x)));
        lemma_add_swap_middle::<U>(U::mul_spec(hp, x), U::mul_spec(hq, x), lp, lq);
    }
}

/// Evaluation is additive: `(p + q)(x) == p(x) + q(x)`.
pub proof fn lemma_eval_add<T: Semiring, U: ScalesBy<T>>(p: Seq<T::V>, q: Seq<T::V>, x: U::V)
    requires
        eval_additive_laws::<T, U>(),
    ensures
        horner::<T, U>(poly_add::<T>(p, q), x) == U::add_spec(horner::<T, U>(p, x), horner::<T, U>(q, x)),
{
    let r = add_raw::<T>(p, q);
    assert forall|i: int| #[trigger] coef::<T>(normalize_seq::<T>(r), i) == coef::<T>(r, i) by {
        lemma_normalize_coef::<T>(r, i);
    }
    lemma_horner_same_coefs::<T, U>(normalize_seq::<T>(r), r, x);
    lemma_horner_add_raw::<T, U>(p, q, x);
}

/// The laws on `T` and `U` under which evaluation at a point of `U` is
/// multiplicative: those for additivity, with a commutative and associative
/// multiplication on `U` into which lifting coefficients is multiplicative.
pub open spec fn eval_multiplicative_laws<T: Semiring, U: ScalesBy<T>>() -> bool {
    &&& eval_additive_laws::<T, U>()
    &&& mul_commutative::<U>()
    &&& mul_associative::<U>()
    &&& lift_multiplicative::<T, U>()
}

/// Outside the length of the convolution, no partial sum receives a term.
pub(crate) proof fn lemma_conv_partial_outside<T: Semiring>(a: Seq<T::V>, b: Seq<T::V>, k: int, i: int)
    requires
        a.len() >= 1,
        b.len() >= 1,
        k < 0 || k >= a.len() + b.len() - 1,
        0 <= i <= a.len(),
    ensures
        conv_partial::<T>(a, b, k, i) == T::zero_spec(),
    decreases i,
{
    if i > 0 {
        lemma_conv_partial_outside::<T>(a, b, k, i - 1);
    }
}

/// Every coefficient of the convolution is its full partial sum.
pub(crate) proof fn lemma_conv_coef<T: Semiring>(a: Seq<T::V>, b: Seq<T::V>, k: int)
    requires
        a.len() >= 1,
        b.len() >= 1,
    ensures
        coef::<T>(conv::<T>(a, b), k) == conv_partial::<T>(a, b, k, a.len() as int),
{
    if k < 0 || k >= a.len() + b.len() - 1 {
        lemma_conv_partial_outside::<T>(a, b, k, a.len() as int);
    }
}

/// The first coefficient's share of coefficient `k` of the convolution.
pub open spec fn first_share<T: Semiring>(a: Seq<T::V>, b: Seq<T::V>, k: int) -> T::V {
    if 0 <= k < b.len() {
        T::add_spec(T::zero_spec(), T::mul_spec(a[0], b[k]))
    } else {
        T::zero_spec()
    }
}

/// A partial sum of the convolution splits into the first coefficient's share
/// and the partial sum of the convolution of the tail, one place lower.
proof fn lemma_conv_partial_split<T: Semiring>(a: Seq<T::V>, b: Seq<T::V>, k: int, i: int)
    requires
        semiring_laws::<T>(),
        a.len() >= 2,
        0 <= i < a.len(),
    ensures
        conv_partial::<T>(a, b, k, i + 1) == T::add_spec(
            first_share::<T>(a, b, k),
            conv_partial::<T>(a.drop_first(), b, k - 1, i),
        ),
    decreases i,
{
    let c0 = first_share::<T>(a, b, k);
    if i == 0 {
        assert(conv_partial::<T>(a, b, k, 0) == T::zero_spec());
        assert(T::add_spec(T::zero_spec(), T::zero_spec()) == T::zero_spec());
        assert(T::add_spec(c0, T::zero_spec()) == c0);
    } else {
        lemma_conv_partial_split::<T>(a, b, k, i - 1);
        let prev = conv_partial::<T>(a.drop_first(), b, k - 1, i - 1);
        let j = k - i;
        if 0 <= j < b.len() {
            assert(a.drop_first()[i - 1] == a[i]);
            let t = T::mul_spec(a[i], b[j]);
            assert(T::add_spec(T::add_spec(c0, prev), t) == T::add_spec(c0, T::add_spec(prev, t)));
        }
    }
}

/// `q` with every coefficient multiplied by `c` on the left.
pub open spec fn scale_left<T: Semiring>(c: T::V, q: Seq<T::V>) -> Seq<T::V> {
    q.map_values(|d: T::V| T::mul_spec(c, d))
}

/// Horner's scheme on `c * q` is `lift(c) * q(x)`.
proof fn lemma_horner_scale_left<T: Semiring, U: ScalesBy<T>>(c: T::V, q: Seq<T::V>, x: U::V)
    requires
        eval_multiplicative_laws::<T, U>(),
    ensures
        horner::<T, U>(scale_left::<T>(c, q), x) == U::mul_spec(
            U::scale_spec(U::one_spec(), c),
            horner::<T, U>(q, x),
        ),
    decreases q.len(),
{
    reveal(mul_commutative);
    reveal(mul_associative);
    let lc = U::scale_spec(U::one_spec(), c);
    let r = scale_left::<T>(c, q);
    if q.len() == 0 {
        assert(U::mul_spec(lc, U::zero_spec()) == U::zero_spec());
    } else {
        let q_rest = q.drop_first();
        lemma_horner_scale_left::<T, U>(c, q_rest, x);
        assert(r.drop_first() =~= scale_left::<T>(c, q_rest));
        let h = horner::<T, U>(q_rest, x);
        let lq = U::scale_spec(U::one_spec(), q[0]);
        assert(U::scale_spec(U::one_spec(), T::mul_spec(c, q[0])) == U::mul_spec(lc, lq));
        assert(U::mul_spec(U::mul_spec(lc, h), x) == U::mul_spec(lc, U::mul_spec(h, x)));
        let hx = U::mul_spec(h, x);
        assert(U::mul_spec(U::add_spec(hx, lq), lc) == U::add_spec(U::mul_spec(hx, lc), U::mul_spec(lq, lc)));
        assert(U::mul_spec(U::add_spec(hx, lq), lc) == U::mul_spec(lc, U::add_spec(hx, lq)));
        assert(U::mul_spec(hx, lc) == U::mul_spec(lc, hx));
        assert(U::mul_spec(lq, lc) == U::mul_spec(lc, lq));
    }
}

/// Horner's scheme on `[zero] ++ s` is `s(x) * x`.
proof fn lemma_horner_shift<T: Semiring, U: ScalesBy<T>>(s: Seq<T::V>, x: U::V)
    requires
        eval_additive_laws::<T, U>(),
    ensures
        horner::<T, U>(seq![T::zero_spec()] + s, x) == U::mul_spec(horner::<T, U>(s, x), x),
{
    let t = seq![T::zero_spec()] + s;
    assert(t.drop_first() =~= s);
    assert(U::add_spec(U::mul_spec(horner::<T, U>(s, x), x), U::zero_spec()) == U::mul_spec(
        horner::<T, U>(s, x),
        x,
    ));
}

/// The convolution with a single coefficient `c` has the coefficients of `c * q`.
pub(crate) proof fn lemma_conv_single_left<T: Semiring>(p: Seq<T::V>, q: Seq<T::V>, k: int)
    requires
        semiring_laws::<T>(),
        p.len() == 1,
        q.len() >= 1,
    ensures
        coef::<T>(conv::<T>(p, q), k) == coef::<T>(scale_left::<T>(p[0], q), k),
{
    lemma_conv_coef::<T>(p, q, k);
    assert(conv_partial::<T>(p, q, k, 0) == T::zero_spec());
    if 0 <= k < q.len() {
        assert(T::add_spec(T::zero_spec(), T::mul_spec(p[0], q[k])) == T::add_spec(
            T::mul_spec(p[0], q[k]),
            T::zero_spec(),
        ));
    }
}

/// The convolution of `p` and `q` has the coefficients of `p[0] * q` plus
/// the convolution of the tail of `p` with `q`, shifted up one place.
pub(crate) proof fn lemma_conv_decompose<T: Semiring>(p: Seq<T::V>, q: Seq<T::V>, k: int)
    requires
        semiring_laws::<T>(),
        p.len() >= 2,
        q.len() >= 1,
    ensures
        coef::<T>(conv::<T>(p, q), k) == coef::<T>(
            add_raw::<T>(
                scale_left::<T>(p[0], q),
                seq![T::zero_spec()] + conv::<T>(p.drop_first(), q),
            ),
            k,
        ),
{
    let p_rest = p.drop_first();
    let r = scale_left::<T>(p[0], q);
    let s_rest = conv::<T>(p_rest, q);
    let sh = seq![T::zero_spec()] + s_rest;
    lemma_conv_coef::<T>(p, q, k);
    lemma_conv_coef::<T>(p_rest, q, k - 1);
    lemma_conv_partial_split::<T>(p, q, k, p_rest.len() as int);
    lemma_add_raw_coef::<T>(r, sh, k);
    if 0 <= k < q.len() {
        assert(T::add_spec(T::zero_spec(), T::mul_spec(p[0], q[k])) == T::add_spec(
            T::mul_spec(p[0], q[k]),
            T::zero_spec(),
        ));
    }
    if k <= 0 {
        lemma_conv_partial_outside::<T>(p_rest, q, k - 1, p_rest.len() as int);
        assert(T::add_spec(T::zero_spec(), T::zero_spec()) == T::zero_spec());
    }
    if k >= 1 {
        assert(coef::<T>(sh, k) == coef::<T>(s_rest, k - 1));
    }
}

/// `lift * hq + (h2 * hq) * x == (h2 * x + lift) * hq` for a commutative,
/// associative multiplication that distributes over addition.
proof fn lemma_horner_mul_step<U: Semiring>(lift: U::V, h2: U::V, hq: U::V, x: U::V)
    requires
        semiring_laws::<U>(),
        mul_right_distributive::<U>(),
        mul_commutative::<U>(),
        mul_associative::<U>(),
    ensures
        U::add_spec(U::mul_spec(lift, hq), U::mul_spec(U::mul_spec(h2, hq), x)) == U::mul_spec(
            U::add_spec(U::mul_spec(h2, x), lift),
            hq,
        ),
{
    reveal(mul_commutative);
    reveal(mul_associative);
    let h2x = U::mul_spec(h2, x);
    assert(U::mul_spec(U::mul_spec(h2, hq), x) == U::mul_spec(h2, U::mul_spec(hq, x)));
    assert(U::mul_spec(hq, x) == U::mul_spec(x, hq));
    assert(U::mul_spec(h2, U::mul_spec(x, hq)) == U::mul_spec(h2x, hq));
    assert(U::mul_spec(U::add_spec(h2x, lift), hq) == U::add_spec(
        U::mul_spec(h2x, hq),
        U::mul_spec(lift, hq),
    ));
    assert(U::add_spec(U::mul_spec(lift, hq), U::mul_spec(h2x, hq)) == U::add_spec(
        U::mul_spec(h2x, hq),
        U::mul_spec(lift, hq),
    ));
}

/// Horner's scheme on the convolution with a single coefficient.
proof fn lemma_horner_conv_single<T: Semiring, U: ScalesBy<T>>(p: Seq<T::V>, q: Seq<T::V>, x: U::V)
    requires
        eval_multiplicative_laws::<T, U>(),
        p.len() == 1,
        q.len() >= 1,
    ensures
        horner::<T, U>(conv::<T>(p, q), x) == U::mul_spec(horner::<T, U>(p, x), horner::<T, U>(q, x)),
{
    let lp = U::scale_spec(U::one_spec(), p[0]);
    let r = scale_left::<T>(p[0], q);
    let s = conv::<T>(p, q);
    lemma_horner_scale_left::<T, U>(p[0], q, x);
    assert forall|k: int| #[trigger] coef::<T>(s, k) == coef::<T>(r, k) by {
        lemma_conv_single_left::<T>(p, q, k);
    }
    lemma_horner_same_coefs::<T, U>(s, r, x);
    assert(p.drop_first().len() == 0);
    assert(horner::<T, U>(p.drop_first(), x) == U::zero_spec());
    assert(U::mul_spec(U::zero_spec(), x) == U::zero_spec());
    assert(U::add_spec(U::zero_spec(), lp) == U::add_spec(lp, U::zero_spec()));
    assert(horner::<T, U>(p, x) == lp);
    assert(horner::<T, U>(s, x) == horner::<T, U>(r, x));
    assert(horner::<T, U>(r, x) == U::mul_spec(lp, horner::<T, U>(q, x)));
}

/// Horner's scheme on the convolution, one coefficient of `p` at a time.
proof fn lemma_horner_conv_step<T: Semiring, U: ScalesBy<T>>(p: Seq<T::V>, q: Seq<T::V>, x: U::V)
    requires
        eval_multiplicative_laws::<T, U>(),
        p.len() >= 2,
        q.len() >= 1,
        horner::<T, U>(conv::<T>(p.drop_first(), q), x) == U::mul_spec(
            horner::<T, U>(p.drop_first(), x),
            horner::<T, U>(q, x),
        ),
    ensures
        horner::<T, U>(conv::<T>(p, q), x) == U::mul_spec(horner::<T, U>(p, x), horner::<T, U>(q, x)),
{
    let lp = U::scale_spec(U::one_spec(), p[0]);
    let hq = horner::<T, U>(q, x);
    let r = scale_left::<T>(p[0], q);
    let s = conv::<T>(p, q);
    let p_rest = p.drop_first();
    let s_rest = conv::<T>(p_rest, q);
    let sh = seq![T::zero_spec()] + s_rest;
    lemma_horner_scale_left::<T, U>(p[0], q, x);
    assert forall|k: int| #[trigger] coef::<T>(s, k) == coef::<T>(add_raw::<T>(r, sh), k) by {
        lemma_conv_decompose::<T>(p, q, k);
    }
    lemma_horner_same_coefs::<T, U>(s, add_raw::<T>(r, sh), x);
    lemma_horner_add_raw::<T, U>(r, sh, x);
    lemma_horner_shift::<T, U>(s_rest, x);
    lemma_horner_mul_step::<U>(lp, horner::<T, U>(p_rest, x), hq, x);
}

/// Horner's scheme on the convolution is the product of the values.
proof fn lemma_horner_conv<T: Semiring, U: ScalesBy<T>>(p: Seq<T::V>, q: Seq<T::V>, x: U::V)
    requires
        eval_multiplicative_laws::<T, U>(),
        p.len() >= 1,
        q.len() >= 1,
    ensures
        horner::<T, U>(conv::<T>(p, q), x) == U::mul_spec(horner::<T, U>(p, x), horner::<T, U>(q, x)),
    decreases p.len(),
{
    if p.len() == 1 {
        lemma_horner_conv_single::<T, U>(p, q, x);
    } else {
        lemma_horner_conv::<T, U>(p.drop_first(), q, x);
        lemma_horner_conv_step::<T, U>(p, q, x);
    }
}

/// Evaluation is multiplicative: `(p * q)(x) == p(x) * q(x)`, for
/// polynomials and a point with commuting multiplication.
pub proof fn lemma_eval_mul<T: Semiring, U: ScalesBy<T>>(p: Seq<T::V>, q: Seq<T::V>, x: U::V)
    requires
        eval_multiplicative_laws::<T, U>(),
        is_normalized::<T>(p),
        is_normalized::<T>(q),
    ensures
        horner::<T, U>(poly_mul::<T>(p, q), x) == U::mul_spec(horner::<T, U>(p, x), horner::<T, U>(q, x)),
{
    let s = conv::<T>(p, q);
    assert forall|i: int| #[trigger] coef::<T>(normalize_seq::<T>(s), i) == coef::<T>(s, i) by {
        lemma_normalize_coef::<T>(s, i);
    }
    lemma_horner_same_coefs::<T, U>(normalize_seq::<T>(s), s, x);
    lemma_horner_conv::<T, U>(p, q, x);
}

} // verus!
