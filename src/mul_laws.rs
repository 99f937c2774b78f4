//! Associativity of polynomial multiplication, and the laws of powers that
//! follow from it.
use vstd::prelude::*;

use crate::algebra::{
    mul_associative, mul_left_distributive, mul_one_left, mul_right_distributive, mul_zero_left,
    semiring_laws, Semiring,
};
use crate::laws::{
    lemma_add_raw_coef, lemma_add_swap_middle, lemma_conv_coef, lemma_conv_decompose,
    lemma_conv_single_left, lemma_normalize_coef, lemma_normalize_idempotent,
    lemma_same_coefs_normalize, lemma_mul_one, scale_left,
};
use crate::poly_model::{
    add_raw, coef, conv, conv_partial, is_normalized, normalize_seq, poly_mul, poly_pow, pow_from,
};

verus! {

/// The laws of a semiring, with multiplication associative and distributing
/// over addition from both sides, and one and zero acting on both sides.
pub open spec fn mul_semiring_laws<T: Semiring>() -> bool {
    &&& semiring_laws::<T>()
    &&& mul_zero_left::<T>()
    &&& mul_one_left::<T>()
    &&& mul_right_distributive::<T>()
    &&& mul_left_distributive::<T>()
    &&& mul_associative::<T>()
}

/// The two sequences have the same coefficients.
pub open spec fn same_coefs<T: Semiring>(s: Seq<T::V>, t: Seq<T::V>) -> bool {
    forall|k: int| #[trigger] coef::<T>(s, k) == coef::<T>(t, k)
}

/// `s` moved up one place, with a zero constant term: `s * x`.
pub open spec fn shift<T: Semiring>(s: Seq<T::V>) -> Seq<T::V> {
    seq![T::zero_spec()] + s
}

/// The sum of `coef(a, i') * coef(b, k - i')` over `i' < i`, in increasing
/// order of `i'`, from zero.
pub open spec fn csum<T: Semiring>(a: Seq<T::V>, b: Seq<T::V>, k: int, i: int) -> T::V
    decreases i,
{
    if i <= 0 {
        T::zero_spec()
    } else {
        T::add_spec(csum::<T>(a, b, k, i - 1), T::mul_spec(coef::<T>(a, i - 1), coef::<T>(b, k - (i - 1))))
    }
}

proof fn lemma_csum_conv_partial<T: Semiring>(a: Seq<T::V>, b: Seq<T::V>, k: int, i: int)
    requires
        mul_semiring_laws::<T>(),
        0 <= i <= a.len(),
    ensures
        conv_partial::<T>(a, b, k, i) == csum::<T>(a, b, k, i),
    decreases i,
{
    if i > 0 {
        lemma_csum_conv_partial::<T>(a, b, k, i - 1);
        let j = k - (i - 1);
        if !(0 <= j < b.len()) {
            assert(T::mul_spec(a[i - 1], T::zero_spec()) == T::zero_spec());
        }
    }
}

proof fn lemma_csum_extend<T: Semiring>(a: Seq<T::V>, b: Seq<T::V>, k: int, n: int)
    requires
        mul_semiring_laws::<T>(),
        n >= a.len(),
    ensures
        csum::<T>(a, b, k, n) == csum::<T>(a, b, k, a.len() as int),
    decreases n,
{
    if n > a.len() {
        lemma_csum_extend::<T>(a, b, k, n - 1);
        assert(T::mul_spec(T::zero_spec(), coef::<T>(b, k - (n - 1))) == T::zero_spec());
    }
}

/// Every coefficient of the convolution is the full sum of products.
proof fn lemma_conv_csum<T: Semiring>(a: Seq<T::V>, b: Seq<T::V>, k: int, n: int)
    requires
        mul_semiring_laws::<T>(),
        a.len() >= 1,
        b.len() >= 1,
        n >= a.len(),
    ensures
        coef::<T>(conv::<T>(a, b), k) == csum::<T>(a, b, k, n),
{
    lemma_conv_coef::<T>(a, b, k);
    lemma_csum_conv_partial::<T>(a, b, k, a.len() as int);
    lemma_csum_extend::<T>(a, b, k, n);
}

proof fn lemma_csum_same_coefs<T: Semiring>(
    a: Seq<T::V>,
    a_rest: Seq<T::V>,
    b: Seq<T::V>,
    b_rest: Seq<T::V>,
    k: int,
    n: int,
)
    requires
        same_coefs::<T>(a, a_rest),
        same_coefs::<T>(b, b_rest),
    ensures
        csum::<T>(a, b, k, n) == csum::<T>(a_rest, b_rest, k, n),
    decreases n,
{
    if n > 0 {
        lemma_csum_same_coefs::<T>(a, a_rest, b, b_rest, k, n - 1);
        assert(coef::<T>(a, n - 1) == coef::<T>(a_rest, n - 1));
        assert(coef::<T>(b, k - (n - 1)) == coef::<T>(b_rest, k - (n - 1)));
    }
}

/// The convolution depends on the coefficients alone.
proof fn lemma_conv_same_coefs<T: Semiring>(a: Seq<T::V>, a_rest: Seq<T::V>, b: Seq<T::V>, b_rest: Seq<T::V>)
    requires
        mul_semiring_laws::<T>(),
        a.len() >= 1,
        a_rest.len() >= 1,
        b.len() >= 1,
        b_rest.len() >= 1,
        same_coefs::<T>(a, a_rest),
        same_coefs::<T>(b, b_rest),
    ensures
        same_coefs::<T>(conv::<T>(a, b), conv::<T>(a_rest, b_rest)),
{
    assert forall|k: int| #[trigger] coef::<T>(conv::<T>(a, b), k) == coef::<T>(conv::<T>(a_rest, b_rest), k) by {
        let n = if a.len() >= a_rest.len() { a.len() as int } else { a_rest.len() as int };
        lemma_conv_csum::<T>(a, b, k, n);
        lemma_conv_csum::<T>(a_rest, b_rest, k, n);
        lemma_csum_same_coefs::<T>(a, a_rest, b, b_rest, k, n);
    }
}

proof fn lemma_csum_add<T: Semiring>(x: Seq<T::V>, y: Seq<T::V>, c: Seq<T::V>, k: int, n: int)
    requires
        mul_semiring_laws::<T>(),
    ensures
        csum::<T>(add_raw::<T>(x, y), c, k, n) == T::add_spec(csum::<T>(x, c, k, n), csum::<T>(y, c, k, n)),
    decreases n,
{
    if n <= 0 {
        assert(T::add_spec(T::zero_spec(), T::zero_spec()) == T::zero_spec());
    } else {
        lemma_csum_add::<T>(x, y, c, k, n - 1);
        lemma_add_raw_coef::<T>(x, y, n - 1);
        let cc = coef::<T>(c, k - (n - 1));
        let xi = coef::<T>(x, n - 1);
        let yi = coef::<T>(y, n - 1);
        assert(T::mul_spec(T::add_spec(xi, yi), cc) == T::add_spec(T::mul_spec(xi, cc), T::mul_spec(yi, cc)));
        lemma_add_swap_middle::<T>(
            csum::<T>(x, c, k, n - 1),
            csum::<T>(y, c, k, n - 1),
            T::mul_spec(xi, cc),
            T::mul_spec(yi, cc),
        );
    }
}

/// Convolution distributes over coefficient-wise sums on the left.
proof fn lemma_conv_add<T: Semiring>(x: Seq<T::V>, y: Seq<T::V>, c: Seq<T::V>)
    requires
        mul_semiring_laws::<T>(),
        x.len() >= 1,
        y.len() >= 1,
        c.len() >= 1,
    ensures
        same_coefs::<T>(conv::<T>(add_raw::<T>(x, y), c), add_raw::<T>(conv::<T>(x, c), conv::<T>(y, c))),
{
    let s = add_raw::<T>(x, y);
    assert forall|k: int| #[trigger] coef::<T>(conv::<T>(s, c), k) == coef::<T>(
        add_raw::<T>(conv::<T>(x, c), conv::<T>(y, c)),
        k,
    ) by {
        let n = s.len() as int;
        lemma_conv_csum::<T>(s, c, k, n);
        lemma_conv_csum::<T>(x, c, k, n);
        lemma_conv_csum::<T>(y, c, k, n);
        lemma_csum_add::<T>(x, y, c, k, n);
        lemma_add_raw_coef::<T>(conv::<T>(x, c), conv::<T>(y, c), k);
    }
}

proof fn lemma_scale_left_coef<T: Semiring>(a0: T::V, b: Seq<T::V>, i: int)
    requires
        mul_semiring_laws::<T>(),
    ensures
        coef::<T>(scale_left::<T>(a0, b), i) == T::mul_spec(a0, coef::<T>(b, i)),
{
}

proof fn lemma_csum_scale_left<T: Semiring>(a0: T::V, b: Seq<T::V>, c: Seq<T::V>, k: int, n: int)
    requires
        mul_semiring_laws::<T>(),
    ensures
        csum::<T>(scale_left::<T>(a0, b), c, k, n) == T::mul_spec(a0, csum::<T>(b, c, k, n)),
    decreases n,
{
    if n > 0 {
        lemma_csum_scale_left::<T>(a0, b, c, k, n - 1);
        lemma_scale_left_coef::<T>(a0, b, n - 1);
        let bi = coef::<T>(b, n - 1);
        let cc = coef::<T>(c, k - (n - 1));
        reveal(mul_associative);
        assert(T::mul_spec(T::mul_spec(a0, bi), cc) == T::mul_spec(a0, T::mul_spec(bi, cc)));
        assert(T::mul_spec(a0, T::add_spec(csum::<T>(b, c, k, n - 1), T::mul_spec(bi, cc))) == T::add_spec(
            T::mul_spec(a0, csum::<T>(b, c, k, n - 1)),
            T::mul_spec(a0, T::mul_spec(bi, cc)),
        ));
    }
}

/// Convolution commutes with multiplying on the left by a coefficient.
proof fn lemma_conv_scale_left<T: Semiring>(a0: T::V, b: Seq<T::V>, c: Seq<T::V>)
    requires
        mul_semiring_laws::<T>(),
        b.len() >= 1,
        c.len() >= 1,
    ensures
        same_coefs::<T>(conv::<T>(scale_left::<T>(a0, b), c), scale_left::<T>(a0, conv::<T>(b, c))),
{
    assert forall|k: int| #[trigger] coef::<T>(conv::<T>(scale_left::<T>(a0, b), c), k) == coef::<T>(
        scale_left::<T>(a0, conv::<T>(b, c)),
        k,
    ) by {
        let n = b.len() as int;
        lemma_conv_csum::<T>(scale_left::<T>(a0, b), c, k, n);
        lemma_conv_csum::<T>(b, c, k, n);
        lemma_csum_scale_left::<T>(a0, b, c, k, n);
        lemma_scale_left_coef::<T>(a0, conv::<T>(b, c), k);
    }
}

proof fn lemma_csum_shift<T: Semiring>(x: Seq<T::V>, c: Seq<T::V>, k: int, n: int)
    requires
        mul_semiring_laws::<T>(),
        n >= 0,
    ensures
        csum::<T>(shift::<T>(x), c, k, n + 1) == csum::<T>(x, c, k - 1, n),
    decreases n,
{
    if n == 0 {
        assert(coef::<T>(shift::<T>(x), 0) == T::zero_spec());
        assert(T::mul_spec(T::zero_spec(), coef::<T>(c, k)) == T::zero_spec());
        assert(T::add_spec(T::zero_spec(), T::zero_spec()) == T::zero_spec());
        assert(csum::<T>(shift::<T>(x), c, k, 0) == T::zero_spec());
    } else {
        lemma_csum_shift::<T>(x, c, k, n - 1);
        assert(coef::<T>(shift::<T>(x), n) == coef::<T>(x, n - 1));
    }
}

/// Convolution commutes with moving the left operand up one place.
proof fn lemma_conv_shift<T: Semiring>(x: Seq<T::V>, c: Seq<T::V>)
    requires
        mul_semiring_laws::<T>(),
        x.len() >= 1,
        c.len() >= 1,
    ensures
        same_coefs::<T>(conv::<T>(shift::<T>(x), c), shift::<T>(conv::<T>(x, c))),
{
    assert forall|k: int| #[trigger] coef::<T>(conv::<T>(shift::<T>(x), c), k) == coef::<T>(
        shift::<T>(conv::<T>(x, c)),
        k,
    ) by {
        let n = x.len() as int;
        lemma_conv_csum::<T>(shift::<T>(x), c, k, n + 1);
        lemma_conv_csum::<T>(x, c, k - 1, n);
        lemma_csum_shift::<T>(x, c, k, n);
        if k >= 1 {
            assert(coef::<T>(shift::<T>(conv::<T>(x, c)), k) == coef::<T>(conv::<T>(x, c), k - 1));
        }
    }
}

/// The convolution is associative, coefficient by coefficient.
proof fn lemma_conv_associative<T: Semiring>(a: Seq<T::V>, b: Seq<T::V>, c: Seq<T::V>)
    requires
        mul_semiring_laws::<T>(),
        a.len() >= 1,
        b.len() >= 1,
        c.len() >= 1,
    ensures
        same_coefs::<T>(conv::<T>(conv::<T>(a, b), c), conv::<T>(a, conv::<T>(b, c))),
    decreases a.len(),
{
    let bc = conv::<T>(b, c);
    let sl = scale_left::<T>(a[0], b);
    lemma_conv_scale_left::<T>(a[0], b, c);
    if a.len() == 1 {
        assert forall|k: int| #[trigger] coef::<T>(conv::<T>(a, b), k) == coef::<T>(sl, k) by {
            lemma_conv_single_left::<T>(a, b, k);
        }
        assert forall|k: int| #[trigger] coef::<T>(conv::<T>(a, bc), k) == coef::<T>(
            scale_left::<T>(a[0], bc),
            k,
        ) by {
            lemma_conv_single_left::<T>(a, bc, k);
        }
        lemma_conv_same_coefs::<T>(conv::<T>(a, b), sl, c, c);
        assert forall|k: int| #[trigger] coef::<T>(conv::<T>(conv::<T>(a, b), c), k) == coef::<T>(
            conv::<T>(a, bc),
            k,
        ) by {
            assert(coef::<T>(conv::<T>(conv::<T>(a, b), c), k) == coef::<T>(conv::<T>(sl, c), k));
            assert(coef::<T>(conv::<T>(sl, c), k) == coef::<T>(scale_left::<T>(a[0], bc), k));
        }
    } else {
        let a_rest = a.drop_first();
        let d = conv::<T>(a_rest, b);
        let e = add_raw::<T>(sl, shift::<T>(d));
        lemma_conv_associative::<T>(a_rest, b, c);
        assert forall|k: int| #[trigger] coef::<T>(conv::<T>(a, b), k) == coef::<T>(e, k) by {
            lemma_conv_decompose::<T>(a, b, k);
        }
        lemma_conv_same_coefs::<T>(conv::<T>(a, b), e, c, c);
        lemma_conv_add::<T>(sl, shift::<T>(d), c);
        lemma_conv_shift::<T>(d, c);
        let f = add_raw::<T>(scale_left::<T>(a[0], bc), shift::<T>(conv::<T>(a_rest, bc)));
        assert forall|k: int| #[trigger] coef::<T>(conv::<T>(a, bc), k) == coef::<T>(f, k) by {
            lemma_conv_decompose::<T>(a, bc, k);
        }
        assert forall|k: int| #[trigger] coef::<T>(conv::<T>(conv::<T>(a, b), c), k) == coef::<T>(
            conv::<T>(a, bc),
            k,
        ) by {
            let g = conv::<T>(sl, c);
            let h = conv::<T>(shift::<T>(d), c);
            assert(coef::<T>(conv::<T>(conv::<T>(a, b), c), k) == coef::<T>(conv::<T>(e, c), k));
            assert(coef::<T>(conv::<T>(e, c), k) == coef::<T>(add_raw::<T>(g, h), k));
            lemma_add_raw_coef::<T>(g, h, k);
            lemma_add_raw_coef::<T>(scale_left::<T>(a[0], bc), shift::<T>(conv::<T>(a_rest, bc)), k);
            assert(coef::<T>(g, k) == coef::<T>(scale_left::<T>(a[0], bc), k));
            assert(coef::<T>(h, k) == coef::<T>(shift::<T>(conv::<T>(d, c)), k));
            if k >= 1 {
                assert(coef::<T>(shift::<T>(conv::<T>(d, c)), k) == coef::<T>(conv::<T>(d, c), k - 1));
                assert(coef::<T>(conv::<T>(d, c), k - 1) == coef::<T>(conv::<T>(a_rest, bc), k - 1));
                assert(coef::<T>(shift::<T>(conv::<T>(a_rest, bc)), k) == coef::<T>(conv::<T>(a_rest, bc), k - 1));
            } else if k == 0 {
                assert(coef::<T>(shift::<T>(conv::<T>(d, c)), k) == T::zero_spec());
                assert(coef::<T>(shift::<T>(conv::<T>(a_rest, bc)), k) == T::zero_spec());
            }
        }
    }
}

/// Multiplication of polynomials is associative.
pub proof fn lemma_mul_associative<T: Semiring>(a: Seq<T::V>, b: Seq<T::V>, c: Seq<T::V>)
    requires
        mul_semiring_laws::<T>(),
        is_normalized::<T>(a),
        is_normalized::<T>(b),
        is_normalized::<T>(c),
    ensures
        poly_mul::<T>(poly_mul::<T>(a, b), c) == poly_mul::<T>(a, poly_mul::<T>(b, c)),
{
    let ab = conv::<T>(a, b);
    let bc = conv::<T>(b, c);
    lemma_normalize_idempotent::<T>(ab);
    lemma_normalize_idempotent::<T>(bc);
    assert forall|k: int| #[trigger] coef::<T>(normalize_seq::<T>(ab), k) == coef::<T>(ab, k) by {
        lemma_normalize_coef::<T>(ab, k);
    }
    assert forall|k: int| #[trigger] coef::<T>(normalize_seq::<T>(bc), k) == coef::<T>(bc, k) by {
        lemma_normalize_coef::<T>(bc, k);
    }
    assert forall|k: int| #[trigger] coef::<T>(c, k) == coef::<T>(c, k) by {
    }
    assert forall|k: int| #[trigger] coef::<T>(a, k) == coef::<T>(a, k) by {
    }
    lemma_conv_same_coefs::<T>(normalize_seq::<T>(ab), ab, c, c);
    lemma_conv_same_coefs::<T>(a, a, normalize_seq::<T>(bc), bc);
    lemma_conv_associative::<T>(a, b, c);
    let lhs = conv::<T>(normalize_seq::<T>(ab), c);
    let rhs = conv::<T>(a, normalize_seq::<T>(bc));
    assert forall|k: int| #[trigger] coef::<T>(lhs, k) == coef::<T>(rhs, k) by {
        assert(coef::<T>(lhs, k) == coef::<T>(conv::<T>(ab, c), k));
        assert(coef::<T>(rhs, k) == coef::<T>(conv::<T>(a, bc), k));
    }
    lemma_same_coefs_normalize::<T>(lhs, rhs);
}

/// `p` multiplied by itself `n` times: `p * (p * ... (p * one))`.
pub open spec fn pow_naive<T: Semiring>(p: Seq<T::V>, n: nat) -> Seq<T::V>
    decreases n,
{
    if n == 0 {
        seq![T::one_spec()]
    } else {
        poly_mul::<T>(p, pow_naive::<T>(p, (n - 1) as nat))
    }
}

proof fn lemma_pow_naive_normalized<T: Semiring>(p: Seq<T::V>, n: nat)
    ensures
        is_normalized::<T>(pow_naive::<T>(p, n)),
{
    if n > 0 {
        lemma_normalize_idempotent::<T>(conv::<T>(p, pow_naive::<T>(p, (n - 1) as nat)));
    }
}

/// One is a left identity of multiplication on normalized polynomials.
proof fn lemma_one_mul<T: Semiring>(p: Seq<T::V>)
    requires
        mul_semiring_laws::<T>(),
        is_normalized::<T>(p),
    ensures
        poly_mul::<T>(seq![T::one_spec()], p) == p,
{
    let one = seq![T::one_spec()];
    let s = conv::<T>(one, p);
    assert forall|k: int| #[trigger] coef::<T>(s, k) == coef::<T>(p, k) by {
        lemma_conv_single_left::<T>(one, p, k);
        lemma_scale_left_coef::<T>(T::one_spec(), p, k);
    }
    lemma_same_coefs_normalize::<T>(s, p);
    lemma_normalize_idempotent::<T>(p);
}

/// `p^i * p^j == p^(i + j)` for repeated multiplication.
pub proof fn lemma_pow_naive_add<T: Semiring>(p: Seq<T::V>, i: nat, j: nat)
    requires
        mul_semiring_laws::<T>(),
        is_normalized::<T>(p),
    ensures
        poly_mul::<T>(pow_naive::<T>(p, i), pow_naive::<T>(p, j)) == pow_naive::<T>(p, i + j),
    decreases i,
{
    lemma_pow_naive_normalized::<T>(p, j);
    if i == 0 {
        lemma_one_mul::<T>(pow_naive::<T>(p, j));
    } else {
        let i1 = (i - 1) as nat;
        lemma_pow_naive_normalized::<T>(p, i1);
        lemma_pow_naive_add::<T>(p, i1, j);
        lemma_mul_associative::<T>(p, pow_naive::<T>(p, i1), pow_naive::<T>(p, j));
        assert((i + j - 1) as nat == i1 + j);
    }
}

/// Binary exponentiation from an accumulator `acc` and the base `p^m`
/// multiplies `acc` by `p^(m * e)`.
proof fn lemma_pow_from<T: Semiring>(p: Seq<T::V>, acc: Seq<T::V>, m: nat, e: nat)
    requires
        mul_semiring_laws::<T>(),
        is_normalized::<T>(p),
        is_normalized::<T>(acc),
    ensures
        pow_from::<T>(acc, pow_naive::<T>(p, m), e) == poly_mul::<T>(acc, pow_naive::<T>(p, m * e)),
    decreases e,
{
    let base = pow_naive::<T>(p, m);
    lemma_pow_naive_normalized::<T>(p, m);
    if e == 0 {
        lemma_mul_one::<T>(acc);
        assert(m * e == 0) by (nonlinear_arith)
            requires
                e == 0,
        ;
    } else {
        let next = if e % 2 == 1 {
            poly_mul::<T>(acc, base)
        } else {
            acc
        };
        lemma_normalize_idempotent::<T>(conv::<T>(acc, base));
        let h = e / 2;
        if h == 0 {
            assert(e == 1);
            assert(m * e == m) by (nonlinear_arith)
                requires
                    e == 1,
            ;
        } else {
            lemma_pow_naive_add::<T>(p, m, m);
            lemma_pow_from::<T>(p, next, m + m, h);
            let big = pow_naive::<T>(p, (m + m) * h);
            lemma_pow_naive_normalized::<T>(p, (m + m) * h);
            if e % 2 == 1 {
                lemma_mul_associative::<T>(acc, base, big);
                lemma_pow_naive_add::<T>(p, m, (m + m) * h);
                assert(m + (m + m) * h == m * e) by (nonlinear_arith)
                    requires
                        e == 2 * h + 1,
                ;
            } else {
                assert((m + m) * h == m * e) by (nonlinear_arith)
                    requires
                        e == 2 * h,
                ;
            }
        }
    }
}

/// Binary exponentiation gives the same result as repeated multiplication.
pub proof fn lemma_pow_is_repeated_multiplication<T: Semiring>(p: Seq<T::V>, n: nat)
    requires
        mul_semiring_laws::<T>(),
        is_normalized::<T>(p),
    ensures
        poly_pow::<T>(p, n) == pow_naive::<T>(p, n),
{
    lemma_mul_one::<T>(p);
    assert(pow_naive::<T>(p, 0) == seq![T::one_spec()]);
    assert(pow_naive::<T>(p, 1) == p);
    lemma_pow_from::<T>(p, seq![T::one_spec()], 1, n);
    lemma_pow_naive_normalized::<T>(p, n);
    lemma_one_mul::<T>(pow_naive::<T>(p, n));
}

/// `p^i * p^j == p^(i + j)` for the powers that binary exponentiation computes.
pub proof fn lemma_pow_law<T: Semiring>(p: Seq<T::V>, i: nat, j: nat)
    requires
        mul_semiring_laws::<T>(),
        is_normalized::<T>(p),
    ensures
        poly_mul::<T>(poly_pow::<T>(p, i), poly_pow::<T>(p, j)) == poly_pow::<T>(p, i + j),
{
    lemma_pow_is_repeated_multiplication::<T>(p, i);
    lemma_pow_is_repeated_multiplication::<T>(p, j);
    lemma_pow_is_repeated_multiplication::<T>(p, i + j);
    lemma_pow_naive_add::<T>(p, i, j);
}

} // verus!
