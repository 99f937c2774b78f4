//! The greatest common divisor, and the facts about it that fractions need.
use vstd::prelude::*;

verus! {

/// The greatest common divisor of two natural numbers, by Euclid's recursion;
/// `gcd(0, 0) == 0`.
pub open spec fn gcd(a: nat, b: nat) -> nat
    decreases b,
{
    if b == 0 {
        a
    } else {
        gcd(b, a % b)
    }
}

/// The magnitude of an integer.
pub open spec fn abs(x: int) -> nat {
    if x < 0 {
        (-x) as nat
    } else {
        x as nat
    }
}

/// The product `k * d`.
pub open spec fn times(k: int, d: int) -> int {
    k * d
}

/// `d` divides `x`.
pub open spec fn divides(d: int, x: int) -> bool {
    exists|k: int| #[trigger] times(k, d) == x
}

/// The greatest common divisor divides both arguments, and is positive
/// unless both are zero.
pub proof fn lemma_gcd_divides(a: nat, b: nat)
    ensures
        divides(gcd(a, b) as int, a as int),
        divides(gcd(a, b) as int, b as int),
        gcd(a, b) == 0 <==> (a == 0 && b == 0),
    decreases b,
{
    if b == 0 {
        assert(times(1, a as int) == a as int);
        assert(times(0, a as int) == 0);
    } else {
        let r = a % b;
        lemma_gcd_divides(b, r);
        let g = gcd(b, r) as int;
        let k1 = choose|k: int| #[trigger] times(k, g) == b as int;
        let k2 = choose|k: int| #[trigger] times(k, g) == r as int;
        let q = (a / b) as int;
        assert(a as int == q * (b as int) + r) by (nonlinear_arith)
            requires
                b > 0,
                q == a / b,
                r == a % b,
        ;
        assert((q * k1 + k2) * g == a as int) by (nonlinear_arith)
            requires
                k1 * g == b as int,
                k2 * g == r as int,
                a as int == q * (b as int) + r,
        ;
        assert(times(q * k1 + k2, g) == a as int);
    }
}

/// Every positive common divisor of `a` and `b` divides their greatest
/// common divisor.
pub proof fn lemma_common_divisor_divides_gcd(a: nat, b: nat, c: int)
    requires
        c > 0,
        divides(c, a as int),
        divides(c, b as int),
    ensures
        divides(c, gcd(a, b) as int),
    decreases b,
{
    if b > 0 {
        let r = a % b;
        let q = (a / b) as int;
        let k1 = choose|k: int| #[trigger] times(k, c) == a as int;
        let k2 = choose|k: int| #[trigger] times(k, c) == b as int;
        assert(a as int == q * (b as int) + r) by (nonlinear_arith)
            requires
                b > 0,
                q == a / b,
                r == a % b,
        ;
        assert((k1 - q * k2) * c == r as int) by (nonlinear_arith)
            requires
                k1 * c == a as int,
                k2 * c == b as int,
                a as int == q * (b as int) + r,
        ;
        assert(times(k1 - q * k2, c) == r as int);
        lemma_common_divisor_divides_gcd(b, r, c);
    }
}

/// Dividing two numbers, not both zero, by their greatest common divisor
/// leaves two numbers whose greatest common divisor is one.
pub proof fn lemma_divided_by_gcd_coprime(a: nat, b: nat)
    requires
        b > 0,
    ensures
        gcd(a, b) > 0,
        gcd((a / gcd(a, b)) as nat, (b / gcd(a, b)) as nat) == 1,
{
    lemma_gcd_divides(a, b);
    let g = gcd(a, b) as int;
    let a_rest = (a as int / g) as nat;
    let b_rest = (b as int / g) as nat;
    let ka = choose|k: int| #[trigger] times(k, g) == a as int;
    let kb = choose|k: int| #[trigger] times(k, g) == b as int;
    lemma_div_exact(ka, g);
    lemma_div_exact(kb, g);
    assert(a_rest as int == ka && b_rest as int == kb);
    assert(kb > 0) by (nonlinear_arith)
        requires
            kb * g == b as int,
            b > 0,
            g > 0,
    ;
    lemma_gcd_divides(a_rest, b_rest);
    let h = gcd(a_rest, b_rest) as int;
    let ja = choose|k: int| #[trigger] times(k, h) == a_rest as int;
    let jb = choose|k: int| #[trigger] times(k, h) == b_rest as int;
    assert(ja * (h * g) == a as int) by (nonlinear_arith)
        requires
            ja * h == ka,
            ka * g == a as int,
    ;
    assert(jb * (h * g) == b as int) by (nonlinear_arith)
        requires
            jb * h == kb,
            kb * g == b as int,
    ;
    assert(times(ja, h * g) == a as int);
    assert(times(jb, h * g) == b as int);
    assert(h * g > 0) by (nonlinear_arith)
        requires
            h > 0,
            g > 0,
    ;
    lemma_common_divisor_divides_gcd(a, b, h * g);
    let m = choose|k: int| #[trigger] times(k, h * g) == g;
    assert(h == 1) by (nonlinear_arith)
        requires
            m * (h * g) == g,
            h > 0,
            g > 0,
    ;
}

/// Dividing an exact multiple: `(k * d) / d == k`, for any sign of `k`.
pub proof fn lemma_div_exact(k: int, d: int)
    requires
        d > 0,
    ensures
        (k * d) / d == k,
{
    vstd::arithmetic::div_mod::lemma_div_multiples_vanish(k, d);
    assert(k * d == d * k) by (nonlinear_arith);
}

/// Relies on `num::integer::gcd` on `i64`: the greatest common divisor of the
/// two magnitudes, which is never negative. The smallest `i64` is excluded, on
/// which the call may overflow.
#[verifier::external_body]
pub(crate) fn gcd_i64(a: i64, b: i64) -> (r: i64)
    requires
        a != i64::MIN,
        b != i64::MIN,
    ensures
        r as int == gcd(abs(a as int), abs(b as int)) as int,
{
    num::integer::gcd(a, b)
}

} // verus!
