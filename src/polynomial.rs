//! Polynomials in one indeterminate over a coefficient semiring.
use vstd::prelude::*;

use crate::algebra::{Ring, ScalesBy, Semiring};
use crate::poly_model::{
    add_ok, add_raw, all_zero, coef, conv, conv_partial, conv_step_ok, horner, horner_ok,
    is_normalized, max_len, mul_ok, normalize_seq, poly_add, poly_mul, poly_pow, pow_from, pow_from_ok,
    pow_ok, scale_raw, sub_raw,
};

verus! {

/// The polynomial `c0 + c1 x + ... + cn x^n`, held as its coefficients from
/// the constant term up.
#[derive(Debug, Clone, PartialEq)]
pub struct Polynomial<T> {
    coefficients: Vec<T>,
}

impl<T: Semiring> View for Polynomial<T> {
    type V = Seq<T::V>;

    closed spec fn view(&self) -> Seq<T::V> {
        self.coefficients@.map_values(|c: T| c@)
    }
}

impl<T: Semiring> Polynomial<T> {
    /// The model of a vector of coefficients.
    pub open spec fn model_of(v: Seq<T>) -> Seq<T::V> {
        v.map_values(|c: T| c@)
    }

    /// The constant polynomial `c`.
    pub fn from_constant(c: T) -> (r: Self)
        ensures
            r@ == seq![c@],
    {
        let mut coefficients = Vec::new();
        coefficients.push(c);
        let r = Polynomial { coefficients };
        assert(r@ =~= seq![c@]);
        r
    }

    /// The polynomial with the given coefficients, constant term first,
    /// normalized.
    pub fn from_vector(coefficients: Vec<T>) -> (r: Self)
        ensures
            r@ == normalize_seq::<T>(Self::model_of(coefficients@)),
            is_normalized::<T>(r@),
    {
        let mut r = Polynomial { coefficients };
        assert(r@ == Self::model_of(r.coefficients@));
        r.normalize();
        r
    }

    /// The indeterminate `x`: the coefficients `[zero, one]`.
    pub fn x() -> (r: Self)
        ensures
            r@ == seq![T::zero_spec(), T::one_spec()],
    {
        let mut coefficients = Vec::new();
        coefficients.push(T::zero());
        coefficients.push(T::one());
        let r = Polynomial { coefficients };
        assert(r@ =~= seq![T::zero_spec(), T::one_spec()]);
        r
    }

    /// The monomial `x^n`: `n` zero coefficients followed by a one.
    pub fn x_pow(n: usize) -> (r: Self)
        requires
            n < usize::MAX,
        ensures
            r@ == Seq::new((n + 1) as nat, |i: int| if i == n { T::one_spec() } else { T::zero_spec() }),
    {
        let mut coefficients: Vec<T> = Vec::new();
        let mut i: usize = 0;
        while i < n
            invariant
                i <= n,
                coefficients@.len() == i,
                forall|k: int| 0 <= k < i ==> (#[trigger] coefficients@[k])@ == T::zero_spec(),
            decreases n - i,
        {
            coefficients.push(T::zero());
            i = i + 1;
        }
        coefficients.push(T::one());
        let r = Polynomial { coefficients };
        assert(r@ =~= Seq::new((n + 1) as nat, |i: int| if i == n { T::one_spec() } else { T::zero_spec() }));
        r
    }

    /// Drops trailing zero coefficients while more than one remains; an empty
    /// coefficient sequence becomes the single additive identity.
    pub fn normalize(&mut self)
        ensures
            final(self)@ == normalize_seq::<T>(old(self)@),
            is_normalized::<T>(final(self)@),
    {
        if self.coefficients.len() == 0 {
            self.coefficients.push(T::zero());
            assert(self@ =~= seq![T::zero_spec()]);
            return;
        }
        while self.coefficients.len() > 1 && self.coefficients[self.coefficients.len() - 1].is_zero()
            invariant
                self.coefficients@.len() >= 1,
                normalize_seq::<T>(self@) == normalize_seq::<T>(old(self)@),
            decreases self.coefficients@.len(),
        {
            let ghost before = self@;
            self.coefficients.pop();
            assert(self@ =~= before.drop_last());
        }
    }

    /// The value at `x`, by Horner's scheme from the highest coefficient
    /// down: `acc = acc * x + one * c`, starting from zero.
    pub fn eval<U: ScalesBy<T>>(&self, x: U) -> (r: U)
        requires
            horner_ok::<T, U>(self@, x@),
        ensures
            r@ == horner::<T, U>(self@, x@),
    {
        let n = self.coefficients.len();
        let mut result = U::zero();
        let mut i: usize = n;
        proof {
            assert(self@.subrange(n as int, n as int) =~= Seq::<T::V>::empty());
        }
        while i > 0
            invariant
                i <= n,
                n == self.coefficients@.len(),
                n == self@.len(),
                horner_ok::<T, U>(self@, x@),
                result@ == horner::<T, U>(self@.subrange(i as int, n as int), x@),
            decreases i,
        {
            let ghost tail = self@.subrange(i - 1, n as int);
            proof {
                assert(tail.drop_first() =~= self@.subrange(i as int, n as int));
                assert(tail[0] == self@[i - 1]);
                lemma_horner_ok_suffix::<T, U>(self@, x@, i - 1);
            }
            let lifted = U::one().scale(&self.coefficients[i - 1]);
            result = result.mul(&x).add(&lifted);
            i = i - 1;
        }
        assert(self@.subrange(0, n as int) =~= self@);
        result
    }
}

impl<T: Semiring> Semiring for Polynomial<T> {
    open spec fn zero_spec() -> Seq<T::V> {
        seq![T::zero_spec()]
    }

    open spec fn one_spec() -> Seq<T::V> {
        seq![T::one_spec()]
    }

    open spec fn add_spec(a: Seq<T::V>, b: Seq<T::V>) -> Seq<T::V> {
        poly_add::<T>(a, b)
    }

    open spec fn mul_spec(a: Seq<T::V>, b: Seq<T::V>) -> Seq<T::V> {
        poly_mul::<T>(a, b)
    }

    open spec fn is_zero_spec(a: Seq<T::V>) -> bool {
        all_zero::<T>(a)
    }

    open spec fn add_req(a: Seq<T::V>, b: Seq<T::V>) -> bool {
        add_ok::<T>(a, b)
    }

    open spec fn mul_req(a: Seq<T::V>, b: Seq<T::V>) -> bool {
        mul_ok::<T>(a, b)
    }

    fn zero() -> (r: Self) {
        Self::from_constant(T::zero())
    }

    fn one() -> (r: Self) {
        Self::from_constant(T::one())
    }

    fn is_zero(&self) -> (r: bool) {
        let n = self.coefficients.len();
        let mut i: usize = 0;
        while i < n
            invariant
                i <= n,
                n == self@.len(),
                forall|k: int| 0 <= k < i ==> T::is_zero_spec(#[trigger] self@[k]),
            decreases n - i,
        {
            if !self.coefficients[i].is_zero() {
                assert(self@[i as int] == self.coefficients@[i as int]@);
                return false;
            }
            i = i + 1;
        }
        true
    }

    fn add(&self, other: &Self) -> (r: Self) {
        let la = self.coefficients.len();
        let lb = other.coefficients.len();
        let n = if la >= lb { la } else { lb };
        let mut coefficients: Vec<T> = Vec::new();
        let mut i: usize = 0;
        while i < n
            invariant
                i <= n,
                la == self@.len(),
                lb == other@.len(),
                n == max_len(la as nat, lb as nat),
                add_ok::<T>(self@, other@),
                coefficients@.len() == i,
                forall|k: int|
                    0 <= k < i ==> (#[trigger] coefficients@[k])@ == T::add_spec(
                        coef::<T>(self@, k),
                        coef::<T>(other@, k),
                    ),
            decreases n - i,
        {
            let a = if i < la { self.coefficients[i].duplicate() } else { T::zero() };
            let b = if i < lb { other.coefficients[i].duplicate() } else { T::zero() };
            assert(T::add_req(coef::<T>(self@, i as int), coef::<T>(other@, i as int)));
            coefficients.push(a.add(&b));
            i = i + 1;
        }
        assert(Self::model_of(coefficients@) =~= add_raw::<T>(self@, other@));
        Self::from_vector(coefficients)
    }

    fn mul(&self, other: &Self) -> (r: Self) {
        let la = self.coefficients.len();
        let lb = other.coefficients.len();
        let n = la - 1 + lb;
        let mut coefficients: Vec<T> = Vec::new();
        let mut k: usize = 0;
        while k < n
            invariant
                k <= n,
                coefficients@.len() == k,
                forall|m: int| 0 <= m < k ==> (#[trigger] coefficients@[m])@ == T::zero_spec(),
            decreases n - k,
        {
            coefficients.push(T::zero());
            k = k + 1;
        }
        let mut i: usize = 0;
        while i < la
            invariant
                i <= la,
                la == self@.len(),
                lb == other@.len(),
                n == la + lb - 1,
                mul_ok::<T>(self@, other@),
                coefficients@.len() == n,
                forall|m: int|
                    0 <= m < n ==> (#[trigger] coefficients@[m])@ == conv_partial::<T>(
                        self@,
                        other@,
                        m,
                        i as int,
                    ),
            decreases la - i,
        {
            let mut j: usize = 0;
            while j < lb
                invariant
                    i < la,
                    j <= lb,
                    la == self@.len(),
                    lb == other@.len(),
                    n == la + lb - 1,
                    mul_ok::<T>(self@, other@),
                    coefficients@.len() == n,
                    forall|m: int|
                        0 <= m < n ==> (#[trigger] coefficients@[m])@ == if i <= m < i + j {
                            conv_partial::<T>(self@, other@, m, i + 1)
                        } else {
                            conv_partial::<T>(self@, other@, m, i as int)
                        },
                decreases lb - j,
            {
                assert(conv_step_ok::<T>(self@, other@, i as int, j as int));
                let prod = self.coefficients[i].mul(&other.coefficients[j]);
                let sum = coefficients[i + j].add(&prod);
                coefficients.set(i + j, sum);
                j = j + 1;
            }
            assert forall|m: int| 0 <= m < n implies (#[trigger] coefficients@[m])@
                == conv_partial::<T>(self@, other@, m, i + 1) by {
                if !(i <= m < i + lb) {
                    assert(conv_partial::<T>(self@, other@, m, i + 1) == conv_partial::<T>(
                        self@,
                        other@,
                        m,
                        i as int,
                    ));
                }
            }
            i = i + 1;
        }
        assert(Self::model_of(coefficients@) =~= conv::<T>(self@, other@));
        Self::from_vector(coefficients)
    }

    fn duplicate(&self) -> (r: Self) {
        let n = self.coefficients.len();
        let mut coefficients: Vec<T> = Vec::new();
        let mut i: usize = 0;
        while i < n
            invariant
                i <= n,
                n == self@.len(),
                coefficients@.len() == i,
                forall|k: int| 0 <= k < i ==> (#[trigger] coefficients@[k])@ == self@[k],
            decreases n - i,
        {
            coefficients.push(self.coefficients[i].duplicate());
            i = i + 1;
        }
        let r = Polynomial { coefficients };
        assert(r@ =~= self@);
        r
    }
}

impl<T: Ring> Ring for Polynomial<T> {
    open spec fn neg_spec(a: Seq<T::V>) -> Seq<T::V> {
        a.map_values(|c: T::V| T::neg_spec(c))
    }

    open spec fn sub_spec(a: Seq<T::V>, b: Seq<T::V>) -> Seq<T::V> {
        normalize_seq::<T>(sub_raw::<T>(a, b))
    }

    open spec fn neg_req(a: Seq<T::V>) -> bool {
        forall|i: int| 0 <= i < a.len() ==> T::neg_req(#[trigger] a[i])
    }

    open spec fn sub_req(a: Seq<T::V>, b: Seq<T::V>) -> bool {
        forall|i: int|
            0 <= i < max_len(a.len(), b.len()) ==> #[trigger] T::sub_req(
                coef::<T>(a, i),
                coef::<T>(b, i),
            )
    }

    fn neg(&self) -> (r: Self) {
        let n = self.coefficients.len();
        let mut coefficients: Vec<T> = Vec::new();
        let mut i: usize = 0;
        while i < n
            invariant
                i <= n,
                n == self@.len(),
                Self::neg_req(self@),
                coefficients@.len() == i,
                forall|k: int| 0 <= k < i ==> (#[trigger] coefficients@[k])@ == T::neg_spec(self@[k]),
            decreases n - i,
        {
            assert(T::neg_req(self@[i as int]));
            coefficients.push(self.coefficients[i].neg());
            i = i + 1;
        }
        let r = Polynomial { coefficients };
        assert(r@ =~= Self::neg_spec(self@));
        r
    }

    fn sub(&self, other: &Self) -> (r: Self) {
        let la = self.coefficients.len();
        let lb = other.coefficients.len();
        let n = if la >= lb { la } else { lb };
        let mut coefficients: Vec<T> = Vec::new();
        let mut i: usize = 0;
        while i < n
            invariant
                i <= n,
                la == self@.len(),
                lb == other@.len(),
                n == max_len(la as nat, lb as nat),
                Self::sub_req(self@, other@),
                coefficients@.len() == i,
                forall|k: int|
                    0 <= k < i ==> (#[trigger] coefficients@[k])@ == T::sub_spec(
                        coef::<T>(self@, k),
                        coef::<T>(other@, k),
                    ),
            decreases n - i,
        {
            let a = if i < la { self.coefficients[i].duplicate() } else { T::zero() };
            let b = if i < lb { other.coefficients[i].duplicate() } else { T::zero() };
            assert(T::sub_req(coef::<T>(self@, i as int), coef::<T>(other@, i as int)));
            coefficients.push(a.sub(&b));
            i = i + 1;
        }
        assert(Self::model_of(coefficients@) =~= sub_raw::<T>(self@, other@));
        Self::from_vector(coefficients)
    }
}

impl<T: Semiring> ScalesBy<T> for Polynomial<T> {
    open spec fn scale_spec(a: Seq<T::V>, c: T::V) -> Seq<T::V> {
        normalize_seq::<T>(scale_raw::<T>(a, c))
    }

    open spec fn scale_req(a: Seq<T::V>, c: T::V) -> bool {
        forall|i: int| 0 <= i < a.len() ==> T::mul_req(#[trigger] a[i], c)
    }

    fn scale(&self, c: &T) -> (r: Self) {
        let n = self.coefficients.len();
        let mut coefficients: Vec<T> = Vec::new();
        let mut i: usize = 0;
        while i < n
            invariant
                i <= n,
                n == self@.len(),
                Self::scale_req(self@, c@),
                coefficients@.len() == i,
                forall|k: int|
                    0 <= k < i ==> (#[trigger] coefficients@[k])@ == T::mul_spec(self@[k], c@),
            decreases n - i,
        {
            assert(T::mul_req(self@[i as int], c@));
            coefficients.push(self.coefficients[i].mul(c));
            i = i + 1;
        }
        assert(Self::model_of(coefficients@) =~= scale_raw::<T>(self@, c@));
        Self::from_vector(coefficients)
    }
}

impl<T: Semiring> Polynomial<T> {
    /// Adds `c` to the constant term, leaving the other coefficients as they
    /// are, and normalizes.
    pub fn add_constant(&self, c: &T) -> (r: Self)
        requires
            self@.len() >= 1,
            T::add_req(self@[0], c@),
        ensures
            r@ == normalize_seq::<T>(self@.update(0, T::add_spec(self@[0], c@))),
    {
        let mut coefficients = self.duplicate().coefficients;
        let first = coefficients[0].add(c);
        coefficients.set(0, first);
        assert(Self::model_of(coefficients@) =~= self@.update(0, T::add_spec(self@[0], c@)));
        Self::from_vector(coefficients)
    }

    /// This polynomial raised to the power `n` by binary exponentiation:
    /// starting from one, for each bit of `n` from the lowest, multiply the
    /// current base into the result when the bit is set, then square the base.
    /// `n == 0` gives one, whatever the polynomial.
    pub fn pow(&self, n: usize) -> (r: Self)
        requires
            pow_ok::<T>(self@, n as nat),
        ensures
            r@ == poly_pow::<T>(self@, n as nat),
    {
        let mut result = Self::one();
        let mut base = self.duplicate();
        let mut exp = n;
        while exp > 0
            invariant
                pow_from::<T>(result@, base@, exp as nat) == poly_pow::<T>(self@, n as nat),
                pow_from_ok::<T>(result@, base@, exp as nat),
            decreases exp,
        {
            if exp % 2 == 1 {
                result = result.mul(&base);
            }
            exp = exp / 2;
            if exp > 0 {
                base = base.mul(&base);
            }
        }
        result
    }
}

impl<T: Ring> Polynomial<T> {
    /// Subtracts `c` from the constant term, leaving the other coefficients
    /// as they are, and normalizes.
    pub fn sub_constant(&self, c: &T) -> (r: Self)
        requires
            self@.len() >= 1,
            T::sub_req(self@[0], c@),
        ensures
            r@ == normalize_seq::<T>(self@.update(0, T::sub_spec(self@[0], c@))),
    {
        let mut coefficients = self.duplicate().coefficients;
        let first = coefficients[0].sub(c);
        coefficients.set(0, first);
        assert(Self::model_of(coefficients@) =~= self@.update(0, T::sub_spec(self@[0], c@)));
        Self::from_vector(coefficients)
    }
}

/// Horner's scheme is representable on every suffix once it is on the whole.
proof fn lemma_horner_ok_suffix<T: Semiring, U: ScalesBy<T>>(s: Seq<T::V>, x: U::V, k: int)
    requires
        horner_ok::<T, U>(s, x),
        0 <= k <= s.len(),
    ensures
        horner_ok::<T, U>(s.subrange(k, s.len() as int), x),
    decreases k,
{
    if k > 0 {
        lemma_horner_ok_suffix::<T, U>(s, x, k - 1);
        let t = s.subrange(k - 1, s.len() as int);
        assert(t.drop_first() =~= s.subrange(k, s.len() as int));
    } else {
        assert(s.subrange(0, s.len() as int) =~= s);
    }
}

} // verus!
