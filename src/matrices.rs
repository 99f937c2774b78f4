//! Square matrices of a fixed dimension over a coefficient semiring.
use vstd::prelude::*;

use crate::algebra::{Ring, ScalesBy, Semiring};

verus! {

/// An `N` by `N` matrix, held row by row.
#[derive(Debug, Clone, Copy, PartialEq)]
pub struct SquareMatrix<T, const N: usize> {
    data: [[T; N]; N],
}

/// The model of a grid: its rows, each the models of its entries.
pub open spec fn grid_model<T: View, const N: usize>(d: [[T; N]; N]) -> Seq<Seq<T::V>> {
    Seq::new(N as nat, |i: int| Seq::new(N as nat, |j: int| d@[i]@[j]@))
}

/// The `N` by `N` grid whose entry `(i, j)` is `f(i, j)`.
pub open spec fn grid<V, const N: usize>(f: spec_fn(int, int) -> V) -> Seq<Seq<V>> {
    Seq::new(N as nat, |i: int| Seq::new(N as nat, |j: int| f(i, j)))
}

/// The sum of `a[i][k'] * b[k'][j]` over `k' < k`, accumulated in increasing
/// order of `k'` from the additive identity.
pub open spec fn dot<T: Semiring>(a: Seq<Seq<T::V>>, b: Seq<Seq<T::V>>, i: int, j: int, k: int) -> T::V
    decreases k,
{
    if k <= 0 {
        T::zero_spec()
    } else {
        T::add_spec(dot::<T>(a, b, i, j, k - 1), T::mul_spec(a[i][k - 1], b[k - 1][j]))
    }
}

/// The product `a[i][k] * b[k][j]` and its addition into entry `(i, j)` are
/// representable.
pub open spec fn dot_step_ok<T: Semiring>(a: Seq<Seq<T::V>>, b: Seq<Seq<T::V>>, i: int, j: int, k: int) -> bool {
    T::mul_req(a[i][k], b[k][j]) && T::add_req(dot::<T>(a, b, i, j, k), T::mul_spec(a[i][k], b[k][j]))
}

impl<T: View, const N: usize> View for SquareMatrix<T, N> {
    type V = Seq<Seq<T::V>>;

    closed spec fn view(&self) -> Seq<Seq<T::V>> {
        grid_model(self.data)
    }
}

impl<T: Copy + View, const N: usize> SquareMatrix<T, N> {
    /// The matrix with the given rows.
    pub fn new(data: [[T; N]; N]) -> (r: Self)
        ensures
            r@ == grid_model(data),
    {
        SquareMatrix { data }
    }

    /// The rows of the matrix.
    pub fn data(&self) -> (r: &[[T; N]; N])
        ensures
            grid_model(*r) == self@,
    {
        &self.data
    }
}

impl<T: Semiring + Copy, const N: usize> SquareMatrix<T, N> {
    /// The grid with every entry the additive identity.
    fn zero_grid() -> (d: [[T; N]; N])
        ensures
            forall|r: int, c: int| 0 <= r < N && 0 <= c < N ==> (#[trigger] d@[r]@[c])@ == T::zero_spec(),
    {
        let z = T::zero();
        let row = [z; N];
        assert(forall|c: int| 0 <= c < N ==> row@[c] == z);
        let mut d = [row; N];
        let mut i: usize = 0;
        while i < N
            invariant
                i <= N,
                forall|c: int| 0 <= c < N ==> (#[trigger] row@[c])@ == T::zero_spec(),
                forall|r: int| 0 <= r < i ==> #[trigger] d@[r] == row,
            decreases N - i,
        {
            d[i] = row;
            i = i + 1;
        }
        d
    }
}

impl<T: Semiring + Copy, const N: usize> Semiring for SquareMatrix<T, N> {
    open spec fn zero_spec() -> Seq<Seq<T::V>> {
        grid::<T::V, N>(|i: int, j: int| T::zero_spec())
    }

    open spec fn one_spec() -> Seq<Seq<T::V>> {
        grid::<T::V, N>(|i: int, j: int| if i == j { T::one_spec() } else { T::zero_spec() })
    }

    open spec fn add_spec(a: Seq<Seq<T::V>>, b: Seq<Seq<T::V>>) -> Seq<Seq<T::V>> {
        grid::<T::V, N>(|i: int, j: int| T::add_spec(a[i][j], b[i][j]))
    }

    open spec fn mul_spec(a: Seq<Seq<T::V>>, b: Seq<Seq<T::V>>) -> Seq<Seq<T::V>> {
        grid::<T::V, N>(|i: int, j: int| dot::<T>(a, b, i, j, N as int))
    }

    open spec fn is_zero_spec(a: Seq<Seq<T::V>>) -> bool {
        forall|i: int, j: int| 0 <= i < N && 0 <= j < N ==> T::is_zero_spec(#[trigger] a[i][j])
    }

    open spec fn add_req(a: Seq<Seq<T::V>>, b: Seq<Seq<T::V>>) -> bool {
        forall|i: int, j: int| 0 <= i < N && 0 <= j < N ==> #[trigger] T::add_req(a[i][j], b[i][j])
    }

    open spec fn mul_req(a: Seq<Seq<T::V>>, b: Seq<Seq<T::V>>) -> bool {
        forall|i: int, j: int, k: int|
            0 <= i < N && 0 <= j < N && 0 <= k < N ==> #[trigger] dot_step_ok::<T>(a, b, i, j, k)
    }

    fn zero() -> (r: Self) {
        let r = SquareMatrix { data: Self::zero_grid() };
        assert(r@ =~~= Self::zero_spec());
        r
    }

    fn one() -> (r: Self) {
        let mut data = Self::zero_grid();
        let mut i: usize = 0;
        while i < N
            invariant
                i <= N,
                forall|r: int, c: int|
                    0 <= r < N && 0 <= c < N ==> (#[trigger] data@[r]@[c])@ == if r == c && r < i {
                        T::one_spec()
                    } else {
                        T::zero_spec()
                    },
            decreases N - i,
        {
            let mut row = data[i];
            row[i] = T::one();
            data[i] = row;
            i = i + 1;
        }
        let r = SquareMatrix { data };
        assert(r@ =~~= Self::one_spec());
        r
    }

    fn is_zero(&self) -> (r: bool) {
        let mut i: usize = 0;
        while i < N
            invariant
                i <= N,
                forall|r: int, c: int| 0 <= r < i && 0 <= c < N ==> T::is_zero_spec(#[trigger] self@[r][c]),
            decreases N - i,
        {
            let mut j: usize = 0;
            while j < N
                invariant
                    i < N,
                    j <= N,
                    forall|r: int, c: int|
                        0 <= r < N && 0 <= c < N && (r < i || (r == i && c < j)) ==> T::is_zero_spec(
                            #[trigger] self@[r][c],
                        ),
                decreases N - j,
            {
                if !self.data[i][j].is_zero() {
                    assert(self@[i as int][j as int] == self.data@[i as int]@[j as int]@);
                    return false;
                }
                j = j + 1;
            }
            i = i + 1;
        }
        true
    }

    fn add(&self, other: &Self) -> (r: Self) {
        let mut data = Self::zero_grid();
        let mut i: usize = 0;
        while i < N
            invariant
                i <= N,
                Self::add_req(self@, other@),
                forall|r: int, c: int|
                    0 <= r < i && 0 <= c < N ==> (#[trigger] data@[r]@[c])@ == T::add_spec(
                        self@[r][c],
                        other@[r][c],
                    ),
            decreases N - i,
        {
            let mut row = data[i];
            let mut j: usize = 0;
            while j < N
                invariant
                    i < N,
                    j <= N,
                    Self::add_req(self@, other@),
                    forall|c: int|
                        0 <= c < j ==> (#[trigger] row@[c])@ == T::add_spec(self@[i as int][c], other@[i as int][c]),
                decreases N - j,
            {
                assert(T::add_req(self@[i as int][j as int], other@[i as int][j as int]));
                row[j] = self.data[i][j].add(&other.data[i][j]);
                j = j + 1;
            }
            data[i] = row;
            i = i + 1;
        }
        let r = SquareMatrix { data };
        assert(r@ =~~= Self::add_spec(self@, other@));
        r
    }

    fn mul(&self, other: &Self) -> (r: Self) {
        let mut data = Self::zero_grid();
        let mut i: usize = 0;
        while i < N
            invariant
                i <= N,
                Self::mul_req(self@, other@),
                forall|r: int, c: int|
                    0 <= r < i && 0 <= c < N ==> (#[trigger] data@[r]@[c])@ == dot::<T>(
                        self@,
                        other@,
                        r,
                        c,
                        N as int,
                    ),
            decreases N - i,
        {
            let mut row = data[i];
            let mut j: usize = 0;
            while j < N
                invariant
                    i < N,
                    j <= N,
                    Self::mul_req(self@, other@),
                    forall|c: int|
                        0 <= c < j ==> (#[trigger] row@[c])@ == dot::<T>(self@, other@, i as int, c, N as int),
                decreases N - j,
            {
                let mut sum = T::zero();
                let mut k: usize = 0;
                while k < N
                    invariant
                        i < N,
                        j < N,
                        k <= N,
                        Self::mul_req(self@, other@),
                        sum@ == dot::<T>(self@, other@, i as int, j as int, k as int),
                    decreases N - k,
                {
                    assert(dot_step_ok::<T>(self@, other@, i as int, j as int, k as int));
                    let prod = self.data[i][k].mul(&other.data[k][j]);
                    sum = sum.add(&prod);
                    k = k + 1;
                }
                row[j] = sum;
                j = j + 1;
            }
            data[i] = row;
            i = i + 1;
        }
        let r = SquareMatrix { data };
        assert(r@ =~~= Self::mul_spec(self@, other@));
        r
    }

    fn duplicate(&self) -> (r: Self) {
        *self
    }
}

impl<T: Ring + Copy, const N: usize> Ring for SquareMatrix<T, N> {
    open spec fn neg_spec(a: Seq<Seq<T::V>>) -> Seq<Seq<T::V>> {
        grid::<T::V, N>(|i: int, j: int| T::neg_spec(a[i][j]))
    }

    open spec fn sub_spec(a: Seq<Seq<T::V>>, b: Seq<Seq<T::V>>) -> Seq<Seq<T::V>> {
        grid::<T::V, N>(|i: int, j: int| T::sub_spec(a[i][j], b[i][j]))
    }

    open spec fn neg_req(a: Seq<Seq<T::V>>) -> bool {
        forall|i: int, j: int| 0 <= i < N && 0 <= j < N ==> #[trigger] T::neg_req(a[i][j])
    }

    open spec fn sub_req(a: Seq<Seq<T::V>>, b: Seq<Seq<T::V>>) -> bool {
        forall|i: int, j: int| 0 <= i < N && 0 <= j < N ==> #[trigger] T::sub_req(a[i][j], b[i][j])
    }

    fn neg(&self) -> (r: Self) {
        let mut data = Self::zero_grid();
        let mut i: usize = 0;
        while i < N
            invariant
                i <= N,
                Self::neg_req(self@),
                forall|r: int, c: int|
                    0 <= r < i && 0 <= c < N ==> (#[trigger] data@[r]@[c])@ == T::neg_spec(self@[r][c]),
            decreases N - i,
        {
            let mut row = data[i];
            let mut j: usize = 0;
            while j < N
                invariant
                    i < N,
                    j <= N,
                    Self::neg_req(self@),
                    forall|c: int| 0 <= c < j ==> (#[trigger] row@[c])@ == T::neg_spec(self@[i as int][c]),
                decreases N - j,
            {
                assert(T::neg_req(self@[i as int][j as int]));
                row[j] = self.data[i][j].neg();
                j = j + 1;
            }
            data[i] = row;
            i = i + 1;
        }
        let r = SquareMatrix { data };
        assert(r@ =~~= Self::neg_spec(self@));
        r
    }

    fn sub(&self, other: &Self) -> (r: Self) {
        let mut data = Self::zero_grid();
        let mut i: usize = 0;
        while i < N
            invariant
                i <= N,
                Self::sub_req(self@, other@),
                forall|r: int, c: int|
                    0 <= r < i && 0 <= c < N ==> (#[trigger] data@[r]@[c])@ == T::sub_spec(
                        self@[r][c],
                        other@[r][c],
                    ),
            decreases N - i,
        {
            let mut row = data[i];
            let mut j: usize = 0;
            while j < N
                invariant
                    i < N,
                    j <= N,
                    Self::sub_req(self@, other@),
                    forall|c: int|
                        0 <= c < j ==> (#[trigger] row@[c])@ == T::sub_spec(self@[i as int][c], other@[i as int][c]),
                decreases N - j,
            {
                assert(T::sub_req(self@[i as int][j as int], other@[i as int][j as int]));
                row[j] = self.data[i][j].sub(&other.data[i][j]);
                j = j + 1;
            }
            data[i] = row;
            i = i + 1;
        }
        let r = SquareMatrix { data };
        assert(r@ =~~= Self::sub_spec(self@, other@));
        r
    }
}

impl<T: Semiring + Copy, const N: usize> ScalesBy<T> for SquareMatrix<T, N> {
    open spec fn scale_spec(a: Seq<Seq<T::V>>, c: T::V) -> Seq<Seq<T::V>> {
        grid::<T::V, N>(|i: int, j: int| T::mul_spec(a[i][j], c))
    }

    open spec fn scale_req(a: Seq<Seq<T::V>>, c: T::V) -> bool {
        forall|i: int, j: int| 0 <= i < N && 0 <= j < N ==> #[trigger] T::mul_req(a[i][j], c)
    }

    fn scale(&self, c: &T) -> (r: Self) {
        let mut data = Self::zero_grid();
        let mut i: usize = 0;
        while i < N
            invariant
                i <= N,
                <Self as ScalesBy<T>>::scale_req(self@, c@),
                forall|r: int, k: int|
                    0 <= r < i && 0 <= k < N ==> (#[trigger] data@[r]@[k])@ == T::mul_spec(self@[r][k], c@),
            decreases N - i,
        {
            let mut row = data[i];
            let mut j: usize = 0;
            while j < N
                invariant
                    i < N,
                    j <= N,
                    <Self as ScalesBy<T>>::scale_req(self@, c@),
                    forall|k: int| 0 <= k < j ==> (#[trigger] row@[k])@ == T::mul_spec(self@[i as int][k], c@),
                decreases N - j,
            {
                assert(T::mul_req(self@[i as int][j as int], c@));
                row[j] = self.data[i][j].mul(c);
                j = j + 1;
            }
            data[i] = row;
            i = i + 1;
        }
        let r = SquareMatrix { data };
        assert(r@ =~~= <Self as ScalesBy<T>>::scale_spec(self@, c@));
        r
    }
}

/// A matrix scaled by a matrix: the matrix product, so that a polynomial
/// with matrix coefficients can be evaluated at a matrix.
impl<T: Semiring + Copy, const N: usize> ScalesBy<SquareMatrix<T, N>> for SquareMatrix<T, N> {
    open spec fn scale_spec(a: Seq<Seq<T::V>>, c: Seq<Seq<T::V>>) -> Seq<Seq<T::V>> {
        Self::mul_spec(a, c)
    }

    open spec fn scale_req(a: Seq<Seq<T::V>>, c: Seq<Seq<T::V>>) -> bool {
        Self::mul_req(a, c)
    }

    fn scale(&self, c: &SquareMatrix<T, N>) -> (r: Self) {
        self.mul(c)
    }
}

} // verus!
