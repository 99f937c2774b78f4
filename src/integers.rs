//! Machine integers as coefficients.
use vstd::prelude::*;

use crate::algebra::{Ring, ScalesBy, Semiring};

verus! {

/// The ring of integers, restricted to the values that an `i32` can hold:
/// every operation requires its result to be in range.
impl Semiring for i32 {
    open spec fn zero_spec() -> i32 {
        0
    }

    open spec fn one_spec() -> i32 {
        1
    }

    open spec fn add_spec(a: i32, b: i32) -> i32 {
        (a + b) as i32
    }

    open spec fn mul_spec(a: i32, b: i32) -> i32 {
        (a * b) as i32
    }

    open spec fn is_zero_spec(a: i32) -> bool {
        a == 0
    }

    open spec fn add_req(a: i32, b: i32) -> bool {
        i32::MIN <= a + b <= i32::MAX
    }

    open spec fn mul_req(a: i32, b: i32) -> bool {
        i32::MIN <= a * b <= i32::MAX
    }

    fn zero() -> (r: Self) {
        0
    }

    fn one() -> (r: Self) {
        1
    }

    fn is_zero(&self) -> (r: bool) {
        *self == 0
    }

    fn add(&self, other: &Self) -> (r: Self) {
        *self + *other
    }

    fn mul(&self, other: &Self) -> (r: Self) {
        *self * *other
    }

    fn duplicate(&self) -> (r: Self) {
        *self
    }
}

impl Ring for i32 {
    open spec fn neg_spec(a: i32) -> i32 {
        (-a) as i32
    }

    open spec fn sub_spec(a: i32, b: i32) -> i32 {
        (a - b) as i32
    }

    open spec fn neg_req(a: i32) -> bool {
        a != i32::MIN
    }

    open spec fn sub_req(a: i32, b: i32) -> bool {
        i32::MIN <= a - b <= i32::MAX
    }

    fn neg(&self) -> (r: Self) {
        -*self
    }

    fn sub(&self, other: &Self) -> (r: Self) {
        *self - *other
    }
}

impl ScalesBy<i32> for i32 {
    open spec fn scale_spec(a: i32, c: i32) -> i32 {
        (a * c) as i32
    }

    open spec fn scale_req(a: i32, c: i32) -> bool {
        i32::MIN <= a * c <= i32::MAX
    }

    fn scale(&self, c: &i32) -> (r: Self) {
        *self * *c
    }
}

} // verus!
