//! Univariate polynomials over an arbitrary coefficient semiring, together
//! with natural numbers, rational numbers and square matrices that can serve
//! as coefficients or as points of evaluation.

pub mod algebra;
pub mod gcd;
pub mod integers;
pub mod laws;
pub mod matrices;
pub mod mul_laws;
pub mod natural_numbers;
pub mod poly_model;
pub mod polynomial;
pub mod rational_numbers;

pub use algebra::{Ring, ScalesBy, Semiring};
pub use matrices::SquareMatrix;
pub use natural_numbers::NaturalNumber;
pub use polynomial::Polynomial;
pub use rational_numbers::RationalNumber;
