//! Greatest common divisors of unsigned integers.
//!
//! [`divisor`] defines what the greatest common divisor of two numbers is and
//! proves its laws. [`sequence`] does the same for a whole sequence of
//! numbers. [`euclid`] holds the executable functions: the Euclidean algorithm
//! on two numbers, and its left-to-right fold over a sequence.

pub mod divisor;
pub mod euclid;
pub mod sequence;
