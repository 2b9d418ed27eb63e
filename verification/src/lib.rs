//! Three-dimensional vector arithmetic over fixed-point real numbers.
//!
//! The vector type and every operation on it are verified: each
//! function's contract pins the result down exactly, in terms of the
//! integer model of the fixed-point representation.

pub mod display;
pub mod fixed;
pub mod gradient;
pub mod vector;
