//! Chart computation kernel: coordinate scales, series downsampling,
//! descriptive statistics, stacking and arc geometry, and a tidy table that
//! converts rows into chart datasets.
//!
//! Every number is a [`number::float::Float`], an IEEE 754 binary64 value
//! held by its bit pattern. Ordering and sign operations are proved against
//! the bit-level model. Rounding arithmetic, roots, trigonometry, logarithms
//! and exponentials are taken from software floating-point crates behind the
//! trusted wrappers of [`number::arith`]; what the library states about them
//! is stated over the names that those wrappers give their results.

pub mod algorithms;
pub mod model;
pub mod number;
