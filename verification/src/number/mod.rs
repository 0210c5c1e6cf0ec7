//! Numbers: IEEE 754 binary64 values, their arithmetic and their text.

pub mod arith;
pub mod elementary;
pub mod float;
pub mod float_eq;
pub mod format;
pub mod parse;
pub mod shortest;
pub mod text;
