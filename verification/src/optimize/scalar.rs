//! Minimizers for scalar objective functions.

pub mod bound;
pub mod bracket;
pub mod objective;
