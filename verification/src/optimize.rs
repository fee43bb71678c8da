//! Scalar-function minimizers.

pub mod scalar;
