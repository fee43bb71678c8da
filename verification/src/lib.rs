//! A small numerical-methods toolkit built around scalar-function
//! minimization.
//!
//! The heart of the library is the bracket-based minimization engine in
//! [`optimize::scalar::bracket`]: a [`optimize::scalar::bracket::Bracket`]
//! holds three abscissas that sandwich a local minimum, and the minimizers
//! iteratively shrink it by ratio splitting, golden-section splitting or
//! parabolic interpolation.
//!
//! All arithmetic is carried out on [`generals::fixed::Fixed`], a saturating
//! binary fixed-point scalar, so that every algorithm here has an exact,
//! machine-checked description of the value it returns.

pub mod generals;
pub mod optimize;
