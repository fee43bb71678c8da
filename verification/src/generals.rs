//! General-purpose numeric utilities shared by the optimizers.

pub mod binomial_coefficient;
pub mod decimal;
pub mod fixed;

pub use decimal::Decimal;
pub use fixed::Fixed;
