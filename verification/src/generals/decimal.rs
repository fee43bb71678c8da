//! Rounding a scalar to a number of decimal places.

use vstd::prelude::*;

verus! {

/// Rounding to a fixed number of decimal places.
pub trait Decimal: Sized {
    /// The range of decimal-place counts the implementation supports.
    spec fn dp_in_range(dp: int) -> bool;

    /// The value of `self` rounded to `dp` decimal places.
    spec fn rounded_dp(self, dp: int) -> Self;

    /// Round a decimal number to the specified number of decimal places.
    ///
    /// # Arguments
    /// * dp: Number of decimal places
    fn round_dp(&self, dp: i32) -> (r: Self)
        requires
            Self::dp_in_range(dp as int),
        ensures
            r == self.rounded_dp(dp as int),
    ;
}

} // verus!
