//! The two-point, bound-interval minimizer: the simpler sibling of the
//! bracket engine. It keeps only two bounds, compares the objective at two
//! interior points derived from a ratio split of the interval, and narrows
//! away whichever half lost the comparison.

use vstd::prelude::*;

use crate::generals::fixed::{abs_v, add_v, div_v, from_int_v, sub_v, Fixed, GOLDEN_RAW, ONE_RAW};
use crate::optimize::scalar::objective::{eval_obj, obj_model, objective_ok, res_fixed_view};

verus! {

/// Failure modes of the bound-interval minimizer.
#[derive(Clone, Copy, PartialEq, Eq, Structural, Debug)]
pub enum BoundOptimizerError {
    /// The splitting ratio is below 1.
    InvalidRatio,
    /// The convergence tolerance is negative.
    InvalidTolerance,
}

/// One run of the shrink loop, on views: up to `k` steps, stopping early
/// once the interval is narrower than `tol`; the returned pair is the final
/// interval.
pub open spec fn spec_bound_loop(
    f: spec_fn(int) -> int,
    x1: int,
    x2: int,
    ratio: int,
    tol: int,
    k: nat,
) -> (int, int)
    decreases k,
{
    if k == 0 {
        (x1, x2)
    } else if abs_v(sub_v(x2, x1)) < tol {
        (x1, x2)
    } else {
        let c = sub_v(x2, div_v(sub_v(x2, x1), ratio));
        let d = add_v(x1, div_v(sub_v(x2, x1), ratio));
        if f(c) < f(d) {
            spec_bound_loop(f, x1, d, ratio, tol, (k - 1) as nat)
        } else {
            spec_bound_loop(f, c, x2, ratio, tol, (k - 1) as nat)
        }
    }
}

/// What the bound-interval minimizer returns, on views: the parameter
/// checks, then the midpoint of the shrunk interval.
pub open spec fn spec_bound_minimize(
    f: spec_fn(int) -> int,
    x1: int,
    x2: int,
    ratio: int,
    tol: int,
    max_iter: nat,
) -> Result<int, BoundOptimizerError> {
    if tol < 0 {
        Err(BoundOptimizerError::InvalidTolerance)
    } else if ratio < ONE_RAW as int {
        Err(BoundOptimizerError::InvalidRatio)
    } else {
        let p = spec_bound_loop(f, x1, x2, ratio, tol, max_iter);
        Ok(div_v(add_v(p.1, p.0), from_int_v(2)))
    }
}

/// An iterative bound based approach for minimization of a function.
///
/// # Arguments
/// * func: Function to minimize; a pure function from one scalar to another.
/// * xi: The two values characterizing the bound
/// * ratio: The ratio around a bound to split around; must be at least 1
/// * tolerance: The tolerance requirement to determine convergence
/// * max_iter: The maximum number of iterations to loop over.
///
/// Both parameter checks happen before the objective is ever evaluated.
pub fn bound_minimize<F: Fn(Fixed) -> Fixed + Copy>(
    func: F,
    x1: Fixed,
    x2: Fixed,
    ratio: Fixed,
    tolerance: Fixed,
    max_iter: u32,
) -> (r: Result<Fixed, BoundOptimizerError>)
    requires
        objective_ok(func),
    ensures
        res_fixed_view(r) == spec_bound_minimize(
            obj_model(func),
            x1@,
            x2@,
            ratio@,
            tolerance@,
            max_iter as nat,
        ),
{
    let ghost f = obj_model(func);
    if tolerance.lt(Fixed::from_int(0)) {
        return Err(BoundOptimizerError::InvalidTolerance);
    }
    if ratio.lt(Fixed::from_int(1)) {
        return Err(BoundOptimizerError::InvalidRatio);
    }
    let mut lo = x1;
    let mut hi = x2;
    let ghost target: (int, int) = spec_bound_loop(f, lo@, hi@, ratio@, tolerance@,
        max_iter as nat);
    let mut i: u32 = 0;
    let mut done = false;
    while !done && i < max_iter
        invariant
            objective_ok(func),
            f == obj_model(func),
            i <= max_iter,
            done ==> target == (lo@, hi@),
            !done ==> target == spec_bound_loop(f, lo@, hi@, ratio@, tolerance@,
                (max_iter - i) as nat,
            ),
        decreases max_iter - i,
    {
        if hi.sub(lo).abs().lt(tolerance) {
            done = true;
        } else {
            let c = hi.sub(hi.sub(lo).div(ratio));
            let d = lo.add(hi.sub(lo).div(ratio));
            if eval_obj(func, c).lt(eval_obj(func, d)) {
                hi = d;
            } else {
                lo = c;
            }
        }
        i = i + 1;
    }
    Ok(hi.add(lo).div(Fixed::from_int(2)))
}

/// An iterative bound based approach for minimization of a function using
/// the golden ratio: a bound split with the ratio fixed to `(√5 + 1) / 2`.
///
/// # Arguments
/// * func: Function to minimize; a pure function from one scalar to another.
/// * xi: The two values characterizing the bound
/// * tolerance: The tolerance requirement to determine convergence
/// * max_iter: The maximum number of iterations to loop over.
pub fn bound_gr_minimize<F: Fn(Fixed) -> Fixed + Copy>(
    func: F,
    x1: Fixed,
    x2: Fixed,
    tolerance: Fixed,
    max_iter: u32,
) -> (r: Result<Fixed, BoundOptimizerError>)
    requires
        objective_ok(func),
    ensures
        res_fixed_view(r) == spec_bound_minimize(
            obj_model(func),
            x1@,
            x2@,
            GOLDEN_RAW as int,
            tolerance@,
            max_iter as nat,
        ),
{
    bound_minimize(func, x1, x2, Fixed::golden_ratio(), tolerance, max_iter)
}

} // verus!
