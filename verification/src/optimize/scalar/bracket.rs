//! The bracket-based minimization engine.
//!
//! A [`Bracket`] holds three strictly ordered abscissas together with the
//! objective's values there; the centre value lies strictly below both end
//! values, so a local minimum of the objective is sandwiched between the
//! outer bounds. A bracket is never mutated: every algorithmic step builds a
//! brand-new, re-validated `Bracket`, so the validating constructor is the
//! single point where the invariant is enforced.
//!
//! On top of `Bracket` sit three iterative minimizers: a plain ratio-split
//! driver, its golden-section variant, and a parabolic-interpolation driver.
//! Each one's contract pins the returned scalar to a specification-level
//! rerun of the same iteration on the objective's mathematical model.

use vstd::prelude::*;

use crate::generals::fixed::{
    abs_v, add_v, div_v, from_int_v, in_range_v, mul_v, sub_v, Fixed, GOLDEN_RAW, ONE_RAW,
};
use crate::optimize::scalar::objective::{eval_obj, obj_model, objective_ok, res_fixed_view};

verus! {

/// A structural failure: the requested triple cannot form a valid bracket.
#[derive(Clone, Copy, PartialEq, Eq, Structural, Debug)]
pub enum BracketError {
    /// A bound is duplicated, or the bounds are out of order, so the triple
    /// does not satisfy `left < center < right`.
    DupeBoundForBracket,
    /// The centre value is not strictly the lowest of the three, so the
    /// triple is not known to enclose a dip.
    BracketNotADip,
}

/// The mathematical content of a bracket: the views of its six scalars.
pub struct BracketView {
    pub left: int,
    pub f_left: int,
    pub center: int,
    pub f_center: int,
    pub right: int,
    pub f_right: int,
}

/// The bracket invariant: strictly ordered abscissas whose centre value dips
/// strictly below both end values.
pub open spec fn bracket_view_wf(b: BracketView) -> bool {
    &&& b.left < b.center < b.right
    &&& b.f_center < b.f_left
    &&& b.f_center < b.f_right
}

/// What the validating constructor returns for a given sextuple.
pub open spec fn spec_new_processed(l: int, fl: int, c: int, fc: int, r: int, fr: int) -> Result<
    BracketView,
    BracketError,
> {
    if !(l < c && c < r) {
        Err(BracketError::DupeBoundForBracket)
    } else if !(fc < fl && fc < fr) {
        Err(BracketError::BracketNotADip)
    } else {
        Ok(
            (BracketView {
                left: l,
                f_left: fl,
                center: c,
                f_center: fc,
                right: r,
                f_right: fr,
            }),
        )
    }
}

/// The three inputs in ascending order.
pub open spec fn sort3_v(x1: int, x2: int, x3: int) -> (int, int, int) {
    if x1 <= x2 {
        if x2 <= x3 {
            (x1, x2, x3)
        } else if x1 <= x3 {
            (x1, x3, x2)
        } else {
            (x3, x1, x2)
        }
    } else {
        if x1 <= x3 {
            (x2, x1, x3)
        } else if x2 <= x3 {
            (x2, x3, x1)
        } else {
            (x3, x2, x1)
        }
    }
}

/// What building a bracket from three raw abscissas returns: the triple is
/// sorted, the objective `f` is evaluated at each point, and the sextuple is
/// validated.
pub open spec fn spec_bracket_new(f: spec_fn(int) -> int, x1: int, x2: int, x3: int) -> Result<
    BracketView,
    BracketError,
> {
    let s = sort3_v(x1, x2, x3);
    spec_new_processed(s.0, f(s.0), s.1, f(s.1), s.2, f(s.2))
}

/// Which bracket folding the evaluated trial point `(nv, fnv)` into `b`
/// yields, by the four-way classification of `longer_bound`.
pub open spec fn spec_fold(b: BracketView, nv: int, fnv: int) -> Result<
    BracketView,
    BracketError,
> {
    if fnv < b.f_center && nv < b.center {
        spec_new_processed(b.left, b.f_left, nv, fnv, b.center, b.f_center)
    } else if fnv > b.f_center && nv < b.center {
        spec_new_processed(nv, fnv, b.center, b.f_center, b.right, b.f_right)
    } else if fnv < b.f_center && nv > b.center {
        spec_new_processed(b.center, b.f_center, nv, fnv, b.right, b.f_right)
    } else {
        spec_new_processed(b.left, b.f_left, b.center, b.f_center, nv, fnv)
    }
}

/// The trial abscissa of a ratio split: the wider sub-interval, split at the
/// point offset from its outer edge by `width / ratio`.
pub open spec fn spec_trial(b: BracketView, ratio: int) -> int {
    if sub_v(b.right, b.center) > sub_v(b.center, b.left) {
        sub_v(b.right, div_v(sub_v(b.right, b.center), ratio))
    } else {
        add_v(b.left, div_v(sub_v(b.center, b.left), ratio))
    }
}

/// The abscissa of the vertex of the parabola through the bracket's three
/// points, by the closed three-point formula.
pub open spec fn spec_parab(b: BracketView) -> int {
    let num = add_v(
        mul_v(
            sub_v(b.f_right, b.f_center),
            sub_v(mul_v(b.center, b.center), mul_v(b.left, b.left)),
        ),
        mul_v(
            sub_v(b.f_left, b.f_center),
            sub_v(mul_v(b.right, b.right), mul_v(b.center, b.center)),
        ),
    );
    let den = mul_v(
        from_int_v(2),
        add_v(
            mul_v(sub_v(b.f_right, b.f_center), sub_v(b.center, b.left)),
            mul_v(sub_v(b.f_left, b.f_center), sub_v(b.right, b.center)),
        ),
    );
    div_v(num, den)
}

/// A bracket result, mapped to views.
pub open spec fn res_bracket_view(r: Result<Bracket, BracketError>) -> Result<
    BracketView,
    BracketError,
> {
    match r {
        Ok(b) => Ok(b@),
        Err(e) => Err(e),
    }
}

/// Three points that sandwich a local minimum: `left < center < right`, with
/// the objective's value at the centre strictly below its value at either
/// bound.
#[derive(Clone, Copy, PartialEq, Eq, Structural, Debug)]
pub struct Bracket {
    left: Fixed,
    f_left: Fixed,
    right: Fixed,
    f_right: Fixed,
    center: Fixed,
    f_center: Fixed,
}

impl View for Bracket {
    type V = BracketView;

    closed spec fn view(&self) -> BracketView {
        BracketView {
            left: self.left@,
            f_left: self.f_left@,
            center: self.center@,
            f_center: self.f_center@,
            right: self.right@,
            f_right: self.f_right@,
        }
    }
}

impl Bracket {
    #[verifier::type_invariant]
    spec fn wf(self) -> bool {
        bracket_view_wf(self@)
    }

    /// Build a bracket from three raw abscissas: sort them, evaluate the
    /// objective at each, and validate the sextuple.
    pub fn new<F: Fn(Fixed) -> Fixed + Copy>(x1: Fixed, x2: Fixed, x3: Fixed, func: F) -> (r:
        Result<Bracket, BracketError>)
        requires
            objective_ok(func),
        ensures
            res_bracket_view(r) == spec_bracket_new(obj_model(func), x1@, x2@, x3@),
    {
        let s = sort3(x1, x2, x3);
        let f0 = eval_obj(func, s.0);
        let f1 = eval_obj(func, s.1);
        let f2 = eval_obj(func, s.2);
        Self::new_processed(s.0, f0, s.1, f1, s.2, f2)
    }

    /// Validate six pre-computed scalars as a bracket. The caller supplies
    /// the abscissas in ascending order; no sorting happens here.
    ///
    /// Fails with [`BracketError::DupeBoundForBracket`] when the abscissas
    /// are not strictly increasing (a duplicated or degenerate ordering),
    /// and with [`BracketError::BracketNotADip`] when the centre value is
    /// not strictly the lowest of the three.
    pub fn new_processed(
        left: Fixed,
        f_left: Fixed,
        center: Fixed,
        f_center: Fixed,
        right: Fixed,
        f_right: Fixed,
    ) -> (r: Result<Bracket, BracketError>)
        ensures
            res_bracket_view(r) == spec_new_processed(
                left@,
                f_left@,
                center@,
                f_center@,
                right@,
                f_right@,
            ),
    {
        if !(left.lt(center) && center.lt(right)) {
            return Err(BracketError::DupeBoundForBracket);
        }
        if !(f_center.lt(f_left) && f_center.lt(f_right)) {
            return Err(BracketError::BracketNotADip);
        }
        Ok(Bracket { left, f_left, right, f_right, center, f_center })
    }

    /// Fold one evaluated trial abscissa into the bracket, replacing the
    /// bound(s) it supersedes; the replacement is chosen by whether the new
    /// value undercuts the centre's value and on which side of the centre
    /// the new abscissa falls. Every branch goes through the validating
    /// constructor, so a structurally invalid result surfaces as an error
    /// rather than a corrupted bracket.
    pub fn longer_bound<F: Fn(Fixed) -> Fixed + Copy>(&self, func: F, new_val: Fixed) -> (r:
        Result<Bracket, BracketError>)
        requires
            objective_ok(func),
        ensures
            res_bracket_view(r) == spec_fold(self@, new_val@, obj_model(func)(new_val@)),
    {
        let f_new_val = eval_obj(func, new_val);
        if f_new_val.lt(self.f_center) && new_val.lt(self.center) {
            Self::new_processed(self.left, self.f_left, new_val, f_new_val, self.center,
                self.f_center)
        } else if f_new_val.gt(self.f_center) && new_val.lt(self.center) {
            Self::new_processed(new_val, f_new_val, self.center, self.f_center, self.right,
                self.f_right)
        } else if f_new_val.lt(self.f_center) && new_val.gt(self.center) {
            Self::new_processed(self.center, self.f_center, new_val, f_new_val, self.right,
                self.f_right)
        } else {
            Self::new_processed(self.left, self.f_left, self.center, self.f_center, new_val,
                f_new_val)
        }
    }

    /// The next trial abscissa for a ratio split: the wider sub-interval is
    /// split at the point offset from its outer edge by `width / ratio`.
    pub fn new_val_from_ratio(&self, ratio: Fixed) -> (r: Fixed)
        ensures
            r@ == spec_trial(self@, ratio@),
    {
        if self.right.sub(self.center).gt(self.center.sub(self.left)) {
            return self.right.sub(self.right.sub(self.center).div(ratio));
        }
        self.left.add(self.center.sub(self.left).div(ratio))
    }

    pub fn left(&self) -> (r: Fixed)
        ensures
            r@ == self@.left,
    {
        self.left
    }

    pub fn f_left(&self) -> (r: Fixed)
        ensures
            r@ == self@.f_left,
    {
        self.f_left
    }

    pub fn center(&self) -> (r: Fixed)
        ensures
            r@ == self@.center,
    {
        self.center
    }

    pub fn f_center(&self) -> (r: Fixed)
        ensures
            r@ == self@.f_center,
    {
        self.f_center
    }

    pub fn right(&self) -> (r: Fixed)
        ensures
            r@ == self@.right,
    {
        self.right
    }

    pub fn f_right(&self) -> (r: Fixed)
        ensures
            r@ == self@.f_right,
    {
        self.f_right
    }

    /// The abscissa of the vertex of the parabola through the bracket's
    /// three points. The vertex can fall outside the bracket, and a
    /// degenerate (flat) configuration makes the denominator zero, which
    /// saturates: the result is a candidate to evaluate, not a guaranteed
    /// improvement.
    pub fn parabolic_interpolation(&self) -> (r: Fixed)
        ensures
            r@ == spec_parab(self@),
    {
        let num = self.f_right.sub(self.f_center).mul(
            self.center.mul(self.center).sub(self.left.mul(self.left)),
        ).add(
            self.f_left.sub(self.f_center).mul(
                self.right.mul(self.right).sub(self.center.mul(self.center)),
            ),
        );
        let den = Fixed::from_int(2).mul(
            self.f_right.sub(self.f_center).mul(self.center.sub(self.left)).add(
                self.f_left.sub(self.f_center).mul(self.right.sub(self.center)),
            ),
        );
        num.div(den)
    }
}

/// Failure modes of the ratio-split and golden-section minimizers.
#[derive(Clone, Copy, PartialEq, Eq, Structural, Debug)]
pub enum BracketRatioOptimizerError {
    /// The initial triple could not form a valid bracket.
    BracketError { source: BracketError },
    /// The splitting ratio is below 1.
    InvalidRatio,
    /// The convergence tolerance is negative.
    InvalidTolerance,
}

/// One run of the ratio-split loop, on views: starting from bracket `b` with
/// stored comparison scalar `old_val`, up to `k` more folds. A structural
/// failure while folding is read as exhausted precision and stops the loop
/// at the current centre; otherwise the loop stops once the stored scalar is
/// within `tol` of the new centre's objective value.
pub open spec fn spec_ratio_loop(
    f: spec_fn(int) -> int,
    b: BracketView,
    old_val: int,
    ratio: int,
    tol: int,
    k: nat,
) -> int
    decreases k,
{
    if k == 0 {
        b.center
    } else {
        let nv = spec_trial(b, ratio);
        match spec_fold(b, nv, f(nv)) {
            Err(_) => b.center,
            Ok(b2) => if abs_v(sub_v(old_val, b2.f_center)) < tol {
                b2.center
            } else {
                spec_ratio_loop(f, b2, b2.center, ratio, tol, (k - 1) as nat)
            },
        }
    }
}

/// What the ratio-split minimizer returns, on views: the parameter checks,
/// the initial bracket construction, then the loop.
pub open spec fn spec_ratio_minimize(
    f: spec_fn(int) -> int,
    x1: int,
    x2: int,
    x3: int,
    ratio: int,
    tol: int,
    max_iter: nat,
) -> Result<int, BracketRatioOptimizerError> {
    if tol < 0 {
        Err(BracketRatioOptimizerError::InvalidTolerance)
    } else if ratio < ONE_RAW as int {
        Err(BracketRatioOptimizerError::InvalidRatio)
    } else {
        match spec_bracket_new(f, x1, x2, x3) {
            Err(e) => Err(BracketRatioOptimizerError::BracketError { source: e }),
            Ok(b) => Ok(spec_ratio_loop(f, b, add_v(b.f_center, tol), ratio, tol, max_iter)),
        }
    }
}

/// The iterative bracket based approach for minimization of a problem.
///
/// # Arguments
/// * func: The objective function to minimize; a pure function from one
///   scalar to another.
/// * xi: The three values characterizing the bracket
/// * ratio: The ratio around a bound to split around; must be at least 1
/// * tolerance: The tolerance requirement to determine convergence
/// * max_iter: The maximum number of iterations to loop over.
///
/// Both parameter checks happen before the objective is ever evaluated. A
/// structural bracket failure during the loop is read as precision
/// exhaustion, and the best centre found so far is returned.
///
/// The stored comparison scalar is seeded with the initial centre's
/// objective value plus the tolerance and thereafter holds the previous
/// centre abscissa; each iteration holds it against the new centre's
/// objective value, so on objectives whose minimum value differs from its
/// abscissa the loop runs until precision is exhausted or the iteration
/// budget is spent.
pub fn bracket_ratio_minimize<F: Fn(Fixed) -> Fixed + Copy>(
    func: F,
    x1: Fixed,
    x2: Fixed,
    x3: Fixed,
    ratio: Fixed,
    tolerance: Fixed,
    max_iter: u32,
) -> (r: Result<Fixed, BracketRatioOptimizerError>)
    requires
        objective_ok(func),
    ensures
        res_fixed_view(r) == spec_ratio_minimize(
            obj_model(func),
            x1@,
            x2@,
            x3@,
            ratio@,
            tolerance@,
            max_iter as nat,
        ),
{
    let ghost f = obj_model(func);
    if tolerance.lt(Fixed::from_int(0)) {
        return Err(BracketRatioOptimizerError::InvalidTolerance);
    }
    if ratio.lt(Fixed::from_int(1)) {
        return Err(BracketRatioOptimizerError::InvalidRatio);
    }
    let mut bounds = match Bracket::new(x1, x2, x3, func) {
        Ok(b) => b,
        Err(e) => {
            return Err(BracketRatioOptimizerError::BracketError { source: e });
        },
    };
    let mut old_val = bounds.f_center.add(tolerance);
    let ghost target: int = spec_ratio_loop(f, bounds@, old_val@, ratio@, tolerance@,
        max_iter as nat);
    let mut i: u32 = 0;
    let mut done = false;
    while !done && i < max_iter
        invariant
            objective_ok(func),
            f == obj_model(func),
            i <= max_iter,
            done ==> target == bounds@.center,
            !done ==> target == spec_ratio_loop(f, bounds@, old_val@, ratio@, tolerance@,
                (max_iter - i) as nat,
            ),
        decreases max_iter - i,
    {
        let nv = bounds.new_val_from_ratio(ratio);
        match bounds.longer_bound(func, nv) {
            Ok(b2) => {
                bounds = b2;
                if old_val.sub(bounds.f_center).abs().lt(tolerance) {
                    done = true;
                } else {
                    old_val = bounds.center;
                }
            },
            Err(_) => {
                done = true;
            },
        }
        i = i + 1;
    }
    Ok(bounds.center)
}

/// The iterative bracket based approach for minimization of a problem using
/// the golden ratio: a ratio split with the ratio fixed to `(√5 + 1) / 2`.
///
/// # Arguments
/// * func: The objective function to minimize; a pure function from one
///   scalar to another.
/// * xi: The three values characterizing the bracket
/// * tolerance: The tolerance requirement to determine convergence
/// * max_iter: The maximum number of iterations to loop over.
pub fn bracket_gr_minimize<F: Fn(Fixed) -> Fixed + Copy>(
    func: F,
    x1: Fixed,
    x2: Fixed,
    x3: Fixed,
    tolerance: Fixed,
    max_iter: u32,
) -> (r: Result<Fixed, BracketRatioOptimizerError>)
    requires
        objective_ok(func),
    ensures
        res_fixed_view(r) == spec_ratio_minimize(
            obj_model(func),
            x1@,
            x2@,
            x3@,
            GOLDEN_RAW as int,
            tolerance@,
            max_iter as nat,
        ),
{
    bracket_ratio_minimize(func, x1, x2, x3, Fixed::golden_ratio(), tolerance, max_iter)
}

/// What a single parabolic interpolation over a fresh bracket returns, on
/// views.
pub open spec fn spec_parabolic_interpolation(
    f: spec_fn(int) -> int,
    x1: int,
    x2: int,
    x3: int,
) -> Result<int, BracketError> {
    match spec_bracket_new(f, x1, x2, x3) {
        Ok(b) => Ok(spec_parab(b)),
        Err(e) => Err(e),
    }
}

/// Perform parabolic interpolation over a bracket to find an approximation
/// to the minimum.
///
/// The three abscissas are sorted and validated as a bracket first; the
/// result is the abscissa of the vertex of the parabola through the three
/// points.
pub fn parabolic_interpolation<F: Fn(Fixed) -> Fixed + Copy>(
    func: F,
    x1: Fixed,
    x2: Fixed,
    x3: Fixed,
) -> (r: Result<Fixed, BracketError>)
    requires
        objective_ok(func),
    ensures
        res_fixed_view(r) == spec_parabolic_interpolation(obj_model(func), x1@, x2@, x3@),
{
    match Bracket::new(x1, x2, x3, func) {
        Ok(b) => Ok(b.parabolic_interpolation()),
        Err(e) => Err(e),
    }
}

/// Failure modes of the parabolic-interpolation minimizer.
#[derive(Clone, Copy, PartialEq, Eq, Structural, Debug)]
pub enum BracketPIOptimizerError {
    /// A bracket was invalid: either the initial triple, or a fold during
    /// the loop. Unlike the ratio driver, this driver surfaces loop-time
    /// structural failures instead of reading them as convergence.
    BracketError { source: BracketError },
    /// The convergence tolerance is negative.
    InvalidTolerance,
    /// Two consecutive iterations stagnated: the stored comparison scalar
    /// came back, bit for bit, as the new centre's objective value.
    DeadEnd,
}

/// One run of the parabolic-interpolation loop, on views: starting from
/// bracket `b` with stored comparison scalar `old_val`, up to `k` more
/// folds. Structural failures propagate; exact stagnation is a dead end.
pub open spec fn spec_pi_loop(
    f: spec_fn(int) -> int,
    b: BracketView,
    old_val: int,
    tol: int,
    k: nat,
) -> Result<int, BracketPIOptimizerError>
    decreases k,
{
    if k == 0 {
        Ok(b.center)
    } else {
        let nv = spec_parab(b);
        match spec_fold(b, nv, f(nv)) {
            Err(e) => Err(BracketPIOptimizerError::BracketError { source: e }),
            Ok(b2) => if old_val == b2.f_center {
                Err(BracketPIOptimizerError::DeadEnd)
            } else if abs_v(sub_v(old_val, b2.f_center)) < tol {
                Ok(b2.center)
            } else {
                spec_pi_loop(f, b2, b2.center, tol, (k - 1) as nat)
            },
        }
    }
}

/// What the parabolic-interpolation minimizer returns, on views.
pub open spec fn spec_pi_minimize(
    f: spec_fn(int) -> int,
    x1: int,
    x2: int,
    x3: int,
    tol: int,
    max_iter: nat,
) -> Result<int, BracketPIOptimizerError> {
    if tol < 0 {
        Err(BracketPIOptimizerError::InvalidTolerance)
    } else {
        match spec_bracket_new(f, x1, x2, x3) {
            Err(e) => Err(BracketPIOptimizerError::BracketError { source: e }),
            Ok(b) => spec_pi_loop(f, b, add_v(b.f_center, tol), tol, max_iter),
        }
    }
}

/// Perform parabolic interpolation until converging to a minima.
///
/// # Arguments
/// * func: The objective function to minimize; a pure function from one
///   scalar to another.
/// * xi: The values forming the bracket
/// * tolerance: The tolerance requirement to determine convergence
/// * max_iter: The maximum number of iterations to loop over.
///
/// Unlike the ratio-split driver, this driver propagates structural bracket
/// failures from the loop, and it detects dead ends: an iteration whose new
/// centre value exactly equals the stored comparison scalar is a detected
/// non-convergent oscillation, reported as an error rather than swallowed.
/// The comparison scalar is kept the same way as in the ratio-split driver:
/// seeded with the initial centre's objective value plus the tolerance, then
/// holding the previous centre abscissa.
pub fn bracket_pi_minimize<F: Fn(Fixed) -> Fixed + Copy>(
    func: F,
    x1: Fixed,
    x2: Fixed,
    x3: Fixed,
    tolerance: Fixed,
    max_iter: u32,
) -> (r: Result<Fixed, BracketPIOptimizerError>)
    requires
        objective_ok(func),
    ensures
        res_fixed_view(r) == spec_pi_minimize(
            obj_model(func),
            x1@,
            x2@,
            x3@,
            tolerance@,
            max_iter as nat,
        ),
{
    let ghost f = obj_model(func);
    if tolerance.lt(Fixed::from_int(0)) {
        return Err(BracketPIOptimizerError::InvalidTolerance);
    }
    let mut bounds = match Bracket::new(x1, x2, x3, func) {
        Ok(b) => b,
        Err(e) => {
            return Err(BracketPIOptimizerError::BracketError { source: e });
        },
    };
    let mut old_val = bounds.f_center.add(tolerance);
    let ghost target: Result<int, BracketPIOptimizerError> = spec_pi_loop(f, bounds@, old_val@,
        tolerance@, max_iter as nat);
    let mut i: u32 = 0;
    let mut done = false;
    while !done && i < max_iter
        invariant
            objective_ok(func),
            f == obj_model(func),
            i <= max_iter,
            target == spec_pi_minimize(f, x1@, x2@, x3@, tolerance@, max_iter as nat),
            done ==> target == Ok::<int, BracketPIOptimizerError>(bounds@.center),
            !done ==> target == spec_pi_loop(f, bounds@, old_val@, tolerance@,
                (max_iter - i) as nat,
            ),
        decreases max_iter - i,
    {
        let nv = bounds.parabolic_interpolation();
        match bounds.longer_bound(func, nv) {
            Ok(b2) => {
                bounds = b2;
                if old_val.to_bits() == bounds.f_center.to_bits() {
                    return Err(BracketPIOptimizerError::DeadEnd);
                }
                if old_val.sub(bounds.f_center).abs().lt(tolerance) {
                    done = true;
                } else {
                    old_val = bounds.center;
                }
            },
            Err(e) => {
                return Err(BracketPIOptimizerError::BracketError { source: e });
            },
        }
        i = i + 1;
    }
    Ok(bounds.center)
}

fn sort3(x1: Fixed, x2: Fixed, x3: Fixed) -> (r: (Fixed, Fixed, Fixed))
    ensures
        (r.0@, r.1@, r.2@) == sort3_v(x1@, x2@, x3@),
{
    if x1.le(x2) {
        if x2.le(x3) {
            (x1, x2, x3)
        } else if x1.le(x3) {
            (x1, x3, x2)
        } else {
            (x3, x1, x2)
        }
    } else {
        if x1.le(x3) {
            (x2, x1, x3)
        } else if x2.le(x3) {
            (x2, x3, x1)
        } else {
            (x3, x2, x1)
        }
    }
}

/// The three abscissas of the view lie within the representable window, as
/// they do for the view of every `Bracket`.
pub open spec fn bracket_abscissas_in_range(b: BracketView) -> bool {
    &&& in_range_v(b.left)
    &&& in_range_v(b.center)
    &&& in_range_v(b.right)
}

/// `sort3_v` returns its three inputs, in ascending order.
pub proof fn lemma_sort3_sorts(x1: int, x2: int, x3: int)
    ensures
        ({
            let s = sort3_v(x1, x2, x3);
            &&& s.0 <= s.1 <= s.2
            &&& (s.0 == x1 && s.1 == x2 && s.2 == x3) || (s.0 == x1 && s.1 == x3 && s.2 == x2) || (
            s.0 == x2 && s.1 == x1 && s.2 == x3) || (s.0 == x2 && s.1 == x3 && s.2 == x1) || (s.0
                == x3 && s.1 == x1 && s.2 == x2) || (s.0 == x3 && s.1 == x2 && s.2 == x1)
        }),
{
}

/// Law: a triple whose sorted form has three distinct abscissas, with the
/// objective's value at the sorted centre strictly below its value at both
/// ends, always forms a bracket: construction succeeds and returns exactly
/// the sorted, evaluated, validated sextuple.
pub proof fn lemma_new_succeeds_on_dip(f: spec_fn(int) -> int, x1: int, x2: int, x3: int)
    requires
        ({
            let s = sort3_v(x1, x2, x3);
            s.0 < s.1 < s.2 && f(s.1) < f(s.0) && f(s.1) < f(s.2)
        }),
    ensures
        ({
            let s = sort3_v(x1, x2, x3);
            spec_bracket_new(f, x1, x2, x3) == Ok::<BracketView, BracketError>(
                (BracketView {
                    left: s.0,
                    f_left: f(s.0),
                    center: s.1,
                    f_center: f(s.1),
                    right: s.2,
                    f_right: f(s.2),
                }),
            )
        }),
{
}

/// Law: a triple with a repeated abscissa never forms a bracket; whatever
/// the objective's values, construction fails with the duplicate-bound
/// error.
pub proof fn lemma_new_fails_on_dupe(f: spec_fn(int) -> int, x1: int, x2: int, x3: int)
    requires
        x1 == x2 || x2 == x3 || x1 == x3,
    ensures
        spec_bracket_new(f, x1, x2, x3) == Err::<BracketView, BracketError>(
            BracketError::DupeBoundForBracket,
        ),
{
}

/// Law: a triple of three distinct abscissas whose objective values do not
/// dip strictly at the sorted centre fails with the not-a-dip error.
pub proof fn lemma_new_fails_without_dip(f: spec_fn(int) -> int, x1: int, x2: int, x3: int)
    requires
        ({
            let s = sort3_v(x1, x2, x3);
            s.0 < s.1 < s.2 && !(f(s.1) < f(s.0) && f(s.1) < f(s.2))
        }),
    ensures
        spec_bracket_new(f, x1, x2, x3) == Err::<BracketView, BracketError>(
            BracketError::BracketNotADip,
        ),
{
}

/// Law: whatever `longer_bound` returns on success satisfies both bracket
/// invariants: strictly ordered abscissas and a strict dip at the centre.
pub proof fn lemma_fold_preserves_wf(b: BracketView, nv: int, fnv: int, b2: BracketView)
    requires
        spec_fold(b, nv, fnv) == Ok::<BracketView, BracketError>(b2),
    ensures
        bracket_view_wf(b2),
{
}

/// The ratio-split trial abscissa always falls between the bracket's outer
/// bounds, for any ratio of at least 1.
pub proof fn lemma_trial_in_bounds(b: BracketView, ratio: int)
    requires
        bracket_view_wf(b),
        bracket_abscissas_in_range(b),
        ratio >= ONE_RAW as int,
    ensures
        b.left <= spec_trial(b, ratio) <= b.right,
{
    let one = ONE_RAW as int;
    if sub_v(b.right, b.center) > sub_v(b.center, b.left) {
        let w = sub_v(b.right, b.center);
        assert(0 <= w <= b.right - b.center);
        assert(w * one >= 0) by (nonlinear_arith)
            requires
                w >= 0,
                one > 0,
        ;
        vstd::arithmetic::div_mod::lemma_div_pos_is_pos(w * one, ratio);
        vstd::arithmetic::div_mod::lemma_div_is_ordered_by_denominator(w * one, one, ratio);
        vstd::arithmetic::div_mod::lemma_div_by_multiple(w, one);
        assert(0 <= (w * one) / ratio <= w);
        assert(div_v(w, ratio) == (w * one) / ratio);
    } else {
        let w = sub_v(b.center, b.left);
        assert(0 <= w <= b.center - b.left);
        assert(w * one >= 0) by (nonlinear_arith)
            requires
                w >= 0,
                one > 0,
        ;
        vstd::arithmetic::div_mod::lemma_div_pos_is_pos(w * one, ratio);
        vstd::arithmetic::div_mod::lemma_div_is_ordered_by_denominator(w * one, one, ratio);
        vstd::arithmetic::div_mod::lemma_div_by_multiple(w, one);
        assert(0 <= (w * one) / ratio <= w);
        assert(div_v(w, ratio) == (w * one) / ratio);
    }
}

/// Folding a trial point that lies between the bounds never widens the
/// bracket: the new bounds stay within the old ones, and the abscissas stay
/// within the representable window.
pub proof fn lemma_fold_within(b: BracketView, nv: int, fnv: int, b2: BracketView)
    requires
        bracket_view_wf(b),
        bracket_abscissas_in_range(b),
        b.left <= nv <= b.right,
        spec_fold(b, nv, fnv) == Ok::<BracketView, BracketError>(b2),
    ensures
        b.left <= b2.left,
        b2.right <= b.right,
        bracket_view_wf(b2),
        bracket_abscissas_in_range(b2),
{
}

/// Wherever the ratio-split loop stops, the centre it returns lies between
/// the starting bracket's outer bounds: the loop never leaves the interval
/// it was given.
pub proof fn lemma_ratio_loop_center_within(
    f: spec_fn(int) -> int,
    b: BracketView,
    old_val: int,
    ratio: int,
    tol: int,
    k: nat,
)
    requires
        bracket_view_wf(b),
        bracket_abscissas_in_range(b),
        ratio >= ONE_RAW as int,
    ensures
        b.left <= spec_ratio_loop(f, b, old_val, ratio, tol, k) <= b.right,
    decreases k,
{
    if k > 0 {
        let nv = spec_trial(b, ratio);
        lemma_trial_in_bounds(b, ratio);
        match spec_fold(b, nv, f(nv)) {
            Err(_) => {},
            Ok(b2) => {
                lemma_fold_within(b, nv, f(nv), b2);
                if !(abs_v(sub_v(old_val, b2.f_center)) < tol) {
                    lemma_ratio_loop_center_within(f, b2, b2.center, ratio, tol, (k - 1) as nat);
                }
            },
        }
    }
}

/// Law (idempotence at convergence): once the bracket has narrowed to less
/// than the tolerance, any number of further ratio-split iterations, forced
/// or not, moves the centre by less than the tolerance.
pub proof fn lemma_converged_center_stays(
    f: spec_fn(int) -> int,
    b: BracketView,
    old_val: int,
    ratio: int,
    tol: int,
    k: nat,
)
    requires
        bracket_view_wf(b),
        bracket_abscissas_in_range(b),
        ratio >= ONE_RAW as int,
        b.right - b.left < tol,
    ensures
        abs_v(sub_v(spec_ratio_loop(f, b, old_val, ratio, tol, k), b.center)) < tol,
{
    lemma_ratio_loop_center_within(f, b, old_val, ratio, tol, k);
}

} // verus!
