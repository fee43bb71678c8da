use std::cell::Cell;

use mathslib::generals::{Decimal, Fixed};
use mathslib::optimize::scalar::bound::{bound_gr_minimize, bound_minimize, BoundOptimizerError};
use mathslib::optimize::scalar::bracket::{
    bracket_gr_minimize, bracket_pi_minimize, bracket_ratio_minimize, parabolic_interpolation,
    Bracket, BracketError, BracketPIOptimizerError, BracketRatioOptimizerError,
};

fn case_1(x: Fixed) -> Fixed {
    x.mul(x).add(Fixed::from_int(6).mul(x)).add(Fixed::from_int(3))
}

fn case_2(x: Fixed) -> Fixed {
    let x2 = x.mul(x);
    let x3 = x2.mul(x);
    let x4 = x3.mul(x);
    x4.sub(Fixed::from_int(2).mul(x3)).add(Fixed::from_int(4))
}

#[test]
fn golden_ratio_case_1() {
    assert_eq!(
        bracket_gr_minimize(
            case_1,
            Fixed::from_int(4),
            Fixed::from_int(-9),
            Fixed::from_int(1),
            Fixed::from_decimal(1, 4),
            2000,
        )
        .unwrap()
        .round_dp(4),
        Fixed::from_int(-3)
    )
}

#[test]
fn golden_ratio_case_1_bound_method() {
    assert_eq!(
        bound_gr_minimize(
            case_1,
            Fixed::from_int(4),
            Fixed::from_int(-9),
            Fixed::from_decimal(1, 4),
            2000,
        )
        .unwrap()
        .round_dp(4),
        Fixed::from_int(-3)
    )
}

#[test]
fn golden_ratio_case_2() {
    assert_eq!(
        bracket_gr_minimize(
            case_2,
            Fixed::from_int(1),
            Fixed::from_int(2),
            Fixed::from_decimal(5, 1),
            Fixed::from_decimal(1, 4),
            2000,
        )
        .unwrap()
        .round_dp(4),
        Fixed::from_decimal(15, 1)
    )
}

#[test]
fn golden_ratio_case_2_bound_method() {
    assert_eq!(
        bound_gr_minimize(
            case_2,
            Fixed::from_decimal(5, 1),
            Fixed::from_int(2),
            Fixed::from_decimal(1, 4),
            2000,
        )
        .unwrap()
        .round_dp(4),
        Fixed::from_decimal(15, 1)
    )
}

#[test]
fn parabolic_interpolation_case2() {
    println!(
        "{}",
        parabolic_interpolation(
            case_2,
            Fixed::from_int(1),
            Fixed::from_decimal(12142857142857, 13),
            Fixed::from_int(2),
        )
        .unwrap()
        .to_bits()
    );
    assert_eq!(
        parabolic_interpolation(
            case_2,
            Fixed::from_decimal(5, 1),
            Fixed::from_int(1),
            Fixed::from_int(2),
        )
        .unwrap()
        .round_dp(6),
        Fixed::from_decimal(1214286, 6)
    )
}

#[test]
fn pi_iterable_case2() {
    assert_eq!(
        bracket_pi_minimize(
            case_2,
            Fixed::from_decimal(5, 1),
            Fixed::from_int(1),
            Fixed::from_int(2),
            Fixed::from_decimal(1, 4),
            5,
        )
        .unwrap()
        .round_dp(6),
        Fixed::from_decimal(1482046, 6)
    )
}

// The vertex of the parabola through (0.5, f(0.5)), (1, 3), (2, 4) for
// f(x) = x^4 - 2x^3 + 4 is 17/14; the returned scalar is that value at the
// resolution of the representation, computed with each intermediate product
// rounded toward zero.
#[test]
fn parabolic_interpolation_exact_vertex() {
    assert_eq!(
        parabolic_interpolation(
            case_2,
            Fixed::from_decimal(5, 1),
            Fixed::from_int(1),
            Fixed::from_int(2),
        )
        .unwrap()
        .to_bits(),
        21_361_940_196_790
    );
}

// Golden-section and plain-ratio minimization with the ratio set to the
// golden-ratio constant are one and the same computation.
#[test]
fn golden_section_equals_plain_ratio_at_golden_ratio() {
    let golden = bracket_gr_minimize(
        case_1,
        Fixed::from_int(4),
        Fixed::from_int(-9),
        Fixed::from_int(1),
        Fixed::from_decimal(1, 4),
        2000,
    );
    let plain = bracket_ratio_minimize(
        case_1,
        Fixed::from_int(4),
        Fixed::from_int(-9),
        Fixed::from_int(1),
        Fixed::golden_ratio(),
        Fixed::from_decimal(1, 4),
        2000,
    );
    assert_eq!(golden, plain);
}

// Once the bracket is already narrower than the tolerance, further forced
// iterations leave the centre within the tolerance of where it was.
#[test]
fn converged_bracket_center_stays_put() {
    let f = |x: Fixed| x.sub(Fixed::from_int(1)).mul(x.sub(Fixed::from_int(1)));
    let result = bracket_ratio_minimize(
        f,
        Fixed::from_decimal(999, 3),
        Fixed::from_int(1),
        Fixed::from_decimal(1001, 3),
        Fixed::golden_ratio(),
        Fixed::from_decimal(1, 2),
        1000,
    )
    .unwrap();
    assert!(result.sub(Fixed::from_int(1)).abs().lt(Fixed::from_decimal(1, 2)));
}

#[test]
fn bracket_new_returns_sorted_validated_sextuple() {
    let b = Bracket::new(
        Fixed::from_int(4),
        Fixed::from_int(-9),
        Fixed::from_int(1),
        case_1,
    )
    .unwrap();
    assert_eq!(b.left(), Fixed::from_int(-9));
    assert_eq!(b.center(), Fixed::from_int(1));
    assert_eq!(b.right(), Fixed::from_int(4));
    assert_eq!(b.f_left(), Fixed::from_int(30));
    assert_eq!(b.f_center(), Fixed::from_int(10));
    assert_eq!(b.f_right(), Fixed::from_int(43));
}

#[test]
fn bracket_new_rejects_duplicate_abscissa() {
    assert_eq!(
        Bracket::new(
            Fixed::from_int(1),
            Fixed::from_int(1),
            Fixed::from_int(2),
            case_1,
        ),
        Err(BracketError::DupeBoundForBracket)
    );
}

#[test]
fn bracket_new_rejects_non_dip() {
    // case_1 grows over [0, 2]: the centre value is not the lowest.
    assert_eq!(
        Bracket::new(
            Fixed::from_int(0),
            Fixed::from_int(1),
            Fixed::from_int(2),
            case_1,
        ),
        Err(BracketError::BracketNotADip)
    );
}

#[test]
fn new_processed_rejects_out_of_order_bounds() {
    assert_eq!(
        Bracket::new_processed(
            Fixed::from_int(2),
            Fixed::from_int(6),
            Fixed::from_int(1),
            Fixed::from_int(0),
            Fixed::from_int(0),
            Fixed::from_int(6),
        ),
        Err(BracketError::DupeBoundForBracket)
    );
}

#[test]
fn longer_bound_keeps_ordering_invariant() {
    let f = |x: Fixed| x.sub(Fixed::from_int(1)).mul(x.sub(Fixed::from_int(1)));
    let b = Bracket::new(
        Fixed::from_int(0),
        Fixed::from_int(1),
        Fixed::from_int(2),
        f,
    )
    .unwrap();
    // A trial point below the centre with a higher value becomes the left
    // bound.
    let folded = b.longer_bound(f, Fixed::from_decimal(5, 1)).unwrap();
    assert_eq!(folded.left(), Fixed::from_decimal(5, 1));
    assert_eq!(folded.center(), Fixed::from_int(1));
    assert_eq!(folded.right(), Fixed::from_int(2));
    assert!(folded.left().lt(folded.center()) && folded.center().lt(folded.right()));
}

#[test]
fn longer_bound_classifies_all_four_ways() {
    let half = Fixed::from_decimal(5, 1);
    let three_halves = Fixed::from_decimal(15, 1);
    let f = |x: Fixed| x.sub(Fixed::from_int(1)).mul(x.sub(Fixed::from_int(1)));
    let b = Bracket::new(
        Fixed::from_int(0),
        Fixed::from_int(1),
        Fixed::from_int(2),
        f,
    )
    .unwrap();
    // Higher value, left of the centre: the trial point becomes the left
    // bound.
    let hl = b.longer_bound(f, half).unwrap();
    assert_eq!(
        (hl.left(), hl.center(), hl.right()),
        (half, Fixed::from_int(1), Fixed::from_int(2))
    );
    // Higher value, right of the centre: the trial point becomes the right
    // bound.
    let hr = b.longer_bound(f, three_halves).unwrap();
    assert_eq!(
        (hr.left(), hr.center(), hr.right()),
        (Fixed::from_int(0), Fixed::from_int(1), three_halves)
    );
    // An objective that dips below the centre's value at the trial points.
    let g = |x: Fixed| {
        if x == half || x == three_halves {
            Fixed::from_int(-1)
        } else {
            x.sub(Fixed::from_int(1)).mul(x.sub(Fixed::from_int(1)))
        }
    };
    let b2 = Bracket::new(
        Fixed::from_int(0),
        Fixed::from_int(1),
        Fixed::from_int(2),
        g,
    )
    .unwrap();
    // Lower value, left of the centre: the trial point becomes the centre
    // and the old centre becomes the right bound.
    let ll = b2.longer_bound(g, half).unwrap();
    assert_eq!(
        (ll.left(), ll.center(), ll.right()),
        (Fixed::from_int(0), half, Fixed::from_int(1))
    );
    // Lower value, right of the centre: the old centre becomes the left
    // bound.
    let lr = b2.longer_bound(g, three_halves).unwrap();
    assert_eq!(
        (lr.left(), lr.center(), lr.right()),
        (Fixed::from_int(1), three_halves, Fixed::from_int(2))
    );
}

#[test]
fn ratio_case_1() {
    assert_eq!(
        bracket_ratio_minimize(
            case_1,
            Fixed::from_int(4),
            Fixed::from_int(-9),
            Fixed::from_int(1),
            Fixed::from_decimal(15, 1),
            Fixed::from_decimal(1, 4),
            2000,
        )
        .unwrap()
        .round_dp(4),
        Fixed::from_int(-3)
    )
}

#[test]
fn ratio_case_1_bound_method() {
    assert_eq!(
        bound_minimize(
            case_1,
            Fixed::from_int(-9),
            Fixed::from_int(1),
            Fixed::from_decimal(15, 1),
            Fixed::from_decimal(1, 4),
            2000,
        )
        .unwrap()
        .round_dp(4),
        Fixed::from_int(-3)
    )
}

#[test]
fn new_val_from_ratio_splits_wider_interval() {
    let b = Bracket::new(
        Fixed::from_int(4),
        Fixed::from_int(-9),
        Fixed::from_int(1),
        case_1,
    )
    .unwrap();
    // The left sub-interval is wider (10 against 3): split it at
    // left + width / ratio = -9 + 10 / 2 = -4.
    assert_eq!(b.new_val_from_ratio(Fixed::from_int(2)), Fixed::from_int(-4));
}

#[test]
fn invalid_ratio_fails_before_any_evaluation() {
    let count = Cell::new(0u32);
    let f = |x: Fixed| {
        count.set(count.get() + 1);
        x
    };
    assert_eq!(
        bracket_ratio_minimize(
            f,
            Fixed::from_int(0),
            Fixed::from_int(1),
            Fixed::from_int(2),
            Fixed::from_decimal(5, 1),
            Fixed::from_decimal(1, 4),
            10,
        ),
        Err(BracketRatioOptimizerError::InvalidRatio)
    );
    assert_eq!(
        bound_minimize(
            f,
            Fixed::from_int(0),
            Fixed::from_int(1),
            Fixed::from_decimal(5, 1),
            Fixed::from_decimal(1, 4),
            10,
        ),
        Err(BoundOptimizerError::InvalidRatio)
    );
    assert_eq!(count.get(), 0);
}

#[test]
fn negative_tolerance_fails_before_any_evaluation() {
    let count = Cell::new(0u32);
    let f = |x: Fixed| {
        count.set(count.get() + 1);
        x
    };
    assert_eq!(
        bracket_ratio_minimize(
            f,
            Fixed::from_int(0),
            Fixed::from_int(1),
            Fixed::from_int(2),
            Fixed::from_int(2),
            Fixed::from_int(-1),
            10,
        ),
        Err(BracketRatioOptimizerError::InvalidTolerance)
    );
    assert_eq!(
        bracket_pi_minimize(
            f,
            Fixed::from_int(0),
            Fixed::from_int(1),
            Fixed::from_int(2),
            Fixed::from_int(-1),
            10,
        ),
        Err(BracketPIOptimizerError::InvalidTolerance)
    );
    assert_eq!(
        bound_minimize(
            f,
            Fixed::from_int(0),
            Fixed::from_int(1),
            Fixed::from_int(2),
            Fixed::from_int(-1),
            10,
        ),
        Err(BoundOptimizerError::InvalidTolerance)
    );
    assert_eq!(count.get(), 0);
}

#[test]
fn parabolic_dead_end_is_reported() {
    let f = |x: Fixed| {
        if x == Fixed::from_int(-1) {
            Fixed::from_int(5)
        } else if x == Fixed::from_int(0) {
            Fixed::from_int(0)
        } else if x == Fixed::from_int(1) {
            Fixed::from_int(4)
        } else {
            Fixed::from_int(2)
        }
    };
    assert_eq!(
        bracket_pi_minimize(
            f,
            Fixed::from_int(-1),
            Fixed::from_int(0),
            Fixed::from_int(1),
            Fixed::from_int(0),
            5,
        ),
        Err(BracketPIOptimizerError::DeadEnd)
    );
}

// The two drivers treat a structural failure during the loop differently,
// on purpose: the ratio driver reads it as exhausted precision and returns
// the best centre, while the parabolic driver surfaces it. Whether both
// should treat exhausted precision alike is an open question; both
// documented behaviours are pinned here.
#[test]
fn ratio_driver_recovers_structural_failure_parabolic_driver_propagates() {
    let f = |x: Fixed| x.sub(Fixed::from_int(1)).mul(x.sub(Fixed::from_int(1)));
    // Ratio 1 sends the trial point onto the centre at once; the fold fails
    // structurally, and the driver returns the centre it had.
    assert_eq!(
        bracket_ratio_minimize(
            f,
            Fixed::from_int(0),
            Fixed::from_int(1),
            Fixed::from_int(2),
            Fixed::from_int(1),
            Fixed::from_int(0),
            10,
        ),
        Ok(Fixed::from_int(1))
    );
    // A symmetric bracket puts the parabola's vertex onto the centre; the
    // same structural failure propagates as an error here.
    let g = |x: Fixed| {
        if x == Fixed::from_int(0) || x == Fixed::from_int(2) {
            Fixed::from_int(6)
        } else if x == Fixed::from_int(1) {
            Fixed::from_int(4)
        } else {
            Fixed::from_int(5)
        }
    };
    assert_eq!(
        bracket_pi_minimize(
            g,
            Fixed::from_int(0),
            Fixed::from_int(1),
            Fixed::from_int(2),
            Fixed::from_decimal(1, 4),
            10,
        ),
        Err(BracketPIOptimizerError::BracketError {
            source: BracketError::DupeBoundForBracket,
        })
    );
}

#[test]
fn pi_minimize_propagates_initial_bracket_errors() {
    assert_eq!(
        bracket_pi_minimize(
            case_1,
            Fixed::from_int(1),
            Fixed::from_int(1),
            Fixed::from_int(2),
            Fixed::from_decimal(1, 4),
            5,
        ),
        Err(BracketPIOptimizerError::BracketError {
            source: BracketError::DupeBoundForBracket,
        })
    );
}
