//! A saturating binary fixed-point scalar.
//!
//! `Fixed` stores a real number as a signed multiple of `2^-44`. The stored
//! multiple is kept within `[-MAX_RAW, MAX_RAW]`; arithmetic that would leave
//! that window saturates to the nearer end instead of overflowing, and results
//! that fall between representable values are rounded toward zero. The view
//! of a `Fixed` is the stored multiple itself, as an unbounded integer, so
//! every contract below describes results exactly, at the resolution of the
//! representation.

use vstd::prelude::*;

use crate::generals::decimal::Decimal;

verus! {

/// The stored multiple that represents 1: `2^44`.
pub const ONE_RAW: i64 = 0x1000_0000_0000;

/// The golden ratio `(√5 + 1) / 2` rounded to the nearest stored multiple.
pub const GOLDEN_RAW: i64 = 28_464_754_956_276;

/// The largest stored multiple; `MAX_RAW / ONE_RAW = 2^18` is the largest
/// representable magnitude.
pub const MAX_RAW: i64 = 0x4000_0000_0000_0000;

/// The integer within `[-MAX_RAW, MAX_RAW]` nearest to `x`.
pub open spec fn sat_v(x: int) -> int {
    if x > MAX_RAW as int {
        MAX_RAW as int
    } else if x < -(MAX_RAW as int) {
        -(MAX_RAW as int)
    } else {
        x
    }
}

/// Whether `x` lies within the window of stored multiples.
pub open spec fn in_range_v(x: int) -> bool {
    -(MAX_RAW as int) <= x <= MAX_RAW as int
}

/// Absolute value of a stored multiple.
pub open spec fn abs_v(a: int) -> int {
    if a < 0 {
        -a
    } else {
        a
    }
}

/// Saturating sum of two stored multiples.
pub open spec fn add_v(a: int, b: int) -> int {
    sat_v(a + b)
}

/// Saturating difference of two stored multiples.
pub open spec fn sub_v(a: int, b: int) -> int {
    sat_v(a - b)
}

/// Saturating negation of a stored multiple.
pub open spec fn neg_v(a: int) -> int {
    sat_v(-a)
}

/// Fixed-point product: the exact product scaled back down by `ONE_RAW`,
/// rounded toward zero, then saturated.
pub open spec fn mul_v(a: int, b: int) -> int {
    let q = (abs_v(a) * abs_v(b)) / (ONE_RAW as int);
    sat_v(
        if (a < 0) != (b < 0) {
            -q
        } else {
            q
        },
    )
}

/// Fixed-point quotient: the exact quotient scaled up by `ONE_RAW`, rounded
/// toward zero, then saturated. A zero divisor saturates to the signed end
/// of the window (zero for a zero dividend).
pub open spec fn div_v(a: int, b: int) -> int {
    if b == 0 {
        if a > 0 {
            MAX_RAW as int
        } else if a < 0 {
            -(MAX_RAW as int)
        } else {
            0
        }
    } else {
        let q = (abs_v(a) * (ONE_RAW as int)) / abs_v(b);
        sat_v(
            if (a < 0) != (b < 0) {
                -q
            } else {
                q
            },
        )
    }
}

/// The stored multiple representing the integer `i`, saturated.
pub open spec fn from_int_v(i: int) -> int {
    sat_v(i * (ONE_RAW as int))
}

/// `x / y` rounded to the nearest integer, halves away from zero; `y > 0`.
pub open spec fn rha_v(x: int, y: int) -> int {
    if x >= 0 {
        (2 * x + y) / (2 * y)
    } else {
        -((2 * (-x) + y) / (2 * y))
    }
}

/// `10^k`.
pub open spec fn pow10_v(k: nat) -> int
    decreases k,
{
    if k == 0 {
        1
    } else {
        10 * pow10_v((k - 1) as nat)
    }
}

/// The stored multiple nearest to `mant / 10^dp`, halves away from zero,
/// saturated.
pub open spec fn from_decimal_v(mant: int, dp: nat) -> int {
    sat_v(rha_v(mant * (ONE_RAW as int), pow10_v(dp)))
}

/// The stored multiple of `v` rounded to `dp` decimal places, halves away
/// from zero. For negative `dp` the value is rounded to a multiple of
/// `10^(-dp)`.
pub open spec fn round_dp_v(v: int, dp: int) -> int {
    if dp >= 0 {
        let n = rha_v(v * pow10_v(dp as nat), ONE_RAW as int);
        from_decimal_v(n, dp as nat)
    } else {
        let unit = (ONE_RAW as int) * pow10_v((-dp) as nat);
        sat_v(rha_v(v, unit) * unit)
    }
}

/// A saturating binary fixed-point scalar: the represented real number is
/// `self@ / 2^44`, and `self@` always lies within `[-MAX_RAW, MAX_RAW]`.
#[derive(Clone, Copy, PartialEq, Eq, Structural, Debug)]
pub struct Fixed {
    m: i64,
}

impl View for Fixed {
    type V = int;

    closed spec fn view(&self) -> int {
        self.m as int
    }
}

impl Fixed {
    #[verifier::type_invariant]
    spec fn inv(self) -> bool {
        in_range_v(self.m as int)
    }

    /// The unique `Fixed` whose view is `v`, for `v` within the window.
    pub closed spec fn from_val(v: int) -> Fixed {
        Fixed { m: v as i64 }
    }

    /// The `Fixed` representing the integer `i`, saturated to the window.
    pub fn from_int(i: i64) -> (r: Fixed)
        ensures
            r@ == from_int_v(i as int),
    {
        proof {
            assert((i as int) * (ONE_RAW as int) <= 0x8000_0000_0000_0000 * (ONE_RAW as int)
                && (i as int) * (ONE_RAW as int) >= -0x8000_0000_0000_0000 * (ONE_RAW as int))
                by (nonlinear_arith)
                requires
                    -0x8000_0000_0000_0000 <= i as int <= 0x7FFF_FFFF_FFFF_FFFF,
            ;
        }
        let p: i128 = (i as i128) * (ONE_RAW as i128);
        Fixed { m: clamp_i128(p) }
    }

    /// The `Fixed` whose stored multiple is `bits`, saturated to the window.
    pub fn from_bits(bits: i64) -> (r: Fixed)
        ensures
            r@ == sat_v(bits as int),
    {
        Fixed { m: clamp_i128(bits as i128) }
    }

    /// The stored multiple: `self@` as a machine integer.
    pub fn to_bits(self) -> (r: i64)
        ensures
            r as int == self@,
    {
        self.m
    }

    /// Saturating addition.
    pub fn add(self, other: Fixed) -> (r: Fixed)
        ensures
            r@ == add_v(self@, other@),
    {
        proof {
            use_type_invariant(self);
            use_type_invariant(other);
        }
        let s: i128 = (self.m as i128) + (other.m as i128);
        Fixed { m: clamp_i128(s) }
    }

    /// Saturating subtraction.
    pub fn sub(self, other: Fixed) -> (r: Fixed)
        ensures
            r@ == sub_v(self@, other@),
    {
        proof {
            use_type_invariant(self);
            use_type_invariant(other);
        }
        let s: i128 = (self.m as i128) - (other.m as i128);
        Fixed { m: clamp_i128(s) }
    }

    /// Negation; exact, since the window is symmetric.
    pub fn neg(self) -> (r: Fixed)
        ensures
            r@ == neg_v(self@),
    {
        proof {
            use_type_invariant(self);
        }
        Fixed { m: -self.m }
    }

    /// Absolute value; exact, since the window is symmetric.
    pub fn abs(self) -> (r: Fixed)
        ensures
            r@ == abs_v(self@),
    {
        proof {
            use_type_invariant(self);
        }
        if self.m < 0 {
            Fixed { m: -self.m }
        } else {
            Fixed { m: self.m }
        }
    }

    pub fn lt(self, other: Fixed) -> (r: bool)
        ensures
            r == (self@ < other@),
    {
        self.m < other.m
    }

    pub fn le(self, other: Fixed) -> (r: bool)
        ensures
            r == (self@ <= other@),
    {
        self.m <= other.m
    }

    pub fn gt(self, other: Fixed) -> (r: bool)
        ensures
            r == (self@ > other@),
    {
        self.m > other.m
    }

    pub fn ge(self, other: Fixed) -> (r: bool)
        ensures
            r == (self@ >= other@),
    {
        self.m >= other.m
    }

    /// Saturating fixed-point multiplication, rounded toward zero.
    pub fn mul(self, other: Fixed) -> (r: Fixed)
        ensures
            r@ == mul_v(self@, other@),
    {
        proof {
            use_type_invariant(self);
            use_type_invariant(other);
        }
        let neg = (self.m < 0) != (other.m < 0);
        let ma = mag_of(self.m);
        let mb = mag_of(other.m);
        proof {
            assert((ma as int) * (mb as int) <= (MAX_RAW as int) * (MAX_RAW as int))
                by (nonlinear_arith)
                requires
                    0 <= ma as int <= MAX_RAW as int,
                    0 <= mb as int <= MAX_RAW as int,
            ;
        }
        let p: u128 = (ma as u128) * (mb as u128);
        let q: u128 = p / (ONE_RAW as u128);
        let mag = clamp_mag(q);
        Fixed { m: apply_sign(neg, mag) }
    }

    /// Saturating fixed-point division, rounded toward zero. A zero divisor
    /// saturates to the signed end of the representable window.
    pub fn div(self, other: Fixed) -> (r: Fixed)
        ensures
            r@ == div_v(self@, other@),
    {
        proof {
            use_type_invariant(self);
            use_type_invariant(other);
        }
        if other.m == 0 {
            if self.m > 0 {
                Fixed { m: MAX_RAW }
            } else if self.m < 0 {
                Fixed { m: -MAX_RAW }
            } else {
                Fixed { m: 0 }
            }
        } else {
            let neg = (self.m < 0) != (other.m < 0);
            let ma = mag_of(self.m);
            let mb = mag_of(other.m);
            proof {
                assert((ma as int) * (ONE_RAW as int) <= (MAX_RAW as int) * (ONE_RAW as int))
                    by (nonlinear_arith)
                    requires
                        0 <= ma as int <= MAX_RAW as int,
                ;
            }
            let p: u128 = (ma as u128) * (ONE_RAW as u128);
            let q: u128 = p / (mb as u128);
            let mag = clamp_mag(q);
            Fixed { m: apply_sign(neg, mag) }
        }
    }

    /// The `Fixed` nearest to `mant / 10^dp`, halves rounded away from zero,
    /// saturated to the representable window.
    pub fn from_decimal(mant: i64, dp: u32) -> (r: Fixed)
        requires
            dp <= 18,
        ensures
            r@ == from_decimal_v(mant as int, dp as nat),
    {
        let d = pow10_u64(dp);
        let neg = mant < 0;
        let mm: u128 = if mant < 0 {
            (-(mant as i128)) as u128
        } else {
            mant as u128
        };
        proof {
            assert(mm as int == abs_v(mant as int));
            assert(mm * (ONE_RAW as u128) <= 0x8000_0000_0000_0000u128 * (ONE_RAW as u128))
                by (nonlinear_arith)
                requires
                    mm <= 0x8000_0000_0000_0000u128,
            ;
        }
        let x: u128 = mm * (ONE_RAW as u128);
        let q: u128 = (2 * x + (d as u128)) / (2 * (d as u128));
        let mag = clamp_mag(q);
        proof {
            lemma_rha_signs(mant as int, ONE_RAW as int, pow10_v(dp as nat));
        }
        Fixed { m: apply_sign(neg, mag) }
    }

    /// The golden ratio `(√5 + 1) / 2`, rounded to the nearest representable
    /// scalar.
    pub fn golden_ratio() -> (r: Fixed)
        ensures
            r@ == GOLDEN_RAW as int,
    {
        Fixed { m: GOLDEN_RAW }
    }
}

impl Decimal for Fixed {
    open spec fn dp_in_range(dp: int) -> bool {
        -18 <= dp <= 18
    }

    open spec fn rounded_dp(self, dp: int) -> Fixed {
        Fixed::from_val(round_dp_v(self@, dp))
    }

    fn round_dp(&self, dp: i32) -> (r: Fixed) {
        proof {
            use_type_invariant(*self);
        }
        let neg = self.m < 0;
        let mm = mag_of(self.m);
        let r = if dp >= 0 {
            let d = pow10_u64(dp as u32);
            proof {
                assert((mm as int) * (d as int) <= (MAX_RAW as int) * 1_000_000_000_000_000_000)
                    by (nonlinear_arith)
                    requires
                        0 <= mm as int <= MAX_RAW as int,
                        0 <= d as int <= 1_000_000_000_000_000_000,
                ;
            }
            let x: u128 = (mm as u128) * (d as u128);
            let n: u128 = (2 * x + (ONE_RAW as u128)) / (2 * (ONE_RAW as u128));
            proof {
                vstd::arithmetic::div_mod::lemma_fundamental_div_mod(
                    2 * (x as int) + (ONE_RAW as int),
                    2 * (ONE_RAW as int),
                );
                assert(2 * (ONE_RAW as int) * (n as int) == 2 * ((ONE_RAW as int) * (n as int)))
                    by (nonlinear_arith);
            }
            let y: u128 = n * (ONE_RAW as u128);
            let q: u128 = (2 * y + (d as u128)) / (2 * (d as u128));
            let mag = clamp_mag(q);
            let mr = apply_sign(neg, mag);
            proof {
                let v = self.m as int;
                let dd = d as int;
                let one = ONE_RAW as int;
                lemma_rha_signs(v, dd, one);
                assert(x as int == abs_v(v) * dd);
                assert(n as int == (2 * (abs_v(v) * dd) + one) / (2 * one));
                let ns = rha_v(v * dd, one);
                assert(ns == if v >= 0 {
                    n as int
                } else {
                    -(n as int)
                });
                lemma_rha_signs(ns, one, dd);
                assert(abs_v(ns) == n as int);
                assert(y as int == (n as int) * one);
                assert(rha_v(ns * one, dd) == if ns >= 0 {
                    q as int
                } else {
                    -(q as int)
                });
                assert(round_dp_v(v, dp as int) == sat_v(rha_v(ns * one, dd)));
                if n == 0 {
                    vstd::arithmetic::div_mod::lemma_basic_div(dd, 2 * dd);
                    assert(q as int == 0);
                }
                assert(mr as int == sat_v(rha_v(ns * one, dd)));
            }
            Fixed { m: mr }
        } else {
            let d = pow10_u64((-dp) as u32);
            proof {
                assert((ONE_RAW as int) * (d as int) <= (ONE_RAW as int)
                    * 1_000_000_000_000_000_000) by (nonlinear_arith)
                    requires
                        0 <= d as int <= 1_000_000_000_000_000_000,
                ;
            }
            let unit: u128 = (ONE_RAW as u128) * (d as u128);
            let n: u128 = (2 * (mm as u128) + unit) / (2 * unit);
            proof {
                vstd::arithmetic::div_mod::lemma_fundamental_div_mod(
                    2 * (mm as int) + (unit as int),
                    2 * (unit as int),
                );
                assert(2 * (unit as int) * (n as int) == 2 * ((unit as int) * (n as int)))
                    by (nonlinear_arith);
                assert((-(n as int)) * (unit as int) == -((n as int) * (unit as int)))
                    by (nonlinear_arith);
            }
            let y: u128 = n * unit;
            let mag = clamp_mag(y);
            let mr = apply_sign(neg, mag);
            proof {
                let v = self.m as int;
                let u = unit as int;
                assert(u == (ONE_RAW as int) * pow10_v((-(dp as int)) as nat));
                let ns = rha_v(v, u);
                assert(ns == if v >= 0 {
                    n as int
                } else {
                    -(n as int)
                });
                assert(y as int == (n as int) * u);
                assert(ns * u == if v >= 0 {
                    y as int
                } else {
                    -(y as int)
                });
                assert(round_dp_v(v, dp as int) == sat_v(ns * u));
                assert(mr as int == sat_v(ns * u));
            }
            Fixed { m: mr }
        };
        proof {
            assert(in_range_v(round_dp_v(self@, dp as int)));
            lemma_from_val_view(round_dp_v(self@, dp as int));
            lemma_view_injective(r, Fixed::from_val(round_dp_v(self@, dp as int)));
        }
        r
    }
}

/// For `y > 0`, `rha_v(x * y, d)` is the signed version of the magnitude
/// computation: it equals `(2|x|y + d) / (2d)` with the sign of `x`.
proof fn lemma_rha_signs(x: int, y: int, d: int)
    requires
        y > 0,
        d > 0,
    ensures
        x >= 0 ==> rha_v(x * y, d) == (2 * (abs_v(x) * y) + d) / (2 * d),
        x < 0 ==> rha_v(x * y, d) == -((2 * (abs_v(x) * y) + d) / (2 * d)),
{
    if x >= 0 {
        assert(x * y >= 0) by (nonlinear_arith)
            requires
                x >= 0,
                y > 0,
        ;
    } else {
        assert(x * y < 0) by (nonlinear_arith)
            requires
                x < 0,
                y > 0,
        ;
        assert(-(x * y) == (-x) * y) by (nonlinear_arith);
    }
}

/// `Fixed::from_val` inverts the view on in-window values.
pub broadcast proof fn lemma_from_val_view(v: int)
    requires
        in_range_v(v),
    ensures
        (#[trigger] Fixed::from_val(v))@ == v,
{
}

/// Two `Fixed` values with the same view are the same value.
pub proof fn lemma_view_injective(a: Fixed, b: Fixed)
    requires
        a@ == b@,
    ensures
        a == b,
{
}

/// Rebuilding a scalar from its own view yields the same value.
pub proof fn lemma_from_val_id(a: Fixed)
    ensures
        Fixed::from_val(a@) == a,
{
}

fn clamp_i128(p: i128) -> (r: i64)
    ensures
        r as int == sat_v(p as int),
{
    if p > (MAX_RAW as i128) {
        MAX_RAW
    } else if p < -(MAX_RAW as i128) {
        -MAX_RAW
    } else {
        p as i64
    }
}

fn mag_of(m: i64) -> (r: u64)
    requires
        in_range_v(m as int),
    ensures
        r as int == abs_v(m as int),
{
    if m < 0 {
        (-m) as u64
    } else {
        m as u64
    }
}

fn clamp_mag(q: u128) -> (r: u64)
    ensures
        r as int == if q as int > MAX_RAW as int {
            MAX_RAW as int
        } else {
            q as int
        },
{
    if q > (MAX_RAW as u128) {
        MAX_RAW as u64
    } else {
        q as u64
    }
}

fn apply_sign(neg: bool, mag: u64) -> (r: i64)
    requires
        mag as int <= MAX_RAW as int,
    ensures
        r as int == if neg {
            -(mag as int)
        } else {
            mag as int
        },
{
    if neg {
        -(mag as i64)
    } else {
        mag as i64
    }
}

/// Powers of ten are at least 1.
pub proof fn lemma_pow10_pos(k: nat)
    ensures
        pow10_v(k) >= 1,
    decreases k,
{
    if k > 0 {
        lemma_pow10_pos((k - 1) as nat);
    }
}

/// Powers of ten do not decrease as the exponent grows.
pub proof fn lemma_pow10_nondecreasing(j: nat, k: nat)
    requires
        j <= k,
    ensures
        pow10_v(j) <= pow10_v(k),
    decreases k - j,
{
    lemma_pow10_pos(j);
    if j < k {
        lemma_pow10_nondecreasing(j, (k - 1) as nat);
        lemma_pow10_pos((k - 1) as nat);
    }
}

proof fn lemma_pow10_18()
    ensures
        pow10_v(18) == 1_000_000_000_000_000_000,
{
    assert(pow10_v(0) == 1);
    assert(pow10_v(1) == 10);
    assert(pow10_v(2) == 100);
    assert(pow10_v(3) == 1000);
    assert(pow10_v(4) == 10000);
    assert(pow10_v(5) == 100000);
    assert(pow10_v(6) == 1000000);
    assert(pow10_v(7) == 10000000);
    assert(pow10_v(8) == 100000000);
    assert(pow10_v(9) == 1000000000);
    assert(pow10_v(10) == 10000000000);
    assert(pow10_v(11) == 100000000000);
    assert(pow10_v(12) == 1000000000000);
    assert(pow10_v(13) == 10000000000000);
    assert(pow10_v(14) == 100000000000000);
    assert(pow10_v(15) == 1000000000000000);
    assert(pow10_v(16) == 10000000000000000);
    assert(pow10_v(17) == 100000000000000000);
    assert(pow10_v(18) == 1000000000000000000);
}

fn pow10_u64(dp: u32) -> (r: u64)
    requires
        dp <= 18,
    ensures
        r as int == pow10_v(dp as nat),
        1 <= r <= 1_000_000_000_000_000_000,
{
    proof {
        lemma_pow10_pos(dp as nat);
        lemma_pow10_nondecreasing(dp as nat, 18);
        lemma_pow10_18();
    }
    let mut p: u64 = 1;
    let mut j: u32 = 0;
    while j < dp
        invariant
            j <= dp,
            dp <= 18,
            p as int == pow10_v(j as nat),
        decreases dp - j,
    {
        proof {
            lemma_pow10_nondecreasing((j + 1) as nat, 18);
            lemma_pow10_18();
        }
        p = p * 10;
        j = j + 1;
    }
    p
}

} // verus!
