//! Factorials and binomial coefficients on machine integers.

use vstd::prelude::*;

verus! {

/// The factorial of `n`; 1 for every `n <= 1`.
pub open spec fn fact(n: int) -> int
    decreases n,
{
    if n <= 1 {
        1
    } else {
        n * fact(n - 1)
    }
}

#[derive(Clone, Copy, PartialEq, Eq, Structural, Debug)]
pub enum FactorialError {
    InputMustBePositive,
}

/// The factorial of a non-negative integer.
///
/// The bound on `n` keeps the result within `i64`; `21!` already does not
/// fit.
pub fn factorial(n: i64) -> (r: Result<i64, FactorialError>)
    requires
        n <= 20,
    ensures
        match r {
            Ok(v) => n >= 0 && v == fact(n as int),
            Err(e) => n < 0 && e == FactorialError::InputMustBePositive,
        },
    decreases n,
{
    if n < 0 {
        return Err(FactorialError::InputMustBePositive);
    }
    if n == 0 || n == 1 {
        return Ok(1);
    }
    match factorial(n - 1) {
        Ok(f) => {
            proof {
                lemma_fact_pos(n - 1 as int);
                lemma_fact_in_i64(n as int);
                assert(fact(n as int) == n * fact(n - 1 as int));
                assert(n * f >= 1) by (nonlinear_arith)
                    requires
                        n >= 2,
                        f >= 1,
                ;
            }
            Ok(n * f)
        },
        Err(e) => Err(e),
    }
}

#[derive(Clone, Copy, PartialEq, Eq, Structural, Debug)]
pub enum BinomialCoefficientError {
    NmustBeLargest,
    FactorialError { source: FactorialError },
}

/// The binomial coefficient `n` choose `k`, via the factorial formula.
pub fn binomial_coeff(n: i64, k: i64) -> (r: Result<i64, BinomialCoefficientError>)
    requires
        n <= 20,
    ensures
        match r {
            Ok(v) => 0 <= k <= n && v == fact(n as int) / (fact(k as int) * fact(n - k as int)),
            Err(BinomialCoefficientError::NmustBeLargest) => k > n,
            Err(BinomialCoefficientError::FactorialError { source }) => k <= n && k < 0
                && source == FactorialError::InputMustBePositive,
        },
{
    if k > n {
        return Err(BinomialCoefficientError::NmustBeLargest);
    }
    let fn_ = match factorial(n) {
        Ok(v) => v,
        Err(e) => {
            return Err(BinomialCoefficientError::FactorialError { source: e });
        },
    };
    let fk = match factorial(k) {
        Ok(v) => v,
        Err(e) => {
            return Err(BinomialCoefficientError::FactorialError { source: e });
        },
    };
    let fnk = match factorial(n - k) {
        Ok(v) => v,
        Err(e) => {
            return Err(BinomialCoefficientError::FactorialError { source: e });
        },
    };
    proof {
        lemma_fact_pos(n as int);
        lemma_fact_pos(k as int);
        lemma_fact_pos(n - k as int);
        lemma_fact_product_le(k as int, n - k as int);
        lemma_fact_in_i64(n as int);
        assert(fk * fnk >= 1 && fk * fnk <= fact(n as int)) by (nonlinear_arith)
            requires
                fk >= 1,
                fnk >= 1,
                fk == fact(k as int),
                fnk == fact(n - k as int),
                fact(k as int) * fact(n - k as int) <= fact(n as int),
        ;
        vstd::arithmetic::div_mod::lemma_div_nonincreasing(fn_ as int, (fk * fnk) as int);
        vstd::arithmetic::div_mod::lemma_div_pos_is_pos(fn_ as int, (fk * fnk) as int);
    }
    Ok(((fn_ as u64) / ((fk as u64) * (fnk as u64))) as i64)
}

/// Factorials are at least 1.
pub proof fn lemma_fact_pos(n: int)
    ensures
        fact(n) >= 1,
    decreases n,
{
    if n > 1 {
        lemma_fact_pos(n - 1);
        assert(n * fact(n - 1) >= 1) by (nonlinear_arith)
            requires
                n >= 2,
                fact(n - 1) >= 1,
        ;
    }
}

/// The factorial of one argument times the factorial of another never
/// exceeds the factorial of their sum.
pub proof fn lemma_fact_product_le(a: int, b: int)
    requires
        a >= 0,
        b >= 0,
    ensures
        fact(a) * fact(b) <= fact(a + b),
    decreases b,
{
    lemma_fact_pos(a);
    lemma_fact_pos(b);
    if b <= 1 {
        assert(fact(b) == 1);
        assert(fact(a) * 1 == fact(a));
        lemma_fact_nondecreasing(a, a + b);
    } else {
        lemma_fact_product_le(a, b - 1);
        lemma_fact_pos(a + b - 1);
        let s = a + b;
        assert(s >= 2);
        assert(fact(s) == s * fact(s - 1));
        assert(fact(a) * fact(b) == (fact(a) * fact(b - 1)) * b) by (nonlinear_arith)
            requires
                fact(b) == b * fact(b - 1),
        ;
        assert((fact(a) * fact(b - 1)) * b <= s * fact(s - 1)) by (nonlinear_arith)
            requires
                fact(a) * fact(b - 1) <= fact(s - 1),
                2 <= b,
                b <= s,
                fact(s - 1) >= 1,
        ;
    }
}

/// Factorials do not decrease as the argument grows.
pub proof fn lemma_fact_nondecreasing(a: int, b: int)
    requires
        a <= b,
    ensures
        fact(a) <= fact(b),
    decreases b - a,
{
    lemma_fact_pos(a);
    if a < b {
        lemma_fact_nondecreasing(a, b - 1);
        lemma_fact_pos(b - 1);
        if b > 1 {
            assert(fact(b) == b * fact(b - 1));
            assert(b * fact(b - 1) >= 1 * fact(b - 1)) by (nonlinear_arith)
                requires
                    b >= 2,
                    fact(b - 1) >= 1,
            ;
        }
    }
}

proof fn lemma_fact_20()
    ensures
        fact(20) == 2432902008176640000,
{
    assert(fact(1) == 1);
    assert(fact(2) == 2);
    assert(fact(3) == 6);
    assert(fact(4) == 24);
    assert(fact(5) == 120);
    assert(fact(6) == 720);
    assert(fact(7) == 5040);
    assert(fact(8) == 40320);
    assert(fact(9) == 362880);
    assert(fact(10) == 3628800);
    assert(fact(11) == 39916800);
    assert(fact(12) == 479001600);
    assert(fact(13) == 6227020800);
    assert(fact(14) == 87178291200);
    assert(fact(15) == 1307674368000);
    assert(fact(16) == 20922789888000);
    assert(fact(17) == 355687428096000);
    assert(fact(18) == 6402373705728000);
    assert(fact(19) == 121645100408832000);
    assert(fact(20) == 2432902008176640000);
}

proof fn lemma_fact_in_i64(n: int)
    requires
        n <= 20,
    ensures
        fact(n) <= 2432902008176640000,
{
    lemma_fact_nondecreasing(n, 20);
    lemma_fact_20();
}

} // verus!
