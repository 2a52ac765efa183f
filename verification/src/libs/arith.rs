//! Rounded division on integers: the one rounding rule that every colour
//! conversion shares.

use vstd::arithmetic::div_mod::{lemma_fundamental_div_mod, lemma_fundamental_div_mod_converse, lemma_mod_bound};
use vstd::prelude::*;

verus! {

/// The integer nearest to `n / d`, for `d > 0`; a tie goes to the larger one.
pub open spec fn round_div(n: int, d: int) -> int {
    (2 * n + d) / (2 * d)
}

/// The smaller of two integers.
pub open spec fn min_int(a: int, b: int) -> int {
    if a <= b {
        a
    } else {
        b
    }
}

/// The larger of two integers.
pub open spec fn max_int(a: int, b: int) -> int {
    if a >= b {
        a
    } else {
        b
    }
}

/// `round_div(n, d)` lies within half a unit of `n / d`.
pub proof fn lemma_round_div_bounds(n: int, d: int)
    requires
        d > 0,
    ensures
        (2 * d) * round_div(n, d) <= 2 * n + d < (2 * d) * round_div(n, d) + 2 * d,
{
    lemma_fundamental_div_mod(2 * n + d, 2 * d);
    lemma_mod_bound(2 * n + d, 2 * d);
}

/// The only integer within half a unit of `n / d`, a tie going up, is
/// `round_div(n, d)`.
pub proof fn lemma_round_div_unique(n: int, d: int, r: int)
    requires
        d > 0,
        (2 * d) * r <= 2 * n + d < (2 * d) * r + 2 * d,
    ensures
        round_div(n, d) == r,
{
    let rem = 2 * n + d - (2 * d) * r;
    assert((2 * d) * r == r * (2 * d)) by (nonlinear_arith);
    lemma_fundamental_div_mod_converse(2 * n + d, 2 * d, r, rem);
}

/// A whole number rounds to itself.
pub proof fn lemma_round_div_exact(k: int, d: int)
    requires
        d > 0,
    ensures
        round_div(k * d, d) == k,
{
    assert((2 * d) * k == 2 * (k * d)) by (nonlinear_arith);
    lemma_round_div_unique(k * d, d, k);
}

/// A common factor of numerator and denominator does not change the result.
pub proof fn lemma_round_div_scale(n: int, d: int, k: int)
    requires
        d > 0,
        k > 0,
    ensures
        round_div(n * k, d * k) == round_div(n, d),
{
    let r = round_div(n, d);
    lemma_round_div_bounds(n, d);
    assert(d * k > 0) by (nonlinear_arith)
        requires
            d > 0,
            k > 0,
    ;
    assert((2 * (d * k)) * r <= 2 * (n * k) + d * k < (2 * (d * k)) * r + 2 * (d * k))
        by (nonlinear_arith)
        requires
            k > 0,
            (2 * d) * r <= 2 * n + d < (2 * d) * r + 2 * d,
    ;
    lemma_round_div_unique(n * k, d * k, r);
}

/// Whole units added before rounding are whole units added after it.
pub proof fn lemma_round_div_shift(n: int, d: int, m: int)
    requires
        d > 0,
    ensures
        round_div(n + m * d, d) == round_div(n, d) + m,
{
    let r = round_div(n, d);
    lemma_round_div_bounds(n, d);
    assert((2 * d) * (r + m) <= 2 * (n + m * d) + d < (2 * d) * (r + m) + 2 * d)
        by (nonlinear_arith)
        requires
            (2 * d) * r <= 2 * n + d < (2 * d) * r + 2 * d,
    ;
    lemma_round_div_unique(n + m * d, d, r + m);
}

/// Rounding keeps the order of the numerators.
pub proof fn lemma_round_div_monotonic(n1: int, n2: int, d: int)
    requires
        d > 0,
        n1 <= n2,
    ensures
        round_div(n1, d) <= round_div(n2, d),
{
    lemma_round_div_bounds(n1, d);
    lemma_round_div_bounds(n2, d);
    let r1 = round_div(n1, d);
    let r2 = round_div(n2, d);
    assert(r1 <= r2) by (nonlinear_arith)
        requires
            d > 0,
            (2 * d) * r1 <= 2 * n1 + d,
            2 * n2 + d < (2 * d) * r2 + 2 * d,
            n1 <= n2,
    ;
}

/// A ratio between two whole numbers rounds to a value between them.
pub proof fn lemma_round_div_range(n: int, d: int, lo: int, hi: int)
    requires
        d > 0,
        lo * d <= n <= hi * d,
    ensures
        lo <= round_div(n, d) <= hi,
{
    lemma_round_div_exact(lo, d);
    lemma_round_div_exact(hi, d);
    lemma_round_div_monotonic(lo * d, n, d);
    lemma_round_div_monotonic(n, hi * d, d);
}

/// The smaller of two numbers.
pub(crate) fn min_u32(a: u32, b: u32) -> (m: u32)
    ensures
        m == min_int(a as int, b as int),
{
    if a <= b {
        a
    } else {
        b
    }
}

/// The larger of two numbers.
pub(crate) fn max_u32(a: u32, b: u32) -> (m: u32)
    ensures
        m == max_int(a as int, b as int),
{
    if a >= b {
        a
    } else {
        b
    }
}

/// Computes `round_div(n, d)` without leaving the range of the type.
pub(crate) fn round_ratio(n: u128, d: u128) -> (r: u128)
    requires
        d > 0,
    ensures
        r == round_div(n as int, d as int),
        r <= n,
{
    let q = n / d;
    let rem = n % d;
    proof {
        lemma_fundamental_div_mod(n as int, d as int);
        assert(d * q <= n) by (nonlinear_arith)
            requires
                n == d * q + rem,
                rem >= 0,
        ;
        assert(q <= n) by (nonlinear_arith)
            requires
                d * q <= n,
                d >= 1,
                q >= 0,
        ;
    }
    if rem >= d - rem {
        proof {
            assert((2 * d) * (q + 1) <= 2 * n + d < (2 * d) * (q + 1) + 2 * d) by (nonlinear_arith)
                requires
                    n == d * q + rem,
                    rem < d,
                    2 * rem >= d,
            ;
            lemma_round_div_unique(n as int, d as int, q + 1);
            assert(q + 1 <= n) by (nonlinear_arith)
                requires
                    n == d * q + rem,
                    2 * rem >= d,
                    rem < d,
                    d >= 1,
                    q >= 0,
            ;
        }
        q + 1
    } else {
        proof {
            assert((2 * d) * q <= 2 * n + d < (2 * d) * q + 2 * d) by (nonlinear_arith)
                requires
                    n == d * q + rem,
                    0 <= rem,
                    2 * rem < d,
            ;
            lemma_round_div_unique(n as int, d as int, q as int);
        }
        q
    }
}

/// Computes `round_div(n, d)` where `n / d` is known to be at most `hi`.
pub(crate) fn round_within(n: u128, d: u128, Ghost(hi): Ghost<int>) -> (r: u32)
    requires
        d > 0,
        0 <= hi <= u32::MAX,
        n <= hi * d,
    ensures
        r == round_div(n as int, d as int),
        r <= hi,
{
    proof {
        lemma_round_div_range(n as int, d as int, 0, hi);
    }
    let r = round_ratio(n, d);
    r as u32
}

} // verus!
