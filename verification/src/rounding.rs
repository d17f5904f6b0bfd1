//! Division rounded to the nearest integer, halves rounded up.

use vstd::prelude::*;

verus! {

/// The quotient `num / den` rounded to the nearest integer; a quotient that
/// lies exactly between two integers goes to the larger one.
pub open spec fn spec_round_div(num: int, den: int) -> int
    recommends
        den > 0,
{
    (2 * num + den) / (2 * den)
}

/// Computes `num / den` rounded to the nearest integer, halves rounded up.
pub fn round_div(num: u128, den: u128) -> (q: u128)
    requires
        den > 0,
    ensures
        q == spec_round_div(num as int, den as int),
{
    let whole: u128 = num / den;
    let rest: u128 = num % den;
    proof {
        let n = num as int;
        let d = den as int;
        vstd::arithmetic::div_mod::lemma_fundamental_div_mod(n, d);
        vstd::arithmetic::div_mod::lemma_mod_bound(n, d);
        assert(2 * n + d == (2 * d) * (whole as int) + (2 * rest + d)) by (nonlinear_arith)
            requires
                n == d * (whole as int) + rest,
        ;
        if rest >= den - rest {
            assert(2 * n + d == (2 * d) * (whole + 1) + (2 * rest - d)) by (nonlinear_arith)
                requires
                    2 * n + d == (2 * d) * (whole as int) + (2 * rest + d),
            ;
            vstd::arithmetic::div_mod::lemma_fundamental_div_mod_converse(
                2 * n + d,
                2 * d,
                whole + 1,
                2 * rest - d,
            );
            assert(whole < u128::MAX) by (nonlinear_arith)
                requires
                    n == d * (whole as int) + rest,
                    n <= u128::MAX,
                    d >= 2,
                    rest >= 0,
                    whole >= 0,
            ;
        } else {
            vstd::arithmetic::div_mod::lemma_fundamental_div_mod_converse(
                2 * n + d,
                2 * d,
                whole as int,
                2 * rest + d,
            );
        }
    }
    if rest >= den - rest {
        whole + 1
    } else {
        whole
    }
}

/// The rounded quotient is the integer nearest to the exact quotient: twice
/// its distance from `num / den` is at most one, and the upper distance is
/// strictly less than a half.
pub proof fn lemma_round_div_nearest(num: int, den: int)
    requires
        num >= 0,
        den > 0,
    ensures
        spec_round_div(num, den) >= 0,
        2 * spec_round_div(num, den) * den - den <= 2 * num,
        2 * num < 2 * spec_round_div(num, den) * den + den,
{
    let n = 2 * num + den;
    let d = 2 * den;
    let q = n / d;
    vstd::arithmetic::div_mod::lemma_fundamental_div_mod(n, d);
    vstd::arithmetic::div_mod::lemma_mod_bound(n, d);
    vstd::arithmetic::div_mod::lemma_div_pos_is_pos(n, d);
    assert(d * q == 2 * q * den) by (nonlinear_arith)
        requires
            d == 2 * den,
    ;
}

/// Rounded division grows with its numerator.
pub proof fn lemma_round_div_monotonic(a: int, b: int, den: int)
    requires
        a <= b,
        den > 0,
    ensures
        spec_round_div(a, den) <= spec_round_div(b, den),
{
    vstd::arithmetic::div_mod::lemma_div_is_ordered(2 * a + den, 2 * b + den, 2 * den);
}

/// A numerator that does not exceed `k` times the denominator gives a
/// rounded quotient of at most `k`.
pub proof fn lemma_round_div_upper(num: int, den: int, k: int)
    requires
        0 <= num <= k * den,
        den > 0,
    ensures
        0 <= spec_round_div(num, den) <= k,
{
    lemma_round_div_nearest(num, den);
    let q = spec_round_div(num, den);
    assert(q <= k) by (nonlinear_arith)
        requires
            2 * q * den - den <= 2 * num,
            num <= k * den,
            den > 0,
    ;
}

} // verus!
