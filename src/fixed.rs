//! Fixed-point arithmetic: quantities counted in millionths.

use vstd::arithmetic::div_mod::{
    lemma_fundamental_div_mod, lemma_fundamental_div_mod_converse, lemma_mod_pos_bound,
};
use vstd::prelude::*;

verus! {

/// The integer that stands for one whole unit (1.0).
pub const UNIT: i64 = 1000000;

/// Magnitude up to which `div_round` accepts its operands.
pub const DIV_BOUND: i128 = 0x1fff_ffff_ffff_ffff_ffff_ffff_ffff_ffff;

/// `n / d` rounded to the nearest integer, halves away from zero.
pub open spec fn round_div(n: int, d: int) -> int
    recommends
        d > 0,
{
    if n >= 0 {
        (2 * n + d) / (2 * d)
    } else {
        -((-2 * n + d) / (2 * d))
    }
}

/// `x` snapped to the nearest multiple of `s` (`x / s` rounded, times `s`);
/// zero where `s` is zero.
pub open spec fn snapped(x: int, s: int) -> int {
    if s == 0 {
        0
    } else {
        round_div(x, abs(s)) * abs(s)
    }
}

/// The product of two fixed-point numbers, rounded to the nearest millionth.
pub open spec fn fixed_mul(a: int, b: int) -> int {
    round_div(a * b, UNIT as int)
}

/// The absolute value of an integer.
pub open spec fn abs(x: int) -> int {
    if x < 0 {
        -x
    } else {
        x
    }
}

/// Rounding to the nearest integer is off by at most one half.
pub proof fn lemma_round_div_error(n: int, d: int)
    requires
        d > 0,
    ensures
        -d <= 2 * (round_div(n, d) * d - n) <= d,
{
    let m = if n >= 0 { 2 * n + d } else { -2 * n + d };
    lemma_fundamental_div_mod(m, 2 * d);
    lemma_mod_pos_bound(m, 2 * d);
    let q = m / (2 * d);
    let r = m % (2 * d);
    assert((2 * d) * q == 2 * (q * d)) by (nonlinear_arith);
    assert(m == 2 * (q * d) + r);
    if n >= 0 {
        assert(round_div(n, d) == q);
        assert(2 * (q * d - n) == d - r);
    } else {
        assert(round_div(n, d) == -q);
        assert(round_div(n, d) * d == -(q * d)) by (nonlinear_arith)
            requires
                round_div(n, d) == -q,
        ;
        assert(2 * (-(q * d) - n) == r - d);
    }
}

/// A multiple of `d` divided by `d` is rounded to itself.
pub proof fn lemma_round_div_exact(k: int, d: int)
    requires
        d > 0,
    ensures
        round_div(k * d, d) == k,
{
    if k >= 0 {
        assert(k * d >= 0) by (nonlinear_arith)
            requires
                k >= 0,
                d > 0,
        ;
        assert(2 * (k * d) + d == k * (2 * d) + d) by (nonlinear_arith);
        lemma_fundamental_div_mod_converse(2 * (k * d) + d, 2 * d, k, d);
    } else {
        assert(k * d < 0) by (nonlinear_arith)
            requires
                k < 0,
                d > 0,
        ;
        assert(-2 * (k * d) + d == (-k) * (2 * d) + d) by (nonlinear_arith);
        lemma_fundamental_div_mod_converse(-2 * (k * d) + d, 2 * d, -k, d);
    }
}

/// Snapping moves a value by at most half a step.
pub proof fn lemma_snapped_error(x: int, s: int)
    requires
        s != 0,
    ensures
        -abs(s) <= 2 * (snapped(x, s) - x) <= abs(s),
        abs(snapped(x, s)) <= abs(x) + abs(s),
{
    lemma_round_div_error(x, abs(s));
}

/// Snapping a multiple of the step leaves it unchanged.
pub proof fn lemma_snapped_exact(k: int, s: int)
    ensures
        snapped(k * s, s) == k * s,
{
    if s == 0 {
        assert(k * s == 0) by (nonlinear_arith)
            requires
                s == 0,
        ;
    } else if s > 0 {
        lemma_round_div_exact(k, s);
    } else {
        assert(k * s == (-k) * abs(s)) by (nonlinear_arith)
            requires
                abs(s) == -s,
        ;
        lemma_round_div_exact(-k, abs(s));
    }
}

/// A quotient rounded to the nearest integer is at most one past the bound
/// of the exact quotient.
pub proof fn lemma_round_div_bound(n: int, d: int, k: int)
    requires
        d > 0,
        k >= 0,
        abs(n) <= k * d,
    ensures
        abs(round_div(n, d)) <= k + 1,
{
    lemma_round_div_error(n, d);
    let q = round_div(n, d);
    assert(abs(q) <= k + 1) by (nonlinear_arith)
        requires
            d > 0,
            -d <= 2 * (q * d - n) <= d,
            abs(n) <= k * d,
            abs(q) == if q < 0 { -q } else { q },
            abs(n) == if n < 0 { -n } else { n },
    ;
}

/// `n / d`, rounded to the nearest integer with halves away from zero.
pub fn div_round(n: i128, d: i128) -> (r: i128)
    requires
        0 < d <= DIV_BOUND,
        -DIV_BOUND <= n <= DIV_BOUND,
    ensures
        r == round_div(n as int, d as int),
{
    if n >= 0 {
        (2 * n + d) / (2 * d)
    } else {
        let m: i128 = 0 - n;
        0 - (2 * m + d) / (2 * d)
    }
}


/// Largest base damage amount per damage type: one million, in millionths.
pub const MAX_AMOUNT: i128 = 1000000000000;

/// Largest magnitude of a single modifier bonus: one hundred, in millionths.
pub const MAX_BONUS: i64 = 100000000;

/// Largest weakness multiplier: one hundred, in millionths.
pub const MAX_MULTIPLIER: i128 = 100000000;

/// Largest number of modifier effects in one hit.
pub const MAX_EFFECTS: usize = 256;

/// The product of two fixed-point numbers, rounded to the nearest millionth.
pub fn mul_round(a: i128, b: i128) -> (r: i128)
    requires
        -DIV_BOUND <= a * b <= DIV_BOUND,
    ensures
        r == fixed_mul(a as int, b as int),
{
    div_round(a * b, UNIT as i128)
}

/// `x` snapped to the nearest multiple of `s`; zero where `s` is zero.
pub fn snap(x: i128, s: i128) -> (r: i128)
    requires
        -DIV_BOUND <= x <= DIV_BOUND,
        -DIV_BOUND <= s <= DIV_BOUND,
    ensures
        r == snapped(x as int, s as int),
{
    if s == 0 {
        0
    } else {
        proof {
            lemma_snapped_error(x as int, s as int);
        }
        let step = if s < 0 {
            -s
        } else {
            s
        };
        div_round(x, step) * step
    }
}

} // verus!
