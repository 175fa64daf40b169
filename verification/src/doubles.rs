//! Whole numbers and quotients as double-precision numbers hold them.
//!
//! A double-precision number has 53 binary digits.  What has more is rounded to
//! the nearest number that has not, a tie going to the even one.

use crate::rounding::{divide_rounded, lemma_rounded_is_near, rounded};
use vstd::prelude::*;

verus! {

/// The least number that 53 binary digits do not hold.
pub const DOUBLE_LIMIT: u128 = 9_007_199_254_740_992;

/// The distance between double-precision numbers around `n / d`, for quotients
/// of a size that makes it one at least: the least power of two from `unit` on
/// that leaves the quotient 53 binary digits before the point.
pub open spec fn spacing(n: nat, d: nat, unit: nat) -> nat
    decreases n - d * unit,
{
    if d > 0 && unit > 0 && n >= DOUBLE_LIMIT * (d * unit) {
        proof {
            assert(d * (2 * unit) == 2 * (d * unit) && d * unit > 0) by (nonlinear_arith)
                requires
                    d > 0,
                    unit > 0,
            ;
        }
        spacing(n, d, 2 * unit)
    } else {
        unit
    }
}

/// How many double-precision numbers there are to the unit around `n / d`, for
/// quotients of a size that makes it one at least: the greatest power of two
/// from `steps` on that leaves `steps` times the quotient 53 binary digits
/// before the point.
pub open spec fn fineness(n: nat, d: nat, steps: nat) -> nat
    decreases DOUBLE_LIMIT * d - n * steps,
{
    if n > 0 && steps > 0 && 2 * (n * steps) < DOUBLE_LIMIT * d {
        proof {
            assert(n * (2 * steps) == 2 * (n * steps) && n * steps > 0) by (nonlinear_arith)
                requires
                    n > 0,
                    steps > 0,
            ;
        }
        fineness(n, d, 2 * steps)
    } else {
        steps
    }
}

/// A whole number as a double-precision number holds it.
pub open spec fn double_whole(n: nat) -> nat {
    rounded(n, spacing(n, 1, 1)) * spacing(n, 1, 1)
}

/// A quotient as a double-precision number holds it, as a numerator and a
/// denominator.
pub open spec fn double_quotient(n: nat, d: nat) -> (nat, nat) {
    if n >= DOUBLE_LIMIT * d {
        (rounded(n, d * spacing(n, d, 1)) * spacing(n, d, 1), 1)
    } else {
        (rounded(n * fineness(n, d, 1), d), fineness(n, d, 1))
    }
}

fn find_spacing(n: u128, d: u128) -> (unit: u128)
    requires
        n < 0x100_0000_0000_0000_0000_0000_0000,
        0 < d <= 1_000_000,
    ensures
        unit == spacing(n as nat, d as nat, 1),
        unit > 0,
        unit == 1 || DOUBLE_LIMIT * (d * unit) <= 2 * n,
        n < DOUBLE_LIMIT * (d * unit),
{
    let mut unit: u128 = 1;
    while n >= DOUBLE_LIMIT * (d * unit)
        invariant
            n < 0x100_0000_0000_0000_0000_0000_0000,
            0 < d <= 1_000_000,
            unit > 0,
            unit == 1 || DOUBLE_LIMIT * (d * unit) <= 2 * n,
            spacing(n as nat, d as nat, unit as nat) == spacing(n as nat, d as nat, 1),
            d * unit <= 0x8_0000_0000_0000_0000_0000,
        decreases n - d * unit,
    {
        assert(d * (2 * unit) == 2 * (d * unit) && d * unit >= unit) by (nonlinear_arith)
            requires
                d > 0,
                unit > 0,
        ;
        unit = 2 * unit;
    }
    unit
}

fn find_fineness(n: u128, d: u128) -> (steps: u128)
    requires
        0 < d <= 1_000_000,
        n < DOUBLE_LIMIT * d,
    ensures
        steps == fineness(n as nat, d as nat, 1),
        steps > 0,
        n * steps < DOUBLE_LIMIT * d,
        n > 0 ==> 2 * (n * steps) >= DOUBLE_LIMIT * d,
        n == 0 ==> steps == 1,
{
    let mut steps: u128 = 1;
    while n > 0 && 2 * (n * steps) < DOUBLE_LIMIT * d
        invariant
            0 < d <= 1_000_000,
            n < DOUBLE_LIMIT * d,
            steps > 0,
            n == 0 ==> steps == 1,
            n * steps < DOUBLE_LIMIT * d,
            fineness(n as nat, d as nat, steps as nat) == fineness(n as nat, d as nat, 1),
        decreases DOUBLE_LIMIT * d - n * steps,
    {
        assert(n * (2 * steps) == 2 * (n * steps) && n * steps >= steps) by (nonlinear_arith)
            requires
                n > 0,
                steps > 0,
        ;
        steps = 2 * steps;
    }
    steps
}

/// A whole number as a double-precision number holds it.
pub(crate) fn round_whole(n: u128) -> (whole: u128)
    requires
        n < 0x100_0000_0000_0000_0000_0000_0000,
    ensures
        whole == double_whole(n as nat),
        whole <= n + n / DOUBLE_LIMIT,
{
    let unit: u128 = find_spacing(n, 1);
    proof {
        lemma_rounded_is_near(n as nat, unit as nat);
        if unit == 1 {
            assert(rounded(n as nat, 1) == n);
        }
    }
    divide_rounded(n, unit) * unit
}

/// A quotient as a double-precision number holds it, as a numerator and a
/// denominator.
pub(crate) fn round_quotient(n: u128, d: u128) -> (quotient: (u128, u128))
    requires
        n < 0x100_0000_0000_0000_0000_0000_0000,
        0 < d <= 1_000_000,
    ensures
        (quotient.0 as nat, quotient.1 as nat) == double_quotient(n as nat, d as nat),
        quotient.0 <= 2 * n + DOUBLE_LIMIT,
        quotient.1 > 0,
{
    if n >= DOUBLE_LIMIT * d {
        let unit: u128 = find_spacing(n, d);
        let part: u128 = divide_rounded(n, d * unit);
        proof {
            let w = (d * unit) as nat;
            assert(w > 0) by (nonlinear_arith)
                requires
                    d > 0,
                    unit > 0,
                    w == d * unit,
            ;
            lemma_rounded_is_near(n as nat, w);
            assert(part * w == d * (part * unit)) by (nonlinear_arith)
                requires
                    w == d * unit,
            ;
            assert(d * (part * unit) >= part * unit) by (nonlinear_arith)
                requires
                    d >= 1,
            ;
        }
        (part * unit, 1)
    } else {
        let steps: u128 = find_fineness(n, d);
        proof {
            lemma_rounded_is_near((n * steps) as nat, d as nat);
            let m = rounded((n * steps) as nat, d as nat);
            assert(m <= DOUBLE_LIMIT) by (nonlinear_arith)
                requires
                    2 * (m * d) <= 2 * (n * steps) + d,
                    n * steps < DOUBLE_LIMIT * d,
                    d > 0,
            ;
        }
        (divide_rounded(n * steps, d), steps)
    }
}

/// A quotient that is taken as often as its fineness says has 53 binary digits
/// before the point; taken twice as often it would have more.
pub proof fn lemma_fineness(n: nat, d: nat, steps: nat)
    requires
        steps > 0,
        n * steps < DOUBLE_LIMIT * d,
    ensures
        fineness(n, d, steps) >= steps,
        n * fineness(n, d, steps) < DOUBLE_LIMIT * d,
        n > 0 ==> 2 * (n * fineness(n, d, steps)) >= DOUBLE_LIMIT * d,
    decreases DOUBLE_LIMIT * d - n * steps,
{
    if n > 0 && 2 * (n * steps) < DOUBLE_LIMIT * d {
        assert(n * (2 * steps) == 2 * (n * steps) && n * steps > 0) by (nonlinear_arith)
            requires
                n > 0,
                steps > 0,
        ;
        lemma_fineness(n, d, 2 * steps);
    }
}

/// A whole number of 53 binary digits is held as it is.
pub proof fn lemma_small_whole_is_exact(n: nat)
    requires
        n < DOUBLE_LIMIT,
    ensures
        double_whole(n) == n,
{
    assert(spacing(n, 1, 1) == 1);
    assert(rounded(n, 1) == n);
}

/// What a double-precision number holds of a whole number is off by no more than
/// one part in two to the power of 53.
pub proof fn lemma_double_whole_is_near(n: nat)
    ensures
        DOUBLE_LIMIT * double_whole(n) <= DOUBLE_LIMIT * n + n,
        DOUBLE_LIMIT * double_whole(n) + n >= DOUBLE_LIMIT * n,
{
    let u = spacing(n, 1, 1);
    lemma_spacing(n, 1, 1);
    lemma_rounded_is_near(n, u);
    if u == 1 {
        lemma_small_whole_is_exact(n);
    }
}

/// The distance between neighbours is no greater than it has to be.
pub proof fn lemma_spacing(n: nat, d: nat, unit: nat)
    requires
        d > 0,
        unit > 0,
    ensures
        spacing(n, d, unit) >= unit,
        n < DOUBLE_LIMIT * (d * spacing(n, d, unit)),
        spacing(n, d, unit) > unit ==> DOUBLE_LIMIT * (d * spacing(n, d, unit)) <= 2 * n,
    decreases n - d * unit,
{
    if n >= DOUBLE_LIMIT * (d * unit) {
        assert(d * (2 * unit) == 2 * (d * unit) && d * unit > 0) by (nonlinear_arith)
            requires
                d > 0,
                unit > 0,
        ;
        lemma_spacing(n, d, 2 * unit);
    }
}

/// Whole numbers are exact up to two to the power of 53; up to twice that only even
/// ones are held.
pub proof fn lemma_where_wholes_are_exact(n: nat)
    ensures
        n <= 0x20_0000_0000_0000 ==> double_whole(n) == n,
        0x20_0000_0000_0000 <= n < 0x40_0000_0000_0000 ==> double_whole(n) % 2 == 0,
        0x20_0000_0000_0000 <= n < 0x40_0000_0000_0000 && n % 2 == 0 ==> double_whole(n) == n,
{
    if n < 0x20_0000_0000_0000 {
        lemma_small_whole_is_exact(n);
    } else if n < 0x40_0000_0000_0000 {
        reveal_with_fuel(spacing, 2);
        assert(spacing(n, 1, 1) == 2);
        let half = rounded(n, 2);
        assert(double_whole(n) == half * 2);
        if n % 2 == 0 {
            crate::rounding::lemma_rounding(n / 2, 2);
        }
    }
}

/// What a double-precision number holds of a quotient is off by no more than one
/// part in two to the power of 53.
pub proof fn lemma_double_quotient_is_near(n: nat, d: nat)
    requires
        d > 0,
    ensures
        ({
            let (a, b) = double_quotient(n, d);
            &&& b > 0
            &&& DOUBLE_LIMIT * (a * d) <= DOUBLE_LIMIT * (n * b) + n * b
            &&& DOUBLE_LIMIT * (a * d) + n * b >= DOUBLE_LIMIT * (n * b)
        }),
{
    let (a, b) = double_quotient(n, d);
    if n >= DOUBLE_LIMIT * d {
        let u = spacing(n, d, 1);
        lemma_spacing(n, d, 1);
        let w = d * u;
        assert(w > 0) by (nonlinear_arith)
            requires
                d > 0,
                u > 0,
                w == d * u,
        ;
        lemma_rounded_is_near(n, w);
        let m = rounded(n, w);
        assert(a * d == m * w) by (nonlinear_arith)
            requires
                a == m * u,
                w == d * u,
        ;
        assert(u > 1);
    } else {
        let s = fineness(n, d, 1);
        lemma_fineness(n, d, 1);
        lemma_rounded_is_near(n * s, d);
        if n == 0 {
            assert(n * s == 0) by (nonlinear_arith)
                requires
                    n == 0,
            ;
            assert(rounded(0, d) == 0) by {
                crate::rounding::lemma_rounding(0, d);
                assert(0 * d == 0) by (nonlinear_arith);
            }
            assert(a * d == 0) by (nonlinear_arith)
                requires
                    a == 0,
            ;
        }
    }
}

} // verus!
