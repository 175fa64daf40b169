//! Division rounded to the nearest whole number, a tie going to the even one.

use vstd::prelude::*;

verus! {

/// `n / d`, rounded to the nearest whole number, a tie going to the even one.
pub open spec fn rounded(n: nat, d: nat) -> nat {
    let below = n / d;
    let rest = n % d;
    if 2 * rest > d || (2 * rest == d && below % 2 == 1) {
        below + 1
    } else {
        below
    }
}

/// `n / d`, rounded to the nearest whole number, a tie going to the even one.
pub fn divide_rounded(n: u128, d: u128) -> (quotient: u128)
    requires
        d > 0,
    ensures
        quotient == rounded(n as nat, d as nat),
{
    let below: u128 = n / d;
    let rest: u128 = n % d;
    let other: u128 = d - rest;
    assert(below < u128::MAX || rest == 0) by (nonlinear_arith)
        requires
            d > 0,
            below == n / d,
            rest == n % d,
            n <= u128::MAX,
    ;
    if rest > other || (rest == other && below % 2 == 1) {
        below + 1
    } else {
        below
    }
}

/// The rounded quotient is off by half at most.
pub proof fn lemma_rounded_is_near(n: nat, d: nat)
    requires
        d > 0,
    ensures
        2 * n - d <= 2 * (rounded(n, d) * d) <= 2 * n + d,
{
    vstd::arithmetic::div_mod::lemma_fundamental_div_mod(n as int, d as int);
    let below = n / d;
    assert((below + 1) * d == d * below + d) by (nonlinear_arith);
    assert(below * d == d * below) by (nonlinear_arith);
}

/// A quotient that is whole is not rounded, and a tie goes to the even number.
pub proof fn lemma_rounding(q: nat, d: nat)
    requires
        d > 0,
    ensures
        rounded(q * d, d) == q,
        rounded((2 * q + 1) * d, 2 * d) % 2 == 0,
{
    vstd::arithmetic::div_mod::lemma_div_multiples_vanish(q as int, d as int);
    vstd::arithmetic::div_mod::lemma_mod_multiples_basic(q as int, d as int);
    assert(q * d == d * q) by (nonlinear_arith);
    let n = ((2 * q + 1) * d) as int;
    let w = (2 * d) as int;
    assert(n == q * w + d) by (nonlinear_arith)
        requires
            n == (2 * q + 1) * d,
            w == 2 * d,
    ;
    vstd::arithmetic::div_mod::lemma_fundamental_div_mod_converse(n, w, q as int, d as int);
}

} // verus!
