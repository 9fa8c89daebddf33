//! Integer arithmetic with the roundings that the controllers use.

use vstd::prelude::*;

verus! {

pub open spec fn magnitude(x: int) -> int {
    if x < 0 {
        -x
    } else {
        x
    }
}

/// Division that rounds towards zero.
pub open spec fn trunc_div(a: int, b: int) -> int {
    if a < 0 {
        -(-a / b)
    } else {
        a / b
    }
}

/// Division by a positive number that rounds to the nearest integer, halves
/// away from zero.
pub open spec fn round_div(a: int, b: int) -> int {
    if a < 0 {
        -((-a + b / 2) / b)
    } else {
        (a + b / 2) / b
    }
}

pub open spec fn lower_of(a: int, b: int) -> int {
    if a < b {
        a
    } else {
        b
    }
}

pub open spec fn upper_of(a: int, b: int) -> int {
    if a > b {
        a
    } else {
        b
    }
}

/// The value of `lo..=hi` that is nearest to `x`.
pub open spec fn clamped(x: int, lo: int, hi: int) -> int {
    if x < lo {
        lo
    } else if x > hi {
        hi
    } else {
        x
    }
}

proof fn lemma_div_small(a: nat, b: nat)
    requires
        b > 0,
    ensures
        0 <= a / b <= a,
{
    assert(0 <= a / b <= a) by (nonlinear_arith)
        requires
            b > 0,
            a >= 0,
    ;
}

proof fn lemma_negative_divisor(a: int, b: int)
    requires
        a >= 0,
        b < 0,
    ensures
        a / b == -(a / -b),
{
    let q = a / b;
    let r = a % b;
    assert(a == b * q + r && 0 <= r < -b) by (nonlinear_arith)
        requires
            b < 0,
            q == a / b,
            r == a % b,
    ;
    assert(a == -b * -q + r) by (nonlinear_arith)
        requires
            a == b * q + r,
    ;
    vstd::arithmetic::div_mod::lemma_fundamental_div_mod_converse(a, -b, -q, r);
}

pub fn unsigned(x: i128) -> (r: u128)
    requires
        x > i128::MIN,
    ensures
        r == magnitude(x as int),
{
    if x < 0 {
        (-x) as u128
    } else {
        x as u128
    }
}

pub fn div_trunc(a: i128, b: i128) -> (r: i128)
    requires
        a > i128::MIN,
        b > i128::MIN,
        b != 0,
    ensures
        r == trunc_div(a as int, b as int),
        magnitude(r as int) <= magnitude(a as int),
{
    let ua: u128 = unsigned(a);
    let ub: u128 = unsigned(b);
    proof {
        lemma_div_small(ua as nat, ub as nat);
        if b < 0 {
            lemma_negative_divisor(ua as int, b as int);
        }
    }
    let q: i128 = (ua / ub) as i128;
    if (a < 0) == (b < 0) {
        q
    } else {
        -q
    }
}

pub fn div_round(a: i128, b: i128) -> (r: i128)
    requires
        -0x4000_0000_0000_0000_0000_0000_0000_0000 < a < 0x4000_0000_0000_0000_0000_0000_0000_0000,
        0 < b < 0x4000_0000_0000_0000_0000_0000_0000_0000,
    ensures
        r == round_div(a as int, b as int),
        magnitude(r as int) <= magnitude(a as int) + b,
{
    let half: i128 = ((b as u128) / 2) as i128;
    let ua: u128 = unsigned(a) + half as u128;
    proof {
        lemma_div_small(ua as nat, b as nat);
    }
    let q: i128 = (ua / (b as u128)) as i128;
    if a < 0 {
        -q
    } else {
        q
    }
}

pub fn clamp_i128(x: i128, lo: i128, hi: i128) -> (r: i128)
    requires
        lo <= hi,
    ensures
        r == clamped(x as int, lo as int, hi as int),
{
    if x < lo {
        lo
    } else if x > hi {
        hi
    } else {
        x
    }
}

pub fn clamp_i64(x: i64, lo: i64, hi: i64) -> (r: i64)
    requires
        lo <= hi,
    ensures
        r == clamped(x as int, lo as int, hi as int),
{
    if x < lo {
        lo
    } else if x > hi {
        hi
    } else {
        x
    }
}

// ---------------------------------------------------------------------------
// Laws
// ---------------------------------------------------------------------------

/// Truncation gives the greatest multiple of the divisor that is no further from
/// zero than the dividend, and the quotient never crosses zero.
pub proof fn law_truncation(a: int, b: int)
    requires
        b > 0,
    ensures
        a >= 0 ==> 0 <= b * trunc_div(a, b) <= a < b * trunc_div(a, b) + b,
        a <= 0 ==> b * trunc_div(a, b) - b < a <= b * trunc_div(a, b) <= 0,
        trunc_div(-a, b) == -trunc_div(a, b),
{
    vstd::arithmetic::div_mod::lemma_fundamental_div_mod(a, b);
    vstd::arithmetic::div_mod::lemma_fundamental_div_mod(-a, b);
    let q = a / b;
    let p = -a / b;
    assert(a >= 0 ==> b * q >= 0) by (nonlinear_arith)
        requires
            b > 0,
            q == a / b,
    ;
    assert(a <= 0 ==> b * p >= 0) by (nonlinear_arith)
        requires
            b > 0,
            p == -a / b,
    ;
    assert(b * (-p) == -(b * p)) by (nonlinear_arith);
    assert(0int / b == 0) by (nonlinear_arith)
        requires
            b > 0,
    ;
}

/// Rounding is off by at most half the divisor, and goes away from zero on a half.
pub proof fn law_rounding(a: int, b: int)
    requires
        b > 0,
        b % 2 == 0,
    ensures
        -b <= 2 * (b * round_div(a, b) - a) <= b,
        a >= 0 ==> 2 * (b * round_div(a, b) - a) > -b,
        a <= 0 ==> 2 * (b * round_div(a, b) - a) < b,
{
    vstd::arithmetic::div_mod::lemma_fundamental_div_mod(a + b / 2, b);
    vstd::arithmetic::div_mod::lemma_fundamental_div_mod(-a + b / 2, b);
    let p = (-a + b / 2) / b;
    assert(b * (-p) == -(b * p)) by (nonlinear_arith);
    assert((b / 2) / b == 0) by (nonlinear_arith)
        requires
            b > 0,
    ;
    assert(b * 0 == 0);
}

/// Clamping leaves values between the bounds alone, and otherwise gives the bound
/// that is passed.
pub proof fn law_clamping(x: int, lo: int, hi: int)
    requires
        lo <= hi,
    ensures
        lo <= x <= hi ==> clamped(x, lo, hi) == x,
        x <= lo ==> clamped(x, lo, hi) == lo,
        x >= hi ==> clamped(x, lo, hi) == hi,
{
}

/// The lower and the upper of two numbers bound both of them, and are among them.
pub proof fn law_lower_and_upper(a: int, b: int)
    ensures
        lower_of(a, b) <= a && lower_of(a, b) <= b,
        upper_of(a, b) >= a && upper_of(a, b) >= b,
        lower_of(a, b) == a || lower_of(a, b) == b,
        upper_of(a, b) == a || upper_of(a, b) == b,
        lower_of(a, b) + upper_of(a, b) == a + b,
{
}

/// A magnitude is the distance from zero.
pub proof fn law_magnitude(x: int)
    ensures
        magnitude(x) >= 0,
        magnitude(x) == x || magnitude(x) == -x,
{
}

} // verus!
