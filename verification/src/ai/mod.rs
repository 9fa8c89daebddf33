//! The learning controllers. Every ratio is an integer number of millionths,
//! every reward and learned weight an integer number of billionths.

pub mod channels;
pub mod charging;
pub mod data_collector;
pub mod engine;
pub mod features;
pub mod native;
pub mod qtable;
pub mod rewards;
pub mod safety;
pub mod tile_coding;
pub mod workload;

use vstd::prelude::*;

use crate::arith::div_trunc;
#[allow(unused_imports)]
use crate::arith::{lower_of, trunc_div};

verus! {

/// One, in millionths.
pub const ONE: i64 = 1_000_000;

/// The share of an action in `0..=9` of its range, in ninths.
pub open spec fn action_step(action: u8, ascending: bool) -> int {
    let a = lower_of(action as int, 9);
    if ascending {
        a
    } else {
        9 - a
    }
}

/// The point of `base..=base + span` that an action stands for, reduced to 32
/// bits.
pub open spec fn lerp(action: u8, base: i32, span: i32, ascending: bool) -> i32 {
    (base + trunc_div(span * action_step(action, ascending), 9)) as i32
}

/// Linear interpolation over the actions `0..=9` into `base..=base + span`.
/// Ascending, action 0 gives `base` and 9 gives `base + span`; descending, the
/// other way round. Larger actions count as 9.
pub fn lerp_by_action(action: u8, base: i32, span: i32, ascending: bool) -> (r: i32)
    ensures
        r == lerp(action, base, span, ascending),
{
    let a: i128 = if action < 9 {
        action as i128
    } else {
        9
    };
    let step: i128 = if ascending {
        a
    } else {
        9 - a
    };
    proof {
        assert(-0x5_0000_0000 < span * step < 0x5_0000_0000) by (nonlinear_arith)
            requires
                -0x8000_0000 <= span <= 0x7fff_ffff,
                0 <= step <= 9,
        ;
    }
    let point: i128 = base as i128 + div_trunc(span as i128 * step, 9);
    #[verifier::truncate]
    (point as i32)
}

/// The ends of the action range are the ends of the value range.
pub proof fn law_lerp_ends(base: i32, span: i32)
    requires
        i32::MIN <= base + span <= i32::MAX,
    ensures
        lerp(0, base, span, true) == base,
        lerp(9, base, span, true) == base + span,
        lerp(0, base, span, false) == base + span,
        lerp(9, base, span, false) == base,
{
    assert(action_step(0, true) == 0 && action_step(9, false) == 0);
    assert(action_step(9, true) == 9 && action_step(0, false) == 9);
    assert(span * 0 == 0);
}

/// A value stays within its range, and a larger action never gives a smaller
/// value ascending, nor a larger one descending.
pub proof fn law_lerp_monotone(a: u8, b: u8, base: i32, span: i32)
    requires
        0 <= span,
        base + span <= i32::MAX,
        a <= b,
    ensures
        base <= lerp(a, base, span, true) <= base + span,
        base <= lerp(a, base, span, false) <= base + span,
        lerp(a, base, span, true) <= lerp(b, base, span, true),
        lerp(a, base, span, false) >= lerp(b, base, span, false),
{
    let x = action_step(a, true);
    let y = action_step(b, true);
    assert(0 <= span * x <= span * y <= span * 9) by (nonlinear_arith)
        requires
            0 <= span,
            0 <= x <= y <= 9,
    ;
    assert(0 <= span * (9 - y) <= span * (9 - x) <= span * 9) by (nonlinear_arith)
        requires
            0 <= span,
            0 <= x <= y <= 9,
    ;
}

/// The actions divide the range into nine equal steps, rounded towards its start:
/// ascending, action `a` is `a` ninths of the way. Actions above 9 count as 9.
pub proof fn law_lerp_steps(a: u8, base: i32, span: i32)
    requires
        0 <= span,
        base + span <= i32::MAX,
    ensures
        a <= 9 ==> 9 * (lerp(a, base, span, true) - base) <= span * a < 9 * (lerp(
            a,
            base,
            span,
            true,
        ) - base) + 9,
        a <= 9 ==> lerp(a, base, span, false) == lerp((9 - a) as u8, base, span, true),
        a > 9 ==> lerp(a, base, span, true) == base + span && lerp(a, base, span, false) == base,
{
    law_lerp_monotone(a, a, base, span);
    let x = action_step(a, true);
    assert(0 <= span * x <= span * 9) by (nonlinear_arith)
        requires
            0 <= span,
            0 <= x <= 9,
    ;
    assert(span * 0 == 0);
}

} // verus!
