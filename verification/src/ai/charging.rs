//! The charge current as a function of battery temperature and heating rate.
//! Temperatures are in tenths of a degree, rates in millionths of a degree per
//! tick.

use vstd::prelude::*;

use crate::arith::div_trunc;
#[allow(unused_imports)]
use crate::arith::{lower_of, magnitude, trunc_div};
use crate::text::{chars_of, spells, trimmed};
#[allow(unused_imports)]
use crate::text::trim;

verus! {

/// The current of a charger without a fast protocol.
pub const SLOW_CHARGE_CURRENT: i32 = 3_000_000;

/// Stands for the temperature of a tick that has measured none.
pub const NO_CHARGE_TEMP: i32 = -999;

/// The heating rate from which on the current is halved.
pub const FAST_HEATING_RATE: i64 = 120_000;

/// What the battery and its charger tell.
#[derive(Debug)]
pub struct ChargeReadings {
    pub status: Option<String>,
    pub usb_type: Option<String>,
    pub batt_temp: i32,
}

pub open spec fn is_charging(status: Option<String>) -> bool {
    match status {
        Some(s) => trim(s@) == "Charging"@ || trim(s@) == "Full"@,
        None => false,
    }
}

pub open spec fn is_fast_charger(usb_type: Option<String>) -> bool {
    match usb_type {
        Some(s) => trim(s@) == "USB_PD"@ || trim(s@) == "USB_HVDCP"@,
        None => false,
    }
}

/// The share of the current that a temperature allows, in units of which 120 are
/// one percent. It falls on straight lines from 100% at 32 degrees through 85% at
/// 35, 65% at 39, 45% at 42 and 25% at 45 to 10% at 48 degrees; from 52 degrees on
/// there is none.
pub open spec fn ladder_share(t: int) -> int {
    if t < 320 {
        12_000
    } else if t < 350 {
        12_000 - 60 * (t - 320)
    } else if t < 390 {
        10_200 - 60 * (t - 350)
    } else if t < 420 {
        7_800 - 80 * (t - 390)
    } else if t < 450 {
        5_400 - 80 * (t - 420)
    } else if t < 480 {
        3_000 - 60 * (t - 450)
    } else if t < 520 {
        1_200
    } else {
        0
    }
}

/// The current that a temperature allows.
pub open spec fn ladder_current(max: int, t: int) -> int {
    max * ladder_share(t) / 12_000
}

/// The smoothed heating rate after a temperature. Where the tick before measured
/// none, the temperature tells nothing of a rate.
pub open spec fn next_rate(rate: int, last: int, t: int) -> int {
    if last < 0 {
        rate
    } else {
        trunc_div(3 * ((t - last) * 100_000) + 7 * rate, 10)
    }
}

/// The current at a temperature and a heating rate: a battery that heats fast
/// gets at most half.
pub open spec fn allowed_current(max: int, t: int, rate: int) -> int {
    if rate >= FAST_HEATING_RATE {
        lower_of(ladder_current(max, t), max / 2)
    } else {
        ladder_current(max, t)
    }
}

/// The greatest heating rate that readings can give.
pub const RATE_LIMIT: i64 = 214_748_364_800_000;

pub(crate) fn status_charges(status: &Option<String>) -> (r: bool)
    ensures
        r == is_charging(*status),
{
    match status {
        Some(s) => {
            let t = trimmed(&chars_of(s.as_str()));
            spells(&t, "Charging") || spells(&t, "Full")
        },
        None => false,
    }
}

pub(crate) fn type_is_fast(usb_type: &Option<String>) -> (r: bool)
    ensures
        r == is_fast_charger(*usb_type),
{
    match usb_type {
        Some(s) => {
            let t = trimmed(&chars_of(s.as_str()));
            spells(&t, "USB_PD") || spells(&t, "USB_HVDCP")
        },
        None => false,
    }
}

fn share_for(t: i32) -> (r: i64)
    ensures
        r == ladder_share(t as int),
        0 <= r <= 12_000,
{
    let t: i64 = t as i64;
    if t < 320 {
        12_000
    } else if t < 350 {
        12_000 - 60 * (t - 320)
    } else if t < 390 {
        10_200 - 60 * (t - 350)
    } else if t < 420 {
        7_800 - 80 * (t - 390)
    } else if t < 450 {
        5_400 - 80 * (t - 420)
    } else if t < 480 {
        3_000 - 60 * (t - 450)
    } else if t < 520 {
        1_200
    } else {
        0
    }
}

/// The current that a temperature allows.
pub fn current_for(max: i32, t: i32) -> (r: i32)
    requires
        0 <= max,
    ensures
        r == ladder_current(max as int, t as int),
        0 <= r <= max,
{
    let share: i64 = share_for(t);
    proof {
        lemma_share_of(max as int, share as int);
    }
    (max as i64 * share / 12_000) as i32
}

proof fn lemma_share_of(max: int, share: int)
    requires
        0 <= max,
        0 <= share <= 12_000,
    ensures
        0 <= max * share <= max * 12_000,
        0 <= max * share / 12_000 <= max,
{
    assert(0 <= max * share <= max * 12_000) by (nonlinear_arith)
        requires
            0 <= max,
            0 <= share <= 12_000,
    ;
}

/// The smoothed heating rate after a temperature.
pub fn heating_rate(rate: i64, last: i32, t: i32) -> (r: i64)
    requires
        0 <= t,
        magnitude(rate as int) <= RATE_LIMIT,
    ensures
        r == next_rate(rate as int, last as int, t as int),
        magnitude(r as int) <= RATE_LIMIT,
{
    if last < 0 {
        return rate;
    }
    let delta: i128 = (t as i128 - last as i128) * 100_000;
    let sum: i128 = 3 * delta + 7 * (rate as i128);
    let r: i128 = div_trunc(sum, 10);
    r as i64
}

/// The current at a temperature and a heating rate.
pub fn charge_current(max: i32, t: i32, rate: i64) -> (r: i32)
    requires
        0 <= max,
    ensures
        r == allowed_current(max as int, t as int, rate as int),
        0 <= r <= max,
{
    let current: i32 = current_for(max, t);
    if rate >= FAST_HEATING_RATE && current > max / 2 {
        max / 2
    } else {
        current
    }
}

// ---------------------------------------------------------------------------
// Laws
// ---------------------------------------------------------------------------

/// The current is never negative and never above the maximum; below 32 degrees
/// it is the maximum, from 52 degrees on it is 0.
pub proof fn law_current_in_range(max: int, t: int)
    requires
        0 <= max,
    ensures
        0 <= ladder_current(max, t) <= max,
        t < 320 ==> ladder_current(max, t) == max,
        t >= 520 ==> ladder_current(max, t) == 0,
{
    lemma_share_of(max, ladder_share(t));
    assert(max * 0 == 0);
}

/// A hotter battery never gets more current.
pub proof fn law_current_falls_with_heat(max: int, a: int, b: int)
    requires
        0 <= max,
        a <= b,
    ensures
        ladder_current(max, b) <= ladder_current(max, a),
{
    let x = ladder_share(a);
    let y = ladder_share(b);
    assert(max * y <= max * x) by (nonlinear_arith)
        requires
            0 <= max,
            y <= x,
    ;
}

/// The heating rate only ever tightens the limit of the ladder.
pub proof fn law_rate_only_tightens(max: int, t: int, rate: int)
    ensures
        allowed_current(max, t, rate) <= ladder_current(max, t),
        rate >= FAST_HEATING_RATE ==> allowed_current(max, t, rate) <= max / 2,
        rate < FAST_HEATING_RATE ==> allowed_current(max, t, rate) == ladder_current(max, t),
{
}

/// The points between which the current falls on straight lines: tenths of a degree, and
/// percent of the greatest current.
pub open spec fn ladder_points() -> Seq<(int, int)> {
    seq![(320, 100), (350, 85), (390, 65), (420, 45), (450, 25), (480, 10)]
}

/// Between two points the current lies on the straight line through them, rounded down;
/// from 48 to 52 degrees it stays at a tenth.
pub proof fn law_current_falls_on_lines(max: int, t: int, k: int)
    requires
        0 <= max,
        0 <= k < 5,
        ladder_points()[k].0 <= t <= ladder_points()[k + 1].0,
    ensures
        ({
            let (low, high) = (ladder_points()[k], ladder_points()[k + 1]);
            let width = 100 * (high.0 - low.0);
            let exact = max * (low.1 * (high.0 - t) + high.1 * (t - low.0));
            let current = ladder_current(max, t);
            width * current <= exact < width * current + width
        }),
{
    let (low, high) = (ladder_points()[k], ladder_points()[k + 1]);
    let width = 100 * (high.0 - low.0);
    let part = low.1 * (high.0 - t) + high.1 * (t - low.0);
    let share = ladder_share(t);
    let n: int = if k == 1 {
        3
    } else {
        4
    };
    assert(12_000 == n * width && n > 0) by {
        assert(k == 0 || k == 1 || k == 2 || k == 3 || k == 4);
    }
    assert(share == n * part) by {
        assert(k == 0 || k == 1 || k == 2 || k == 3 || k == 4);
    }
    let current = ladder_current(max, t);
    vstd::arithmetic::div_mod::lemma_fundamental_div_mod(max * share, 12_000);
    assert(12_000 * current <= max * share < 12_000 * current + 12_000);
    assert(max * share == n * (max * part)) by (nonlinear_arith)
        requires
            share == n * part,
    ;
    assert(12_000 * current == n * (width * current)) by (nonlinear_arith)
        requires
            12_000 == n * width,
    ;
    let x = width * current;
    let y = max * part;
    assert(x <= y < x + width) by (nonlinear_arith)
        requires
            n > 0,
            n * x <= n * y < n * x + n * width,
    ;
}

/// Below 32 degrees the battery gets all of the current, from 48 to 52 degrees a tenth,
/// above that none.
pub proof fn law_current_at_the_ends(max: int, t: int)
    requires
        0 <= max,
    ensures
        t <= 320 ==> ladder_current(max, t) == max,
        480 <= t < 520 ==> 10 * ladder_current(max, t) <= max < 10 * ladder_current(max, t) + 10,
        t >= 520 ==> ladder_current(max, t) == 0,
{
    assert(max * 0 == 0);
}

/// A measured rise of the temperature counts three tenths, and the rate so far seven
/// tenths; the result is cut to a whole number towards 0.
pub proof fn law_rate_is_smoothed(rate: int, last: int, t: int)
    ensures
        last < 0 ==> next_rate(rate, last, t) == rate,
        last >= 0 ==> ({
            let exact = 3 * (t - last) * 100_000 + 7 * rate;
            let next = 10 * next_rate(rate, last, t);
            &&& exact >= 0 ==> 0 <= next <= exact < next + 10
            &&& exact <= 0 ==> next - 10 < exact <= next <= 0
        }),
{
    crate::arith::law_truncation(3 * ((t - last) * 100_000) + 7 * rate, 10);
    assert(3 * (t - last) * 100_000 == 3 * ((t - last) * 100_000));
}

/// A battery at a steady temperature cools off the rate: it never grows.
pub proof fn law_steady_temperature_calms_the_rate(rate: int, t: int)
    requires
        t >= 0,
        rate > 0,
    ensures
        0 <= next_rate(rate, t, t) < rate,
{
    law_rate_is_smoothed(rate, t, t);
}

/// From 0.12 degrees per tick on, a battery gets at most half of the greatest current, and
/// below that what its temperature allows.
pub proof fn law_fast_heating_halves_the_current(max: int, t: int, rate: int)
    requires
        0 <= max,
    ensures
        rate < 120_000 ==> allowed_current(max, t, rate) == ladder_current(max, t),
        rate >= 120_000 && 2 * ladder_current(max, t) <= max ==> allowed_current(max, t, rate)
            == ladder_current(max, t),
        rate >= 120_000 && 2 * ladder_current(max, t) > max ==> 2 * allowed_current(max, t, rate)
            <= max < 2 * allowed_current(max, t, rate) + 2,
{
}

/// A battery charges where its status, apart from the whitespace around it, is "Charging"
/// or "Full"; a charger is fast where its type is "USB_PD" or "USB_HVDCP".
pub proof fn law_charging_by_name(a: Seq<char>, name: Seq<char>, b: Seq<char>, s: String)
    requires
        crate::text::all_ws(a),
        crate::text::all_ws(b),
        crate::text::is_trim(name),
        s@ == a + name + b,
    ensures
        is_charging(Some(s)) <==> name == "Charging"@ || name == "Full"@,
        is_fast_charger(Some(s)) <==> name == "USB_PD"@ || name == "USB_HVDCP"@,
        !is_charging(None),
        !is_fast_charger(None),
{
    crate::text::law_trim_takes_the_ends_off(a, name, b);
}

} // verus!
