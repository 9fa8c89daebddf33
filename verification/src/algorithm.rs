//! The thermal control algorithms: weighted virtual sensors, the incremental
//! PID step and level evaluation with hysteresis.

use vstd::prelude::*;

use crate::arith::{clamp_i128, div_round, div_trunc};
#[allow(unused_imports)]
use crate::arith::{clamped, magnitude, round_div, trunc_div};
use crate::types::{AlgoType, Instance, Sensor, SicState, Threshold};
#[allow(unused_imports)]
use crate::types::{
    lemma_sensor_views_update, sensor_views, InstanceView, SensorView, ThresholdView,
};

verus! {

// ---------------------------------------------------------------------------
// Virtual sensors
// ---------------------------------------------------------------------------

/// The weight of the input at position `k`; inputs beyond the weights count 0.
pub open spec fn weight_at(v: SensorView, k: int) -> int {
    if k < v.weights.len() {
        v.weights[k] as int
    } else {
        0
    }
}

/// The weighted sum of the first `n` inputs of `v`.
pub open spec fn weighted_sum(s: Seq<SensorView>, v: SensorView, n: int) -> int
    decreases n,
{
    if n <= 0 {
        0
    } else {
        weighted_sum(s, v, n - 1) + s[v.inputs[n - 1] as int].last_temp_mc * weight_at(v, n - 1)
    }
}

/// Has the virtual sensor a value?
pub open spec fn is_defined(v: SensorView) -> bool {
    v.inputs.len() > 0 && v.weight_sum != 0
}

/// The value of a virtual sensor: the weighted mean of its inputs, rounded
/// towards zero, plus the compensation, reduced to 32 bits.
pub open spec fn virtual_value(s: Seq<SensorView>, v: SensorView) -> i32 {
    let mean = trunc_div(weighted_sum(s, v, v.inputs.len() as int), v.weight_sum as int) as i32;
    (mean + v.compensation) as i32
}

/// The sensors with the reading of one of them replaced.
pub open spec fn with_reading(s: Seq<SensorView>, i: int, value: i32) -> Seq<SensorView> {
    s.update(i, SensorView { last_temp_mc: value, ..s[i] })
}

/// Evaluates the virtual sensor at `vsn_idx`, stores its value and returns it.
/// Without inputs or weights nothing is stored and the result is -1.
pub fn evaluate_virtual_sensor(sensors: &mut Vec<Sensor>, vsn_idx: usize) -> (r: i32)
    requires
        vsn_idx < old(sensors)@.len(),
        forall|k: int|
            0 <= k < old(sensors)@[vsn_idx as int].inputs@.len() ==> (#[trigger] old(
                sensors,
            )@[vsn_idx as int].inputs@[k]) < old(sensors)@.len(),
    ensures
        ({
            let s = sensor_views(old(sensors)@);
            let v = s[vsn_idx as int];
            if is_defined(v) {
                &&& r == virtual_value(s, v)
                &&& sensor_views(final(sensors)@) == with_reading(s, vsn_idx as int, r)
            } else {
                r == -1 && final(sensors)@ == old(sensors)@
            }
        }),
{
    let ghost s = sensor_views(sensors@);
    let ghost v = s[vsn_idx as int];
    let n: usize = sensors[vsn_idx].inputs.len();
    let weight_sum: i32 = sensors[vsn_idx].weight_sum;
    if n == 0 || weight_sum == 0 {
        return -1;
    }
    let mut acc: i128 = 0;
    let mut i: usize = 0;
    while i < n
        invariant
            i <= n,
            s == sensor_views(sensors@),
            vsn_idx < sensors@.len(),
            v == s[vsn_idx as int],
            n == v.inputs.len(),
            forall|k: int| 0 <= k < n ==> (#[trigger] v.inputs[k]) < sensors@.len(),
            acc == weighted_sum(s, v, i as int),
            magnitude(acc as int) <= i * 0x4000_0000_0000_0000,
        decreases n - i,
    {
        assert(v.inputs[i as int] < sensors@.len());
        let input: usize = sensors[vsn_idx].inputs[i];
        let reading: i64 = sensors[input].last_temp_mc as i64;
        let weight: i64 = if i < sensors[vsn_idx].weights.len() {
            sensors[vsn_idx].weights[i] as i64
        } else {
            0
        };
        proof {
            assert(-0x4000_0000_0000_0000 <= reading * weight <= 0x4000_0000_0000_0000)
                by (nonlinear_arith)
                requires
                    -0x8000_0000 <= reading <= 0x7fff_ffff,
                    -0x8000_0000 <= weight <= 0x7fff_ffff,
            ;
        }
        acc = acc + (reading * weight) as i128;
        i += 1;
    }
    let mean: i32 = #[verifier::truncate] (div_trunc(acc, weight_sum as i128) as i32);
    let value: i64 = mean as i64 + sensors[vsn_idx].compensation as i64;
    let result: i32 = #[verifier::truncate] (value as i32);
    let ghost before = sensors@;
    sensors[vsn_idx].last_temp_mc = result;
    proof {
        lemma_sensor_views_update(before, vsn_idx as int, sensors@[vsn_idx as int]);
        assert(sensors@ =~= before.update(vsn_idx as int, sensors@[vsn_idx as int]));
    }
    result
}

// ---------------------------------------------------------------------------
// Levels
// ---------------------------------------------------------------------------

/// Is the trigger point reached? A reverse instance triggers on the way down.
pub open spec fn crossed(temp: i32, trig: i32, reverse: bool) -> bool {
    if reverse {
        temp <= trig
    } else {
        temp >= trig
    }
}

/// One more than the last position whose trigger point is reached, or 0.
pub open spec fn level_at(trig: Seq<i32>, temp: i32, reverse: bool) -> int
    decreases trig.len(),
{
    if trig.len() == 0 {
        0
    } else if crossed(temp, trig.last(), reverse) {
        trig.len() as int
    } else {
        level_at(trig.drop_last(), temp, reverse)
    }
}

pub proof fn lemma_level_at(trig: Seq<i32>, temp: i32, reverse: bool)
    ensures
        0 <= level_at(trig, temp, reverse) <= trig.len(),
        level_at(trig, temp, reverse) > 0 ==> crossed(
            temp,
            trig[level_at(trig, temp, reverse) - 1],
            reverse,
        ),
        forall|i: int|
            level_at(trig, temp, reverse) <= i < trig.len() ==> !crossed(
                temp,
                #[trigger] trig[i],
                reverse,
            ),
    decreases trig.len(),
{
    if trig.len() > 0 && !crossed(temp, trig.last(), reverse) {
        lemma_level_at(trig.drop_last(), temp, reverse);
        let l = level_at(trig.drop_last(), temp, reverse);
        assert forall|i: int| l <= i < trig.len() implies !crossed(
            temp,
            #[trigger] trig[i],
            reverse,
        ) by {
            if i < trig.len() - 1 {
                assert(trig.drop_last()[i] == trig[i]);
            }
        }
        if l > 0 {
            assert(trig.drop_last()[l - 1] == trig[l - 1]);
        }
    }
}

fn find_level(trig: &Vec<i32>, temp: i32, reverse: bool) -> (r: usize)
    ensures
        r == level_at(trig@, temp, reverse),
        r <= trig@.len(),
{
    let mut n: usize = trig.len();
    assert(trig@.take(n as int) =~= trig@);
    while n > 0
        invariant
            n <= trig@.len(),
            level_at(trig@.take(n as int), temp, reverse) == level_at(trig@, temp, reverse),
        decreases n,
    {
        let t: i32 = trig[n - 1];
        proof {
            assert(trig@.take(n as int).last() == t);
            assert(trig@.take(n as int).drop_last() =~= trig@.take(n - 1));
        }
        let hit: bool = if reverse {
            temp <= t
        } else {
            temp >= t
        };
        if hit {
            return n;
        }
        n -= 1;
    }
    0
}

// ---------------------------------------------------------------------------
// The PID step
// ---------------------------------------------------------------------------

/// The value at a segment, or the default beyond the list.
pub open spec fn at_or(v: Seq<i32>, seg: int, default: int) -> int {
    if seg < v.len() {
        v[seg] as int
    } else {
        default
    }
}

/// The segment of the thresholds that governs a temperature: the last one
/// whose trigger point is reached, else the first.
pub open spec fn segment(trig: Seq<i32>, temp: i32) -> int {
    let l = level_at(trig, temp, false);
    if l > 0 {
        l - 1
    } else {
        0
    }
}

/// The control error, reduced to 32 bits.
pub open spec fn control_error(t: ThresholdView, seg: int, temp: i32) -> i32 {
    (at_or(t.target, seg, 0) - temp) as i32
}

/// The PID increment for three coefficients and the last three errors, in
/// thousandths: the second difference, the first difference and the error.
pub open spec fn pid_sum(ks: int, kc: int, ki: int, ek: int, ek_1: int, ek_2: int) -> int {
    ks * (ek - 2 * ek_1 + ek_2) + kc * (ek - ek_1) + ki * ek
}

/// The PID increment of a segment.
pub open spec fn pid_increment(t: ThresholdView, seg: int, ek: int, ek_1: int, ek_2: int) -> int {
    pid_sum(at_or(t.ks, seg, 0), at_or(t.kc, seg, 0), at_or(t.ki, seg, 0), ek, ek_1, ek_2)
}

pub open spec fn upper_bound(t: ThresholdView, seg: int) -> int {
    if seg < t.max_out.len() {
        t.max_out[seg] * 1000
    } else {
        i32::MAX as int
    }
}

pub open spec fn lower_bound(t: ThresholdView, seg: int) -> int {
    if seg < t.min_out.len() {
        t.min_out[seg] * 1000
    } else {
        0
    }
}

/// Are the output bounds of the segment that a temperature falls into in order?
pub open spec fn bounds_ordered(t: ThresholdView, temp: i32) -> bool {
    lower_bound(t, segment(t.trig, temp)) <= upper_bound(t, segment(t.trig, temp))
}

/// The history that the step starts from: the first error counts as constant.
pub open spec fn started(state: SicState, ek: i32) -> SicState {
    if state.initialized {
        state
    } else {
        SicState { ek_1: ek, ek_2: ek, initialized: true, ..state }
    }
}

/// The output of the PID step.
pub open spec fn sic_output(t: ThresholdView, current: i32, temp: i32, state: SicState) -> i32 {
    if t.trig.len() == 0 {
        0
    } else {
        let seg = segment(t.trig, temp);
        let ek = control_error(t, seg, temp);
        let from = if state.initialized {
            current
        } else {
            state.initial_value
        };
        let h = started(state, ek);
        let delta = round_div(pid_increment(t, seg, ek as int, h.ek_1 as int, h.ek_2 as int), 1000);
        clamped(from + delta, lower_bound(t, seg), upper_bound(t, seg)) as i32
    }
}

/// The history after the PID step.
pub open spec fn sic_next(t: ThresholdView, temp: i32, state: SicState) -> SicState {
    if t.trig.len() == 0 {
        state
    } else {
        let ek = control_error(t, segment(t.trig, temp), temp);
        let h = started(state, ek);
        SicState { ek_1: ek, ek_2: h.ek_1, ..h }
    }
}

pub(crate) fn value_or(v: &Vec<i32>, seg: usize, default: i32) -> (r: i32)
    ensures
        r == at_or(v@, seg as int, default as int),
{
    if seg < v.len() {
        v[seg]
    } else {
        default
    }
}

pub(crate) fn find_segment(trig: &Vec<i32>, temp: i32) -> (r: usize)
    ensures
        r == segment(trig@, temp),
        trig@.len() > 0 ==> r < trig@.len(),
{
    let l: usize = find_level(trig, temp, false);
    if l > 0 {
        l - 1
    } else {
        0
    }
}

/// The PID increment from its coefficients and errors.
pub(crate) fn increment(ks: i32, kc: i32, ki: i32, ek: i32, ek_1: i32, ek_2: i32) -> (r: i128)
    ensures
        r == pid_sum(ks as int, kc as int, ki as int, ek as int, ek_1 as int, ek_2 as int),
        -0x10_0000_0000_0000_0000 < r < 0x10_0000_0000_0000_0000,
{
    let second: i128 = ek as i128 - 2 * (ek_1 as i128) + ek_2 as i128;
    let first: i128 = ek as i128 - ek_1 as i128;
    let zeroth: i128 = ek as i128;
    proof {
        assert(-0x3_0000_0000_0000_0000 < ks * second < 0x3_0000_0000_0000_0000)
            by (nonlinear_arith)
            requires
                -0x8000_0000 <= ks <= 0x7fff_ffff,
                -0x2_0000_0000 <= second <= 0x2_0000_0000,
        ;
        assert(-0x3_0000_0000_0000_0000 < kc * first < 0x3_0000_0000_0000_0000)
            by (nonlinear_arith)
            requires
                -0x8000_0000 <= kc <= 0x7fff_ffff,
                -0x2_0000_0000 <= first <= 0x2_0000_0000,
        ;
        assert(-0x3_0000_0000_0000_0000 < ki * zeroth < 0x3_0000_0000_0000_0000)
            by (nonlinear_arith)
            requires
                -0x8000_0000 <= ki <= 0x7fff_ffff,
                -0x2_0000_0000 <= zeroth <= 0x2_0000_0000,
        ;
    }
    ks as i128 * second + kc as i128 * first + ki as i128 * zeroth
}

fn upper_output(t: &Threshold, seg: usize) -> (r: i64)
    ensures
        r == upper_bound(t@, seg as int),
{
    if seg < t.max_out.len() {
        t.max_out[seg] as i64 * 1000
    } else {
        i32::MAX as i64
    }
}

fn lower_output(t: &Threshold, seg: usize) -> (r: i64)
    ensures
        r == lower_bound(t@, seg as int),
{
    if seg < t.min_out.len() {
        t.min_out[seg] as i64 * 1000
    } else {
        0
    }
}

/// Tests whether an instance can be evaluated at a temperature.
pub fn is_evaluable(inst: &Instance, temp_mc: i32) -> (r: bool)
    ensures
        r == evaluable(inst@, temp_mc),
{
    let t = &inst.threshold;
    let seg: usize = find_segment(&t.trig, temp_mc);
    t.trig.len() <= i32::MAX as usize && (inst.algo != AlgoType::Sic || t.trig.len() == 0
        || lower_output(t, seg) <= upper_output(t, seg))
}

/// One step of the incremental PID controller: the new output, within the
/// bounds of the segment that the temperature falls into.
pub fn algo_sic(inst: &Instance, temp_mc: i32, state: &mut SicState) -> (r: i32)
    requires
        inst@.threshold.trig.len() > 0 ==> bounds_ordered(inst@.threshold, temp_mc),
    ensures
        r == sic_output(inst@.threshold, inst.current_value, temp_mc, *old(state)),
        *final(state) == sic_next(inst@.threshold, temp_mc, *old(state)),
{
    let t = &inst.threshold;
    if t.n_levels() == 0 {
        return 0;
    }
    let seg: usize = find_segment(&t.trig, temp_mc);
    let error: i64 = value_or(&t.target, seg, 0) as i64 - temp_mc as i64;
    let ek: i32 = #[verifier::truncate] (error as i32);
    let output_now: i32 = if !state.initialized {
        state.ek_1 = ek;
        state.ek_2 = ek;
        state.initialized = true;
        state.initial_value
    } else {
        inst.current_value
    };
    let step: i128 = increment(
        value_or(&t.ks, seg, 0),
        value_or(&t.kc, seg, 0),
        value_or(&t.ki, seg, 0),
        ek,
        state.ek_1,
        state.ek_2,
    );
    let delta: i128 = div_round(step, 1000);
    state.ek_2 = state.ek_1;
    state.ek_1 = ek;
    let lo: i128 = lower_output(t, seg) as i128;
    let hi: i128 = upper_output(t, seg) as i128;
    let output: i128 = clamp_i128(output_now as i128 + delta, lo, hi);
    #[verifier::truncate]
    (output as i32)
}

// ---------------------------------------------------------------------------
// Instances
// ---------------------------------------------------------------------------

/// The level that the temperature alone calls for. The PID algorithm always
/// counts upwards.
pub open spec fn raw_level(inst: InstanceView, temp: i32) -> int {
    level_at(inst.threshold.trig, temp, inst.reverse && inst.algo != AlgoType::Sic)
}

/// May the current level be left for a lower one?
pub open spec fn cleared(inst: InstanceView, temp: i32) -> bool {
    let k = inst.current_level - 1;
    k < inst.threshold.clr.len() ==> (if inst.reverse {
        temp >= inst.threshold.clr[k]
    } else {
        temp <= inst.threshold.clr[k]
    })
}

/// The level after an evaluation: a level is only left for a lower one when its
/// clear point is reached.
pub open spec fn next_level(inst: InstanceView, temp: i32) -> int {
    if inst.threshold.trig.len() == 0 {
        0
    } else if raw_level(inst, temp) < inst.current_level && !cleared(inst, temp) {
        inst.current_level as int
    } else {
        raw_level(inst, temp)
    }
}

/// The instance after an evaluation.
pub open spec fn evaluated(inst: InstanceView, temp: i32, state: SicState) -> InstanceView {
    if inst.threshold.trig.len() == 0 {
        inst
    } else {
        InstanceView {
            current_level: next_level(inst, temp) as i32,
            current_value: if inst.algo == AlgoType::Sic {
                sic_output(inst.threshold, inst.current_value, temp, state)
            } else {
                inst.current_value
            },
            ..inst
        }
    }
}

/// Can the instance be evaluated at this temperature? The PID step needs the
/// bounds of its segment in order, and the levels must be countable.
pub open spec fn evaluable(inst: InstanceView, temp: i32) -> bool {
    let t = inst.threshold;
    &&& t.trig.len() <= i32::MAX
    &&& inst.algo == AlgoType::Sic && t.trig.len() > 0 ==> bounds_ordered(t, temp)
}

/// Evaluates an instance at a temperature and returns its level.
pub fn evaluate_instance(inst: &mut Instance, temp_mc: i32, sic_state: &mut SicState) -> (r: i32)
    requires
        evaluable(old(inst)@, temp_mc),
    ensures
        r == next_level(old(inst)@, temp_mc),
        final(inst)@ == evaluated(old(inst)@, temp_mc, *old(sic_state)),
        *final(sic_state) == (if old(inst)@.algo == AlgoType::Sic {
            sic_next(old(inst)@.threshold, temp_mc, *old(sic_state))
        } else {
            *old(sic_state)
        }),
{
    let ghost before = inst@;
    if inst.threshold.n_levels() == 0 {
        return 0;
    }
    let sic: bool = inst.algo == AlgoType::Sic;
    let raw: i32 = find_level(&inst.threshold.trig, temp_mc, inst.reverse && !sic) as i32;
    assert(raw == raw_level(before, temp_mc));
    if sic {
        let value: i32 = algo_sic(inst, temp_mc, sic_state);
        inst.current_value = value;
    }
    let new_level: i32 = if raw < inst.current_level {
        let k: usize = (inst.current_level - 1) as usize;
        let clear: bool = if k < inst.threshold.clr.len() {
            if inst.reverse {
                temp_mc >= inst.threshold.clr[k]
            } else {
                temp_mc <= inst.threshold.clr[k]
            }
        } else {
            true
        };
        if clear {
            raw
        } else {
            inst.current_level
        }
    } else {
        raw
    };
    inst.current_level = new_level;
    new_level
}

// ---------------------------------------------------------------------------
// Laws
// ---------------------------------------------------------------------------

/// The level stays within `0..=n_levels` once it is there.
pub proof fn law_level_in_range(inst: InstanceView, temp: i32)
    requires
        0 <= inst.current_level <= inst.threshold.trig.len(),
    ensures
        0 <= next_level(inst, temp) <= inst.threshold.trig.len(),
{
    lemma_level_at(inst.threshold.trig, temp, inst.reverse && inst.algo != AlgoType::Sic);
}

/// Hysteresis: an instance that stays at the same temperature stays at the
/// level it has reached.
pub proof fn law_level_is_stable(inst: InstanceView, temp: i32, state: SicState)
    requires
        inst.threshold.trig.len() <= i32::MAX,
    ensures
        next_level(evaluated(inst, temp, state), temp) == next_level(inst, temp),
{
    lemma_level_at(inst.threshold.trig, temp, inst.reverse && inst.algo != AlgoType::Sic);
    let after = evaluated(inst, temp, state);
    if inst.threshold.trig.len() > 0 {
        assert(after.threshold == inst.threshold);
        assert(raw_level(after, temp) == raw_level(inst, temp));
    }
}

/// A level is only left for a lower one when its clear point is reached.
pub proof fn law_descent_needs_clear(inst: InstanceView, temp: i32)
    requires
        inst.threshold.trig.len() > 0,
        next_level(inst, temp) < inst.current_level,
    ensures
        cleared(inst, temp),
        0 < inst.current_level <= inst.threshold.clr.len() ==> (if inst.reverse {
            inst.threshold.clr[inst.current_level - 1] <= temp
        } else {
            temp <= inst.threshold.clr[inst.current_level - 1]
        }),
{
}

/// The output of a PID step lies within the bounds of its segment, wherever
/// those bounds are 32-bit values.
pub proof fn law_sic_output_in_bounds(t: ThresholdView, current: i32, temp: i32, state: SicState)
    requires
        t.trig.len() > 0,
        i32::MIN <= lower_bound(t, segment(t.trig, temp)),
        lower_bound(t, segment(t.trig, temp)) <= upper_bound(t, segment(t.trig, temp)),
        upper_bound(t, segment(t.trig, temp)) <= i32::MAX,
    ensures
        lower_bound(t, segment(t.trig, temp)) <= sic_output(t, current, temp, state),
        sic_output(t, current, temp, state) <= upper_bound(t, segment(t.trig, temp)),
{
}

/// A PID controller at its target with a settled history leaves its output
/// alone, apart from the bounds.
pub proof fn law_sic_rests_at_target(t: ThresholdView, current: i32, temp: i32, state: SicState)
    requires
        t.trig.len() > 0,
        state.initialized,
        state.ek_1 == 0,
        state.ek_2 == 0,
        at_or(t.target, segment(t.trig, temp), 0) == temp,
        lower_bound(t, segment(t.trig, temp)) <= current <= upper_bound(
            t,
            segment(t.trig, temp),
        ),
    ensures
        sic_output(t, current, temp, state) == current,
{
    let seg = segment(t.trig, temp);
    assert(control_error(t, seg, temp) == 0);
    let (ks, kc, ki) = (at_or(t.ks, seg, 0), at_or(t.kc, seg, 0), at_or(t.ki, seg, 0));
    assert(ks * 0 == 0 && kc * 0 == 0 && ki * 0 == 0);
    assert(pid_sum(ks, kc, ki, 0, 0, 0) == 0);
}

// ---------------------------------------------------------------------------
// Laws of virtual sensors
// ---------------------------------------------------------------------------

/// Is this the sum of the products of readings and weights, position by position?
pub open spec fn dot(readings: Seq<i32>, weights: Seq<i32>) -> int
    decreases readings.len(),
{
    if readings.len() == 0 || weights.len() == 0 {
        0
    } else {
        readings.first() * weights.first() + dot(readings.drop_first(), weights.drop_first())
    }
}

/// The sum of a list.
pub open spec fn total(v: Seq<i32>) -> int
    decreases v.len(),
{
    if v.len() == 0 {
        0
    } else {
        v.first() + total(v.drop_first())
    }
}

/// The readings of the inputs of a virtual sensor, in order.
pub open spec fn input_readings(s: Seq<SensorView>, v: SensorView) -> Seq<i32> {
    Seq::new(v.inputs.len(), |k: int| s[v.inputs[k] as int].last_temp_mc)
}

proof fn lemma_dot_last(r: Seq<i32>, w: Seq<i32>)
    requires
        r.len() > 0,
    ensures
        dot(r, w) == dot(r.drop_last(), w) + if r.len() <= w.len() {
            r.last() * w[r.len() - 1]
        } else {
            0
        },
    decreases r.len(),
{
    if r.len() == 1 {
        reveal_with_fuel(dot, 2);
    } else if w.len() > 0 {
        lemma_dot_last(r.drop_first(), w.drop_first());
        assert(r.drop_first().drop_last() =~= r.drop_last().drop_first());
    }
}

proof fn lemma_weighted_sum(s: Seq<SensorView>, v: SensorView, n: int)
    requires
        0 <= n <= v.inputs.len(),
    ensures
        weighted_sum(s, v, n) == dot(input_readings(s, v).take(n), v.weights),
    decreases n,
{
    let r = input_readings(s, v);
    if n > 0 {
        lemma_weighted_sum(s, v, n - 1);
        assert(r.take(n).drop_last() =~= r.take(n - 1));
        lemma_dot_last(r.take(n), v.weights);
    }
}

/// A virtual sensor is its readings weighed position by position: with a positive
/// sum of weights, and readings whose weighed sum is not negative, the value without
/// the compensation is the greatest number that, taken as often as the sum of
/// weights says, does not exceed the weighed sum.
pub proof fn law_virtual_value_is_the_weighted_mean(s: Seq<SensorView>, v: SensorView)
    requires
        v.weight_sum > 0,
        0 <= dot(input_readings(s, v), v.weights),
        dot(input_readings(s, v), v.weights) / (v.weight_sum as int) <= i32::MAX,
        i32::MIN <= dot(input_readings(s, v), v.weights) / (v.weight_sum as int) + v.compensation
            <= i32::MAX,
    ensures
        ({
            let mean = virtual_value(s, v) - v.compensation;
            let sum = dot(input_readings(s, v), v.weights);
            mean * v.weight_sum <= sum < (mean + 1) * v.weight_sum
        }),
{
    let n = v.inputs.len() as int;
    let r = input_readings(s, v);
    assert(r.take(n) =~= r);
    lemma_weighted_sum(s, v, n);
    let sum = dot(r, v.weights);
    let w = v.weight_sum as int;
    let q = sum / w;
    assert(0 <= q && q * w <= sum < (q + 1) * w) by (nonlinear_arith)
        requires
            q == sum / w,
            w > 0,
            sum >= 0,
    ;
}

/// Input `k` counts with weight `k`, whatever sensor it is: sensors may be numbered
/// otherwise, and the table hold others, without a change of the value.
pub proof fn law_inputs_count_by_position(
    s: Seq<SensorView>,
    v: SensorView,
    t: Seq<SensorView>,
    w: SensorView,
)
    requires
        v.inputs.len() == w.inputs.len(),
        forall|k: int|
            0 <= k < v.inputs.len() ==> s[#[trigger] v.inputs[k] as int].last_temp_mc
                == t[w.inputs[k] as int].last_temp_mc,
        v.weights == w.weights,
        v.weight_sum == w.weight_sum,
        v.compensation == w.compensation,
    ensures
        virtual_value(s, v) == virtual_value(t, w),
{
    let n = v.inputs.len() as int;
    assert(input_readings(s, v) =~= input_readings(t, w));
    lemma_weighted_sum(s, v, n);
    lemma_weighted_sum(t, w, n);
}

proof fn lemma_dot_constant(r: Seq<i32>, w: Seq<i32>, x: i32)
    requires
        r.len() == w.len(),
        forall|k: int| 0 <= k < r.len() ==> #[trigger] r[k] == x,
    ensures
        dot(r, w) == x * total(w),
    decreases r.len(),
{
    if r.len() > 0 {
        lemma_dot_constant(r.drop_first(), w.drop_first(), x);
        assert(r[0] == x);
        let a = w.first() as int;
        let b = total(w.drop_first());
        assert(x * (a + b) == x * a + x * b) by (nonlinear_arith);
    } else {
        assert(x * 0 == 0);
    }
}

/// Where all inputs read the same, and the weights add up to their sum, that reading
/// and the compensation are the value.
pub proof fn law_equal_readings_are_the_mean(s: Seq<SensorView>, v: SensorView, x: i32)
    requires
        v.inputs.len() == v.weights.len(),
        forall|k: int|
            0 <= k < v.inputs.len() ==> s[#[trigger] v.inputs[k] as int].last_temp_mc == x,
        v.weight_sum != 0,
        total(v.weights) == v.weight_sum,
        i32::MIN <= x + v.compensation <= i32::MAX,
    ensures
        virtual_value(s, v) == x + v.compensation,
{
    let n = v.inputs.len() as int;
    let r = input_readings(s, v);
    assert(r.take(n) =~= r);
    lemma_weighted_sum(s, v, n);
    lemma_dot_constant(r, v.weights, x);
    lemma_trunc_exact(x as int, v.weight_sum as int);
}

proof fn lemma_trunc_exact(x: int, w: int)
    requires
        w != 0,
    ensures
        trunc_div(x * w, w) == x,
{
    let p = x * w;
    assert(p / w == x && (-p) / w == -x) by (nonlinear_arith)
        requires
            p == x * w,
            w != 0,
    ;
}

/// One input that carries the whole weight is the value, wherever it stands among
/// inputs that carry none.
pub proof fn law_whole_weight_is_the_value(s: Seq<SensorView>, v: SensorView, i: int)
    requires
        0 <= i < v.inputs.len(),
        v.inputs.len() == v.weights.len(),
        v.weight_sum != 0,
        forall|k: int|
            0 <= k < v.weights.len() ==> #[trigger] v.weights[k] == (if k == i {
                v.weight_sum
            } else {
                0
            }),
        i32::MIN <= s[v.inputs[i] as int].last_temp_mc + v.compensation <= i32::MAX,
    ensures
        virtual_value(s, v) == s[v.inputs[i] as int].last_temp_mc + v.compensation,
{
    let n = v.inputs.len() as int;
    let x = s[v.inputs[i] as int].last_temp_mc;
    lemma_single_weight(s, v, i, n);
    lemma_trunc_exact(x as int, v.weight_sum as int);
}

proof fn lemma_single_weight(s: Seq<SensorView>, v: SensorView, i: int, n: int)
    requires
        0 <= i < v.inputs.len(),
        0 <= n <= v.inputs.len(),
        v.inputs.len() == v.weights.len(),
        forall|k: int|
            0 <= k < v.weights.len() ==> #[trigger] v.weights[k] == (if k == i {
                v.weight_sum
            } else {
                0
            }),
    ensures
        weighted_sum(s, v, n) == (if i < n {
            s[v.inputs[i] as int].last_temp_mc * v.weight_sum
        } else {
            0
        }),
    decreases n,
{
    if n > 0 {
        lemma_single_weight(s, v, i, n - 1);
        let x = s[v.inputs[n - 1] as int].last_temp_mc;
        assert(v.weights[n - 1] == (if n - 1 == i {
            v.weight_sum
        } else {
            0
        }));
        assert(x * 0 == 0);
    }
}

/// Storing the value of a virtual sensor changes its reading and nothing else.
pub proof fn law_storing_changes_one_reading(s: Seq<SensorView>, i: int, value: i32, j: int)
    requires
        0 <= i < s.len(),
        0 <= j < s.len(),
    ensures
        with_reading(s, i, value).len() == s.len(),
        with_reading(s, i, value)[i].last_temp_mc == value,
        j != i ==> with_reading(s, i, value)[j] == s[j],
        (SensorView {
            last_temp_mc: s[j].last_temp_mc,
            ..with_reading(s, i, value)[j]
        }) == s[j],
{
}

/// A virtual sensor has a value where it has inputs and a sum of weights.
pub proof fn law_defined_with_inputs_and_weights(v: SensorView)
    ensures
        is_defined(v) <==> v.inputs.len() != 0 && v.weight_sum != 0,
{
}

// ---------------------------------------------------------------------------
// Laws of levels
// ---------------------------------------------------------------------------

/// Is `raw` the level of a temperature by the trigger points alone: the last one
/// that is reached, counted from one, or 0?
pub open spec fn is_raw_level(inst: InstanceView, temp: i32, raw: int) -> bool {
    let trig = inst.threshold.trig;
    let falling = inst.reverse && inst.algo != AlgoType::Sic;
    &&& 0 <= raw <= trig.len()
    &&& raw > 0 ==> (if falling {
        temp <= trig[raw - 1]
    } else {
        temp >= trig[raw - 1]
    })
    &&& forall|i: int|
        raw <= i < trig.len() ==> (if falling {
            temp > #[trigger] trig[i]
        } else {
            temp < trig[i]
        })
}

proof fn lemma_raw_level_unique(inst: InstanceView, temp: i32, raw: int)
    requires
        is_raw_level(inst, temp, raw),
    ensures
        raw_level(inst, temp) == raw,
{
    let trig = inst.threshold.trig;
    lemma_level_at(trig, temp, inst.reverse && inst.algo != AlgoType::Sic);
    let l = raw_level(inst, temp);
    if l > raw {
        assert(crossed(temp, trig[l - 1], inst.reverse && inst.algo != AlgoType::Sic));
    }
    if l < raw {
        assert(!crossed(temp, trig[raw - 1], inst.reverse && inst.algo != AlgoType::Sic));
    }
}

/// Going up, or staying, follows the trigger points alone.
pub proof fn law_ascent_follows_the_triggers(inst: InstanceView, temp: i32, raw: int)
    requires
        inst.threshold.trig.len() > 0,
        is_raw_level(inst, temp, raw),
        raw >= inst.current_level,
    ensures
        next_level(inst, temp) == raw,
{
    lemma_raw_level_unique(inst, temp, raw);
}

/// Going down asks the clear point of the level that is left: where the temperature
/// has come down to it, or up to it in a reverse instance, the trigger points decide;
/// else the level stays. A level without a clear point is left at once.
pub proof fn law_descent_asks_the_own_clear_point(inst: InstanceView, temp: i32, raw: int)
    requires
        inst.threshold.trig.len() > 0,
        is_raw_level(inst, temp, raw),
        raw < inst.current_level,
    ensures
        ({
            let clr = inst.threshold.clr;
            let own = inst.current_level - 1;
            if own >= clr.len() {
                next_level(inst, temp) == raw
            } else if inst.reverse {
                next_level(inst, temp) == (if clr[own] <= temp {
                    raw
                } else {
                    inst.current_level as int
                })
            } else {
                next_level(inst, temp) == (if temp <= clr[own] {
                    raw
                } else {
                    inst.current_level as int
                })
            }
        }),
{
    lemma_raw_level_unique(inst, temp, raw);
}

/// Every temperature has a level by the trigger points.
pub proof fn law_some_level_is_raw(inst: InstanceView, temp: i32)
    ensures
        is_raw_level(inst, temp, raw_level(inst, temp)),
{
    lemma_level_at(inst.threshold.trig, temp, inst.reverse && inst.algo != AlgoType::Sic);
}

/// A hotter instance that starts from level 0 is at least at the level of a cooler
/// one; for a reverse instance the cooler one is.
pub proof fn law_levels_rise_with_temperature(inst: InstanceView, low: i32, high: i32)
    requires
        low <= high,
        inst.current_level == 0,
    ensures
        inst.reverse && inst.algo != AlgoType::Sic ==> next_level(inst, high) <= next_level(
            inst,
            low,
        ),
        !(inst.reverse && inst.algo != AlgoType::Sic) ==> next_level(inst, low) <= next_level(
            inst,
            high,
        ),
{
    law_some_level_is_raw(inst, low);
    law_some_level_is_raw(inst, high);
    let a = raw_level(inst, low);
    let b = raw_level(inst, high);
    if inst.reverse && inst.algo != AlgoType::Sic {
        if b > a {
            assert(low > inst.threshold.trig[b - 1]);
        }
    } else if a > b {
        assert(high < inst.threshold.trig[a - 1]);
    }
}

/// An evaluation sets the level and, with the PID algorithm, the value. It changes
/// nothing else, and nothing at all of an instance without trigger points.
pub proof fn law_evaluation_sets_level_and_value(inst: InstanceView, temp: i32, state: SicState)
    requires
        inst.threshold.trig.len() <= i32::MAX,
    ensures
        ({
            let e = evaluated(inst, temp, state);
            &&& e.name == inst.name
            &&& e.sensor_idx == inst.sensor_idx
            &&& e.algo == inst.algo
            &&& e.sample_ms == inst.sample_ms
            &&& e.reverse == inst.reverse
            &&& e.threshold == inst.threshold
            &&& e.actions == inst.actions
            &&& inst.algo != AlgoType::Sic ==> e.current_value == inst.current_value
            &&& inst.threshold.trig.len() == 0 ==> e == inst && next_level(inst, temp) == 0
            &&& inst.threshold.trig.len() > 0 ==> e.current_level == next_level(inst, temp)
            &&& inst.threshold.trig.len() > 0 && inst.algo == AlgoType::Sic ==> e.current_value
                == sic_output(inst.threshold, inst.current_value, temp, state)
        }),
{
    lemma_level_at(inst.threshold.trig, temp, inst.reverse && inst.algo != AlgoType::Sic);
}

// ---------------------------------------------------------------------------
// Laws of the PID step
// ---------------------------------------------------------------------------

/// Is `g` the segment of a temperature: the last whose trigger point is reached,
/// else the first?
pub open spec fn governs(trig: Seq<i32>, temp: i32, g: int) -> bool {
    &&& 0 <= g < trig.len()
    &&& g > 0 ==> temp >= trig[g]
    &&& forall|i: int| g < i < trig.len() ==> temp < #[trigger] trig[i]
}

pub(crate) proof fn lemma_segment_unique(trig: Seq<i32>, temp: i32, g: int)
    requires
        governs(trig, temp, g),
    ensures
        segment(trig, temp) == g,
{
    lemma_level_at(trig, temp, false);
    let l = level_at(trig, temp, false);
    if l - 1 > g {
        assert(crossed(temp, trig[l - 1], false));
    }
    if l - 1 < g && g > 0 {
        assert(!crossed(temp, trig[g], false));
    }
}

/// Every temperature has its segment.
pub proof fn law_some_segment_governs(trig: Seq<i32>, temp: i32)
    requires
        trig.len() > 0,
    ensures
        governs(trig, temp, segment(trig, temp)),
{
    lemma_level_at(trig, temp, false);
}

/// What a step of the PID controller reads of its parameters: those of the segment
/// `g`, absent ones counting 0, and the bounds in thousands.
pub open spec fn step_parameters(
    t: ThresholdView,
    temp: i32,
    g: int,
    target: i32,
    ks: i32,
    kc: i32,
    ki: i32,
    lo: i32,
    hi: i32,
) -> bool {
    &&& governs(t.trig, temp, g)
    &&& g < t.target.len() && t.target[g] == target
    &&& if g < t.ks.len() {
        t.ks[g] == ks
    } else {
        ks == 0
    }
    &&& if g < t.kc.len() {
        t.kc[g] == kc
    } else {
        kc == 0
    }
    &&& if g < t.ki.len() {
        t.ki[g] == ki
    } else {
        ki == 0
    }
    &&& g < t.min_out.len() && 1000 * t.min_out[g] == lo
    &&& g < t.max_out.len() && 1000 * t.max_out[g] == hi
    &&& lo <= hi
    &&& i32::MIN <= target - temp <= i32::MAX
}

proof fn lemma_step(
    t: ThresholdView,
    current: i32,
    temp: i32,
    state: SicState,
    g: int,
    target: i32,
    ks: i32,
    kc: i32,
    ki: i32,
    lo: i32,
    hi: i32,
    d: int,
)
    requires
        step_parameters(t, temp, g, target, ks, kc, ki, lo, hi),
        state.initialized,
        lo <= current + d <= hi,
        pid_sum(
            ks as int,
            kc as int,
            ki as int,
            target - temp,
            state.ek_1 as int,
            state.ek_2 as int,
        ) == 1000 * d,
    ensures
        sic_output(t, current, temp, state) == current + d,
{
    lemma_segment_unique(t.trig, temp, g);
    assert(round_div(1000 * d, 1000) == d);
}

/// With the second-difference coefficient alone, errors that change by the same
/// amount each step leave the output alone.
pub proof fn law_ks_ignores_a_steady_change(
    t: ThresholdView,
    current: i32,
    temp: i32,
    state: SicState,
    g: int,
    target: i32,
    ks: i32,
    lo: i32,
    hi: i32,
)
    requires
        step_parameters(t, temp, g, target, ks, 0, 0, lo, hi),
        state.initialized,
        lo <= current <= hi,
        (target - temp) - state.ek_1 == state.ek_1 - state.ek_2,
    ensures
        sic_output(t, current, temp, state) == current,
{
    let e = target - temp;
    let a = state.ek_1 as int;
    let b = state.ek_2 as int;
    assert(e - 2 * a + b == 0);
    assert(ks * (e - 2 * a + b) == 0) by (nonlinear_arith)
        requires
            e - 2 * a + b == 0,
    ;
    assert(0 * (e - a) == 0 && 0 * e == 0);
    lemma_step(t, current, temp, state, g, target, ks, 0, 0, lo, hi, 0);
}

/// With the second-difference coefficient alone, the output moves by the coefficient
/// times the change of the change of the error, in thousandths.
pub proof fn law_ks_acts_on_the_second_difference(
    t: ThresholdView,
    current: i32,
    temp: i32,
    state: SicState,
    g: int,
    target: i32,
    ks: i32,
    lo: i32,
    hi: i32,
    d: int,
)
    requires
        step_parameters(t, temp, g, target, ks, 0, 0, lo, hi),
        state.initialized,
        lo <= current + d <= hi,
        ks * (((target - temp) - state.ek_1) - (state.ek_1 - state.ek_2)) == 1000 * d,
    ensures
        sic_output(t, current, temp, state) == current + d,
{
    let e = target - temp;
    let a = state.ek_1 as int;
    let b = state.ek_2 as int;
    assert((e - a) - (a - b) == e - 2 * a + b);
    assert(0 * (e - a) == 0 && 0 * e == 0);
    lemma_step(t, current, temp, state, g, target, ks, 0, 0, lo, hi, d);
}

/// With the second-difference coefficient alone, an error that stays moves the output
/// by the coefficient times what it changed by before, the other way round.
pub proof fn law_ks_brakes_after_a_change(
    t: ThresholdView,
    current: i32,
    temp: i32,
    state: SicState,
    g: int,
    target: i32,
    ks: i32,
    lo: i32,
    hi: i32,
    d: int,
)
    requires
        step_parameters(t, temp, g, target, ks, 0, 0, lo, hi),
        state.initialized,
        lo <= current + d <= hi,
        target - temp == state.ek_1,
        ks * (state.ek_2 - state.ek_1) == 1000 * d,
    ensures
        sic_output(t, current, temp, state) == current + d,
{
    law_ks_acts_on_the_second_difference(t, current, temp, state, g, target, ks, lo, hi, d);
}

/// With the first-difference coefficient alone, the output moves by the coefficient
/// times the change of the error, in thousandths, whatever happened before.
pub proof fn law_kc_acts_on_the_change(
    t: ThresholdView,
    current: i32,
    temp: i32,
    state: SicState,
    g: int,
    target: i32,
    kc: i32,
    lo: i32,
    hi: i32,
    d: int,
)
    requires
        step_parameters(t, temp, g, target, 0, kc, 0, lo, hi),
        state.initialized,
        lo <= current + d <= hi,
        kc * ((target - temp) - state.ek_1) == 1000 * d,
    ensures
        sic_output(t, current, temp, state) == current + d,
{
    let e = target - temp;
    let a = state.ek_1 as int;
    let b = state.ek_2 as int;
    assert(0 * (e - 2 * a + b) == 0 && 0 * e == 0);
    lemma_step(t, current, temp, state, g, target, 0, kc, 0, lo, hi, d);
}

/// With the error coefficient alone, the output moves by the coefficient times the
/// distance of the temperature from the target, in thousandths, whatever happened
/// before: up where it is too cool, down where it is too hot.
pub proof fn law_ki_acts_on_the_error(
    t: ThresholdView,
    current: i32,
    temp: i32,
    state: SicState,
    g: int,
    target: i32,
    ki: i32,
    lo: i32,
    hi: i32,
    d: int,
)
    requires
        step_parameters(t, temp, g, target, 0, 0, ki, lo, hi),
        state.initialized,
        lo <= current + d <= hi,
        ki * (target - temp) == 1000 * d,
    ensures
        sic_output(t, current, temp, state) == current + d,
{
    let e = target - temp;
    let a = state.ek_1 as int;
    let b = state.ek_2 as int;
    assert(0 * (e - 2 * a + b) == 0 && 0 * (e - a) == 0);
    lemma_step(t, current, temp, state, g, target, 0, 0, ki, lo, hi, d);
}

/// The three coefficients act side by side: what each would move the output by alone,
/// they move it by together.
pub proof fn law_coefficients_add_up(
    t: ThresholdView,
    current: i32,
    temp: i32,
    state: SicState,
    g: int,
    target: i32,
    ks: i32,
    kc: i32,
    ki: i32,
    lo: i32,
    hi: i32,
    d: (int, int, int),
)
    requires
        step_parameters(t, temp, g, target, ks, kc, ki, lo, hi),
        state.initialized,
        ks * (((target - temp) - state.ek_1) - (state.ek_1 - state.ek_2)) == 1000 * d.0,
        kc * ((target - temp) - state.ek_1) == 1000 * d.1,
        ki * (target - temp) == 1000 * d.2,
        lo <= current + d.0 + d.1 + d.2 <= hi,
    ensures
        sic_output(t, current, temp, state) == current + d.0 + d.1 + d.2,
{
    let e = target - temp;
    let a = state.ek_1 as int;
    let b = state.ek_2 as int;
    assert((e - a) - (a - b) == e - 2 * a + b);
    lemma_step(t, current, temp, state, g, target, ks, kc, ki, lo, hi, d.0 + d.1 + d.2);
}

/// The movement is rounded to the nearest whole number: with the error coefficient
/// alone it is off by at most one half, and a half goes away from zero.
pub proof fn law_movement_is_rounded(
    t: ThresholdView,
    current: i32,
    temp: i32,
    state: SicState,
    g: int,
    target: i32,
    ki: i32,
    lo: i32,
    hi: i32,
)
    requires
        step_parameters(t, temp, g, target, 0, 0, ki, lo, hi),
        state.initialized,
        lo < sic_output(t, current, temp, state) < hi,
    ensures
        ({
            let moved = sic_output(t, current, temp, state) - current;
            let exact = ki * (target - temp);
            &&& -500 <= 1000 * moved - exact <= 500
            &&& exact >= 0 ==> 1000 * moved - exact > -500
            &&& exact <= 0 ==> 1000 * moved - exact < 500
        }),
{
    let e = target - temp;
    let a = state.ek_1 as int;
    let b = state.ek_2 as int;
    lemma_segment_unique(t.trig, temp, g);
    assert(0 * (e - 2 * a + b) == 0 && 0 * (e - a) == 0);
    assert(pid_sum(0, 0, ki as int, e, a, b) == ki * e);
}

/// The output never leaves the bounds of the segment, and an output that would is the
/// bound itself: with the error coefficient alone, a movement past a bound ends there.
pub proof fn law_movement_ends_at_the_bounds(
    t: ThresholdView,
    current: i32,
    temp: i32,
    state: SicState,
    g: int,
    target: i32,
    ki: i32,
    lo: i32,
    hi: i32,
    d: int,
)
    requires
        step_parameters(t, temp, g, target, 0, 0, ki, lo, hi),
        state.initialized,
        ki * (target - temp) == 1000 * d,
    ensures
        current + d > hi ==> sic_output(t, current, temp, state) == hi,
        current + d < lo ==> sic_output(t, current, temp, state) == lo,
{
    let e = target - temp;
    let a = state.ek_1 as int;
    let b = state.ek_2 as int;
    lemma_segment_unique(t.trig, temp, g);
    assert(0 * (e - 2 * a + b) == 0 && 0 * (e - a) == 0);
    assert(pid_sum(0, 0, ki as int, e, a, b) == 1000 * d);
    assert(round_div(1000 * d, 1000) == d);
}

/// Without bounds of its own a segment leaves outputs from 0 to the greatest 32-bit
/// value.
pub proof fn law_default_bounds(t: ThresholdView, g: int)
    requires
        g >= t.min_out.len(),
        g >= t.max_out.len(),
    ensures
        lower_bound(t, g) == 0,
        upper_bound(t, g) == 2_147_483_647,
{
}

/// The first step starts from the initial value, and takes the error to have been the
/// same all along: only the error coefficient acts.
pub proof fn law_first_step_starts_at_the_initial_value(
    t: ThresholdView,
    current: i32,
    temp: i32,
    state: SicState,
    g: int,
    target: i32,
    ks: i32,
    kc: i32,
    ki: i32,
    lo: i32,
    hi: i32,
    d: int,
)
    requires
        step_parameters(t, temp, g, target, ks, kc, ki, lo, hi),
        !state.initialized,
        ki * (target - temp) == 1000 * d,
        lo <= state.initial_value + d <= hi,
    ensures
        sic_output(t, current, temp, state) == state.initial_value + d,
{
    let e = target - temp;
    lemma_segment_unique(t.trig, temp, g);
    assert(e - 2 * e + e == 0 && e - e == 0);
    assert(ks * 0 == 0 && kc * 0 == 0);
    assert(pid_sum(ks as int, kc as int, ki as int, e, e, e) == 1000 * d);
    assert(round_div(1000 * d, 1000) == d);
}

/// A step remembers its error as the last one, and the last one as that before it; on
/// the first step both are the error of the step. A controller without segments
/// remembers nothing and puts out 0.
pub proof fn law_step_remembers_two_errors(
    t: ThresholdView,
    current: i32,
    temp: i32,
    state: SicState,
    g: int,
    target: i32,
)
    requires
        i32::MIN <= target - temp <= i32::MAX,
    ensures
        governs(t.trig, temp, g) && g < t.target.len() && t.target[g] == target ==> ({
            let next = sic_next(t, temp, state);
            &&& next.ek_1 == target - temp
            &&& next.ek_2 == (if state.initialized {
                state.ek_1 as int
            } else {
                target - temp
            })
            &&& next.initialized
            &&& next.initial_value == state.initial_value
        }),
        t.trig.len() == 0 ==> sic_next(t, temp, state) == state && sic_output(
            t,
            current,
            temp,
            state,
        ) == 0,
{
    if governs(t.trig, temp, g) {
        lemma_segment_unique(t.trig, temp, g);
    }
}

/// What can be evaluated: instances with a countable number of levels; those with a PID only
/// where the bounds of the segment that governs are in order.
pub proof fn law_what_can_be_evaluated(
    inst: InstanceView,
    temp: i32,
    g: int,
    target: i32,
    ks: i32,
    kc: i32,
    ki: i32,
    lo: i32,
    hi: i32,
)
    requires
        inst.threshold.trig.len() <= 0x7fff_ffff,
    ensures
        inst.algo != AlgoType::Sic || inst.threshold.trig.len() == 0 ==> evaluable(inst, temp),
        inst.algo == AlgoType::Sic && step_parameters(
            inst.threshold,
            temp,
            g,
            target,
            ks,
            kc,
            ki,
            lo,
            hi,
        ) ==> (evaluable(inst, temp) <==> lo <= hi),
{
    if step_parameters(inst.threshold, temp, g, target, ks, kc, ki, lo, hi) {
        lemma_segment_unique(inst.threshold.trig, temp, g);
    }
}

} // verus!
