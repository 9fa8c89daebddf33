//! Rewards, in billionths, from states in millionths.

use vstd::prelude::*;

use crate::ai::features::StateVector;
use crate::ai::channels::ChannelGroup;
#[allow(unused_imports)]
use crate::ai::qtable::REWARD_LIMIT;
use crate::ai::workload::WorkloadMode;
use crate::arith::{div_trunc, unsigned};
#[allow(unused_imports)]
use crate::arith::{magnitude, trunc_div};

verus! {

/// The weights of performance and of battery temperature, in hundredths.
pub open spec fn mode_weights(mode: WorkloadMode) -> (int, int) {
    match mode {
        WorkloadMode::Idle => (50, 500),
        WorkloadMode::Light => (100, 400),
        WorkloadMode::Moderate => (150, 350),
        WorkloadMode::Gaming => (300, 200),
        WorkloadMode::PerfGaming => (350, 175),
        WorkloadMode::Benchmark => (400, 150),
    }
}

/// The battery temperatures from which on a workload is penalised mildly and
/// fully.
pub open spec fn penalty_temps(mode: WorkloadMode) -> (int, int) {
    match mode {
        WorkloadMode::Idle | WorkloadMode::Light => (350_000, 380_000),
        WorkloadMode::Moderate => (370_000, 400_000),
        WorkloadMode::Gaming => (420_000, 440_000),
        WorkloadMode::PerfGaming => (440_000, 450_000),
        WorkloadMode::Benchmark => (450_000, 480_000),
    }
}

/// The penalty on the processor temperature: 10 above 85 degrees, a tenth per
/// degree above 75.
pub open spec fn temp_penalty(t_cpu: int) -> int {
    if t_cpu > 850_000 {
        -10_000_000_000
    } else if t_cpu > 750_000 {
        -10_000 * (t_cpu - 750_000)
    } else {
        0
    }
}

/// The penalty on the battery temperature: 10 above the critical temperature, a
/// fifth per degree above the warning temperature, a twentieth per degree in the
/// three degrees below it.
pub open spec fn level_penalty(mode: WorkloadMode, t_battery: int) -> int {
    let (warn, crit) = penalty_temps(mode);
    if t_battery > crit {
        -10_000_000_000
    } else if t_battery > warn {
        -20_000 * (t_battery - warn)
    } else if t_battery > warn - 30_000 {
        -5_000 * (t_battery - (warn - 30_000))
    } else {
        0
    }
}

/// Does the workload accept a heating battery more readily?
pub open spec fn is_heavy(mode: WorkloadMode) -> bool {
    mode == WorkloadMode::Gaming || mode == WorkloadMode::PerfGaming || mode
        == WorkloadMode::Benchmark
}

/// The penalty on a heating battery, or the small reward for a cooling one.
pub open spec fn heating_penalty(mode: WorkloadMode, dt_battery: int) -> int {
    if dt_battery > 0 {
        if is_heavy(mode) {
            -2_000 * dt_battery
        } else {
            -4_000 * dt_battery
        }
    } else {
        500 * magnitude(dt_battery)
    }
}

pub open spec fn batt_temp_penalty(mode: WorkloadMode, t_battery: int, dt_battery: int) -> int {
    level_penalty(mode, t_battery) + heating_penalty(mode, dt_battery)
}

/// The battery temperature penalty with the weight of the workload.
pub open spec fn weighted_batt(mode: WorkloadMode, s: StateVector) -> int {
    trunc_div(
        mode_weights(mode).1 * batt_temp_penalty(mode, s.t_battery as int, s.dt_battery as int),
        100,
    )
}

/// The reward for a step of the configured controller from one level to another.
pub open spec fn reward_of(
    mode: WorkloadMode,
    s: StateVector,
    prev_level: i32,
    new_level: i32,
) -> int {
    5 * temp_penalty(s.t_cpu_max as int) + weighted_batt(mode, s) + mode_weights(mode).0 * 10
        * s.cpu_freq_ratio + (if s.is_charging > 500_000 {
        500 * s.battery_current
    } else {
        0
    }) - 300_000_000 * magnitude(new_level - prev_level)
}

/// The last action of a group, as a share of one.
pub open spec fn last_action_of(s: StateVector, group: ChannelGroup) -> i64 {
    match group {
        ChannelGroup::Compute => s.last_action_compute,
        ChannelGroup::Thermal => s.last_action_thermal,
        ChannelGroup::Charging => s.last_action_charging,
        ChannelGroup::Display => s.last_action_display,
    }
}

/// The penalty on a change of action, three tenths per step.
pub open spec fn stability_penalty(s: StateVector, group: ChannelGroup, action: i32) -> int {
    300 * magnitude(action * 1_000_000 - 9 * last_action_of(s, group))
}

/// The reward of a group for an action. All share the penalty on temperature;
/// each adds what it controls.
pub open spec fn group_reward_of(
    mode: WorkloadMode,
    s: StateVector,
    group: ChannelGroup,
    action: i32,
) -> int {
    let temp = temp_penalty(s.t_cpu_max as int);
    let stability = stability_penalty(s, group, action);
    match group {
        ChannelGroup::Compute => temp + mode_weights(mode).0 * (10 * s.cpu_freq_ratio + 5
            * s.gpu_freq_ratio) - stability,
        ChannelGroup::Thermal => temp - stability,
        ChannelGroup::Charging => weighted_batt(mode, s) + 500 * s.charge_current_ratio - stability,
        ChannelGroup::Display => trunc_div(temp, 2) + 2_000 * s.brightness_ratio - stability,
    }
}

#[derive(Debug, Clone, Copy, PartialEq, Eq, Structural)]
pub struct RewardCalculator {
    pub current_workload: WorkloadMode,
}

impl RewardCalculator {
    pub fn new() -> (r: Self)
        ensures
            r == (RewardCalculator { current_workload: WorkloadMode::Light }),
    {
        RewardCalculator { current_workload: WorkloadMode::Light }
    }

    pub fn set_workload_mode(&mut self, mode: WorkloadMode)
        ensures
            *final(self) == (RewardCalculator { current_workload: mode }),
    {
        self.current_workload = mode;
    }

    fn weights(&self) -> (r: (i128, i128))
        ensures
            r.0 == mode_weights(self.current_workload).0,
            r.1 == mode_weights(self.current_workload).1,
            0 <= r.0 <= 500,
            0 <= r.1 <= 500,
    {
        match self.current_workload {
            WorkloadMode::Idle => (50, 500),
            WorkloadMode::Light => (100, 400),
            WorkloadMode::Moderate => (150, 350),
            WorkloadMode::Gaming => (300, 200),
            WorkloadMode::PerfGaming => (350, 175),
            WorkloadMode::Benchmark => (400, 150),
        }
    }

    /// The reward for a step from one level to another.
    pub fn compute_reward(&self, state: &StateVector, prev_level: i32, new_level: i32) -> (r: i128)
        ensures
            r == reward_of(self.current_workload, *state, prev_level, new_level),
            magnitude(r as int) < REWARD_LIMIT,
    {
        let temp: i128 = 5 * self.compute_temp_reward(state.t_cpu_max);
        let batt_temp: i128 = self.weighted_batt_temp(state);
        let (perf_weight, _) = self.weights();
        proof {
            lemma_weighted_bound(perf_weight as int, 10 * state.cpu_freq_ratio);
        }
        let perf: i128 = perf_weight * (10 * (state.cpu_freq_ratio as i128));
        let batt: i128 = if state.is_charging > 500_000 {
            500 * (state.battery_current as i128)
        } else {
            0
        };
        let stab: i128 = 300_000_000 * (unsigned(new_level as i128 - prev_level as i128) as i128);
        proof {
            assert(perf == perf_weight * 10 * state.cpu_freq_ratio) by (nonlinear_arith)
                requires
                    perf == perf_weight * (10 * state.cpu_freq_ratio),
            ;
        }
        temp + batt_temp + perf + batt - stab
    }

    /// The reward of a channel group for an action.
    pub fn compute_group_reward(&self, state: &StateVector, group: ChannelGroup, action: i32) -> (r:
        i128)
        ensures
            r == group_reward_of(self.current_workload, *state, group, action),
            magnitude(r as int) < REWARD_LIMIT,
    {
        let temp: i128 = self.compute_temp_reward(state.t_cpu_max);
        let last: i64 = match group {
            ChannelGroup::Compute => state.last_action_compute,
            ChannelGroup::Thermal => state.last_action_thermal,
            ChannelGroup::Charging => state.last_action_charging,
            ChannelGroup::Display => state.last_action_display,
        };
        let change: i128 = action as i128 * 1_000_000 - 9 * (last as i128);
        let stability: i128 = 300 * (unsigned(change) as i128);
        match group {
            ChannelGroup::Compute => {
                let (perf_weight, _) = self.weights();
                let freq: i128 = 10 * (state.cpu_freq_ratio as i128) + 5 * (state.gpu_freq_ratio
                    as i128);
                proof {
                    lemma_weighted_bound(perf_weight as int, freq as int);
                }
                temp + perf_weight * freq - stability
            },
            ChannelGroup::Thermal => temp - stability,
            ChannelGroup::Charging => {
                self.weighted_batt_temp(state) + 500 * (state.charge_current_ratio as i128)
                    - stability
            },
            ChannelGroup::Display => {
                div_trunc(temp, 2) + 2_000 * (state.brightness_ratio as i128) - stability
            },
        }
    }

    fn compute_temp_reward(&self, t_cpu: i64) -> (r: i128)
        ensures
            r == temp_penalty(t_cpu as int),
            -10_000_000_000 <= r <= 0,
    {
        if t_cpu > 850_000 {
            -10_000_000_000
        } else if t_cpu > 750_000 {
            -10_000 * (t_cpu as i128 - 750_000)
        } else {
            0
        }
    }

    fn weighted_batt_temp(&self, state: &StateVector) -> (r: i128)
        ensures
            r == weighted_batt(self.current_workload, *state),
            magnitude(r as int) <= 0x4000_0000_0000_0000_0000_0000,
    {
        let penalty: i128 = self.compute_batt_temp_reward(state.t_battery, state.dt_battery);
        let (_, weight) = self.weights();
        proof {
            lemma_weighted_bound(weight as int, penalty as int);
        }
        div_trunc(weight * penalty, 100)
    }

    fn compute_batt_temp_reward(&self, t_battery: i64, dt_battery: i64) -> (r: i128)
        ensures
            r == batt_temp_penalty(self.current_workload, t_battery as int, dt_battery as int),
            magnitude(r as int) <= 0x10_0000_0000_0000_0000_0000,
    {
        let t: i128 = t_battery as i128;
        let dt: i128 = dt_battery as i128;
        let (warn, crit): (i128, i128) = match self.current_workload {
            WorkloadMode::Idle | WorkloadMode::Light => (350_000, 380_000),
            WorkloadMode::Moderate => (370_000, 400_000),
            WorkloadMode::Gaming => (420_000, 440_000),
            WorkloadMode::PerfGaming => (440_000, 450_000),
            WorkloadMode::Benchmark => (450_000, 480_000),
        };
        let level: i128 = if t > crit {
            -10_000_000_000
        } else if t > warn {
            -20_000 * (t - warn)
        } else if t > warn - 30_000 {
            -5_000 * (t - (warn - 30_000))
        } else {
            0
        };
        let heating: i128 = if dt > 0 {
            match self.current_workload {
                WorkloadMode::Gaming | WorkloadMode::PerfGaming | WorkloadMode::Benchmark => 0
                    - 2_000 * dt,
                _ => 0 - 4_000 * dt,
            }
        } else {
            500 * (unsigned(dt) as i128)
        };
        level + heating
    }
}

proof fn lemma_weighted_bound(weight: int, x: int)
    requires
        0 <= weight <= 500,
        -0x10_0000_0000_0000_0000_0000 <= x <= 0x10_0000_0000_0000_0000_0000,
    ensures
        -0x4000_0000_0000_0000_0000_0000 <= weight * x <= 0x4000_0000_0000_0000_0000_0000,
{
    assert(-0x4000_0000_0000_0000_0000_0000 <= weight * x
        <= 0x4000_0000_0000_0000_0000_0000) by (nonlinear_arith)
        requires
            0 <= weight <= 500,
            -0x10_0000_0000_0000_0000_0000 <= x <= 0x10_0000_0000_0000_0000_0000,
    ;
}

// ---------------------------------------------------------------------------
// Laws
// ---------------------------------------------------------------------------

/// A hotter processor is never penalised less.
pub proof fn law_heat_is_penalised(a: int, b: int)
    requires
        a <= b,
    ensures
        temp_penalty(b) <= temp_penalty(a) <= 0,
{
}

/// No battery temperature is rewarded, and none is penalised more than one above
/// the critical temperature.
pub proof fn law_critical_battery_is_worst(mode: WorkloadMode, a: int, b: int)
    requires
        b > penalty_temps(mode).1,
    ensures
        level_penalty(mode, b) <= level_penalty(mode, a) <= 0,
{
}

/// Staying at a level is never rewarded less than leaving it.
pub proof fn law_stability_is_rewarded(
    mode: WorkloadMode,
    s: StateVector,
    prev_level: i32,
    new_level: i32,
)
    ensures
        reward_of(mode, s, prev_level, new_level) <= reward_of(mode, s, prev_level, prev_level),
{
}

/// What a workload costs and is worth: the weight of performance and that of the battery
/// temperature, in hundredths, and the battery temperatures, in degrees, from which on it
/// is penalised and from which on it is critical.
pub open spec fn workload_table(mode: WorkloadMode) -> (int, int, int, int) {
    match mode {
        WorkloadMode::Idle => (50, 500, 35, 38),
        WorkloadMode::Light => (100, 400, 35, 38),
        WorkloadMode::Moderate => (150, 350, 37, 40),
        WorkloadMode::Gaming => (300, 200, 42, 44),
        WorkloadMode::PerfGaming => (350, 175, 44, 45),
        WorkloadMode::Benchmark => (400, 150, 45, 48),
    }
}

/// A group that keeps its action is not penalised for it.
pub open spec fn keeps_action(s: StateVector, group: ChannelGroup, action: i32) -> bool {
    match group {
        ChannelGroup::Compute => action * 1_000_000 == 9 * s.last_action_compute,
        ChannelGroup::Thermal => action * 1_000_000 == 9 * s.last_action_thermal,
        ChannelGroup::Charging => action * 1_000_000 == 9 * s.last_action_charging,
        ChannelGroup::Display => action * 1_000_000 == 9 * s.last_action_display,
    }
}

/// The thermal group is rewarded for a cool processor alone: nothing is taken off up to
/// 75 degrees, a tenth for each degree from there to 85, and ten above 85.
pub proof fn law_thermal_group_wants_a_cool_processor(
    mode: WorkloadMode,
    s: StateVector,
    action: i32,
)
    requires
        keeps_action(s, ChannelGroup::Thermal, action),
    ensures
        ({
            let r = group_reward_of(mode, s, ChannelGroup::Thermal, action);
            &&& s.t_cpu_max <= 750_000 ==> r == 0
            &&& 750_000 <= s.t_cpu_max <= 850_000 ==> 100_000 * r == -(s.t_cpu_max - 750_000)
                * 1_000_000_000
            &&& s.t_cpu_max > 850_000 ==> r == -10 * 1_000_000_000
        }),
{
}

/// The compute group is rewarded as the thermal group is, and for the frequency of the
/// processor and half that of the graphics, by the weight of the workload.
pub proof fn law_compute_group_wants_performance(mode: WorkloadMode, s: StateVector, action: i32)
    requires
        keeps_action(s, ChannelGroup::Compute, action),
        keeps_action(s, ChannelGroup::Thermal, action),
    ensures
        2 * (group_reward_of(mode, s, ChannelGroup::Compute, action) - group_reward_of(
            mode,
            s,
            ChannelGroup::Thermal,
            action,
        )) == 10 * (workload_table(mode).0 * (2 * s.cpu_freq_ratio + s.gpu_freq_ratio)),
{
    let w = mode_weights(mode).0;
    let c = s.cpu_freq_ratio as int;
    let g = s.gpu_freq_ratio as int;
    assert(2 * (w * (10 * c + 5 * g)) == 10 * (w * (2 * c + g))) by (nonlinear_arith);
}

/// The display group bears half of what the thermal group bears, and is rewarded with two
/// for full brightness.
pub proof fn law_display_group_wants_brightness(mode: WorkloadMode, s: StateVector, action: i32)
    requires
        keeps_action(s, ChannelGroup::Display, action),
        keeps_action(s, ChannelGroup::Thermal, action),
    ensures
        ({
            let d = group_reward_of(mode, s, ChannelGroup::Display, action);
            let t = group_reward_of(mode, s, ChannelGroup::Thermal, action);
            2 * (d - 2_000 * s.brightness_ratio) == t
        }),
{
}

/// The charging group is rewarded with half a unit for full current. A cool battery whose
/// temperature stays is not penalised; one above the critical temperature of the workload
/// is, with ten times the weight of the workload, and in between a fifth of the weight for
/// each degree above the warning temperature, a twentieth in the three degrees below it.
pub proof fn law_charging_group_wants_a_cool_battery(
    mode: WorkloadMode,
    s: StateVector,
    action: i32,
)
    requires
        keeps_action(s, ChannelGroup::Charging, action),
        s.dt_battery == 0,
    ensures
        ({
            let (_, weight, warn, crit) = workload_table(mode);
            let t = s.t_battery;
            let r = group_reward_of(mode, s, ChannelGroup::Charging, action) - 500
                * s.charge_current_ratio;
            &&& t <= (warn - 3) * 10_000 ==> r == 0
            &&& (warn - 3) * 10_000 < t <= warn * 10_000 ==> r == -50 * (weight * (t - (warn - 3)
                * 10_000))
            &&& warn * 10_000 < t <= crit * 10_000 ==> r == -200 * (weight * (t - warn * 10_000))
            &&& t > crit * 10_000 ==> 100 * r == -10 * weight * 1_000_000_000
        }),
{
    let (_, weight, warn, crit) = workload_table(mode);
    let w = mode_weights(mode).1;
    let t = s.t_battery as int;
    let x = w * (t - warn * 10_000);
    let y = w * (t - (warn - 3) * 10_000);
    let p = level_penalty(mode, t);
    assert(penalty_temps(mode) == (warn * 10_000, crit * 10_000));
    assert(w == weight);
    assert(t > warn * 10_000 ==> x >= 0) by (nonlinear_arith)
        requires
            x == w * (t - warn * 10_000),
            w > 0,
    ;
    assert(t > (warn - 3) * 10_000 ==> y >= 0) by (nonlinear_arith)
        requires
            y == w * (t - (warn - 3) * 10_000),
            w > 0,
    ;
    assert(p == -20_000 * (t - warn * 10_000) ==> w * p == -20_000 * x) by (nonlinear_arith)
        requires
            x == w * (t - warn * 10_000),
    ;
    assert(p == -5_000 * (t - (warn - 3) * 10_000) ==> w * p == -5_000 * y) by (nonlinear_arith)
        requires
            y == w * (t - (warn - 3) * 10_000),
    ;
    assert(p == 0 ==> w * p == 0) by (nonlinear_arith);
    assert(batt_temp_penalty(mode, t, 0) == p);
}

/// A battery that heats costs, by the weight of the workload, twice as much in a light
/// workload as in a heavy one; one that cools earns an eighth of the former.
pub proof fn law_heating_costs(mode: WorkloadMode, s: StateVector, action: i32)
    requires
        keeps_action(s, ChannelGroup::Charging, action),
        s.t_battery <= 320_000,
        s.charge_current_ratio == 0,
    ensures
        ({
            let weight = workload_table(mode).1;
            let r = group_reward_of(mode, s, ChannelGroup::Charging, action);
            let heavy = mode == WorkloadMode::Gaming || mode == WorkloadMode::PerfGaming || mode
                == WorkloadMode::Benchmark;
            &&& s.dt_battery >= 0 && !heavy ==> r == -40 * (weight * s.dt_battery)
            &&& s.dt_battery >= 0 && heavy ==> r == -20 * (weight * s.dt_battery)
            &&& s.dt_battery < 0 ==> r == -5 * (weight * s.dt_battery)
        }),
{
    let w = mode_weights(mode).1;
    let d = s.dt_battery as int;
    let x = w * d;
    assert(level_penalty(mode, s.t_battery as int) == 0);
    assert(w * (-2_000 * d) == -2_000 * x && w * (-4_000 * d) == -4_000 * x) by (nonlinear_arith)
        requires
            x == w * d,
    ;
    assert(w * (500 * (-d)) == -500 * x) by (nonlinear_arith)
        requires
            x == w * d,
    ;
    assert(d >= 0 ==> x >= 0) by (nonlinear_arith)
        requires
            w > 0,
            x == w * d,
    ;
    assert(d <= 0 ==> x <= 0) by (nonlinear_arith)
        requires
            w > 0,
            x == w * d,
    ;
}

/// A change of action costs every group three tenths for each of its ten steps, up or
/// down, against keeping the action.
pub proof fn law_changes_of_action_cost(
    mode: WorkloadMode,
    s: StateVector,
    group: ChannelGroup,
    kept: i32,
    action: i32,
)
    requires
        keeps_action(s, group, kept),
    ensures
        action >= kept ==> group_reward_of(mode, s, group, kept) - group_reward_of(
            mode,
            s,
            group,
            action,
        ) == 300_000_000 * (action - kept),
        action < kept ==> group_reward_of(mode, s, group, kept) - group_reward_of(
            mode,
            s,
            group,
            action,
        ) == 300_000_000 * (kept - action),
{
}

/// A step of the configured controller costs three tenths for each level it changes by.
pub proof fn law_changes_of_level_cost(
    mode: WorkloadMode,
    s: StateVector,
    prev_level: i32,
    new_level: i32,
)
    ensures
        new_level >= prev_level ==> reward_of(mode, s, prev_level, prev_level) - reward_of(
            mode,
            s,
            prev_level,
            new_level,
        ) == 300_000_000 * (new_level - prev_level),
        new_level < prev_level ==> reward_of(mode, s, prev_level, prev_level) - reward_of(
            mode,
            s,
            prev_level,
            new_level,
        ) == 300_000_000 * (prev_level - new_level),
{
}

/// The reward of the configured controller is made of what the groups are rewarded for:
/// five times the penalty of the thermal group, the penalty of the charging group, the
/// frequency of the processor by the weight of the workload, and half a unit for full
/// current while the battery charges.
pub proof fn law_reward_weighs_the_parts(
    mode: WorkloadMode,
    s: StateVector,
    level: i32,
    action: i32,
)
    requires
        keeps_action(s, ChannelGroup::Thermal, action),
        keeps_action(s, ChannelGroup::Charging, action),
        s.charge_current_ratio == 0,
    ensures
        reward_of(mode, s, level, level) == 5 * group_reward_of(
            mode,
            s,
            ChannelGroup::Thermal,
            action,
        ) + group_reward_of(mode, s, ChannelGroup::Charging, action) + 10 * (workload_table(mode).0
            * s.cpu_freq_ratio) + (if s.is_charging > 500_000 {
            500 * s.battery_current
        } else {
            0
        }),
{
    let w = mode_weights(mode).0;
    let c = s.cpu_freq_ratio as int;
    assert(w * 10 * c == 10 * (w * c)) by (nonlinear_arith);
}

} // verus!
