//! The learning layer over the configured controllers: it may replace the level
//! of an instance, and learns from what follows.

use vstd::prelude::*;
use vstd::string::*;

use crate::action::{cpuinfo_max_path, cpuinfo_min_path};
#[allow(unused_imports)]
use crate::action::cpufreq_path;
use crate::ai::data_collector::DataCollector;
#[allow(unused_imports)]
use crate::ai::data_collector::{fresh_collector, CollectorView};
use crate::ai::features::{array_of, DeviceReadings, FeatureExtractor, StateVector};
#[allow(unused_imports)]
use crate::ai::features::{
    fresh_extractor, state_array, DeviceView, ExtractorView, MAX_SENSOR_COUNT,
};
use crate::ai::lerp_by_action;
#[allow(unused_imports)]
use crate::ai::{law_lerp_monotone, lerp};
use crate::ai::qtable::{Draws, QTable};
#[allow(unused_imports)]
use crate::ai::qtable::{
    fresh_table, law_proposals_follow_the_table, law_weights_carry_values, proposal_of, QView,
    NUM_ACTIONS,
};
use crate::ai::rewards::RewardCalculator;
#[allow(unused_imports)]
use crate::ai::rewards::reward_of;
use crate::ai::safety::SafetyMonitor;
#[allow(unused_imports)]
use crate::ai::safety::{action_safe, cpu_over, fresh_monitor, SafetyView};
use crate::ai::workload::{count_up, LoadReading, ProfileReading, WorkloadDetector};
#[allow(unused_imports)]
use crate::ai::workload::{counted, fresh_detector, WorkloadMode};
use crate::arith::clamp_i64;
#[allow(unused_imports)]
use crate::arith::{clamped, upper_of};
use crate::text::push_int;
#[allow(unused_imports)]
use crate::text::{show, texts};
use crate::types::{copy_actions, Action, ActionType, AlgoType, Instance, Sensor, Threshold};
#[allow(unused_imports)]
use crate::types::{
    action_views, empty_threshold, lemma_action_views_push, sensor_views, ActionView, InstanceView,
    SensorView,
};

verus! {

pub const SAVE_INTERVAL_TICKS: u64 = 1000;

// ---------------------------------------------------------------------------
// Direct actions
// ---------------------------------------------------------------------------

/// The nodes whose values decide what an action writes.
pub open spec fn direct_probes(a: ActionView) -> Seq<Seq<char>> {
    match a.type_ {
        ActionType::CpuFreq => seq![
            cpufreq_path(a.target, "cpuinfo_max_freq"@),
            cpufreq_path(a.target, "cpuinfo_min_freq"@),
        ],
        ActionType::Bcl => if a.value == 0 {
            seq!["/sys/class/power_supply/battery/constant_charge_current"@]
        } else {
            Seq::empty()
        },
        ActionType::Fcc => if a.value == 0 {
            seq!["/sys/class/power_supply/battery/constant_charge_current_max"@]
        } else {
            Seq::empty()
        },
        _ => Seq::empty(),
    }
}

/// A reading, or a default where it is missing or not positive.
pub open spec fn reading_or(readings: Seq<i32>, k: int, default: int) -> int {
    if k < readings.len() && readings[k] > 0 {
        readings[k] as int
    } else {
        default
    }
}

/// The highest frequency of a processor, from its readings.
pub open spec fn freq_max(readings: Seq<i32>) -> int {
    reading_or(readings, 0, 3_000_000)
}

/// The lowest frequency of a processor, from its readings.
pub open spec fn freq_min(readings: Seq<i32>) -> int {
    reading_or(readings, 1, freq_max(readings) / 10)
}

/// The frequency that an action stands for: action 0 is the lowest frequency,
/// action 9 the highest.
pub open spec fn direct_freq(action: u8, readings: Seq<i32>) -> int {
    let lo = freq_min(readings);
    let hi = freq_max(readings);
    clamped(lo + action * upper_of(hi - lo, 1) / 9, lo, hi)
}

/// The value that an action writes, from the readings of its probes.
pub open spec fn direct_value(a: ActionView, action: u8, readings: Seq<i32>) -> int {
    match a.type_ {
        ActionType::CpuFreq => direct_freq(action, readings),
        ActionType::CpuHotplug => if action == 0 {
            0
        } else {
            1
        },
        ActionType::GpuBoost => if action <= 1 {
            0
        } else {
            1_100_000_000
        },
        ActionType::Bcl => if a.value == 0 {
            reading_or(readings, 0, 5_000_000)
        } else {
            a.value as int
        },
        ActionType::Fcc => if a.value == 0 {
            reading_or(readings, 0, 6_000_000)
        } else {
            a.value as int
        },
        _ => a.value as int,
    }
}

/// The first and the last position of the actions of a level, of which there
/// are equally many per level.
pub open spec fn level_range(n_actions: int, n_levels: int, level: int) -> (int, int) {
    let per_level = n_actions / (n_levels + 1);
    let start = level * per_level;
    let end = start + per_level;
    (
        start,
        if end > n_actions {
            n_actions
        } else {
            end
        },
    )
}

/// The actions `from..to` with the values that the chosen action calls for.
pub open spec fn direct_actions(
    actions: Seq<ActionView>,
    readings: Seq<Vec<i32>>,
    action: u8,
    from: int,
    to: int,
) -> Seq<ActionView> {
    Seq::new(
        (to - from) as nat,
        |k: int|
            ActionView {
                value: direct_value(actions[from + k], action, readings[from + k]@) as i32,
                ..actions[from + k]
            },
    )
}

/// Are the lowest and highest frequency in order, for every action that reads
/// them?
pub open spec fn readings_ordered(actions: Seq<ActionView>, readings: Seq<Vec<i32>>) -> bool {
    forall|k: int|
        0 <= k < actions.len() && (#[trigger] actions[k]).type_ == ActionType::CpuFreq ==> freq_min(
            readings[k]@,
        ) <= freq_max(readings[k]@)
}

pub(crate) proof fn lemma_level_range(n_actions: int, n_levels: int, level: int)
    requires
        0 <= n_actions,
        0 <= n_levels,
        0 <= level <= upper_of(n_levels, 1),
    ensures
        0 <= level_range(n_actions, n_levels, level).0 <= level_range(
            n_actions,
            n_levels,
            level,
        ).1 <= n_actions,
        0 <= n_actions / (n_levels + 1) <= n_actions,
        0 <= level * (n_actions / (n_levels + 1)) <= n_actions,
{
    let per = n_actions / (n_levels + 1);
    assert(0 <= per <= n_actions && per * (n_levels + 1) <= n_actions) by (nonlinear_arith)
        requires
            per == n_actions / (n_levels + 1),
            n_actions >= 0,
            n_levels >= 0,
    ;
    assert(0 <= level * per <= per * (n_levels + 1)) by (nonlinear_arith)
        requires
            0 <= level <= n_levels + 1,
            per >= 0,
    ;
}

/// The nodes to read before an action takes part in a decision.
pub fn direct_probe_paths(a: &Action) -> (r: Vec<String>)
    ensures
        texts(r@) == direct_probes(a@),
{
    let mut out: Vec<String> = Vec::new();
    match a.type_ {
        ActionType::CpuFreq => {
            out.push(cpuinfo_max_path(a.target.as_str()));
            out.push(cpuinfo_min_path(a.target.as_str()));
        },
        ActionType::Bcl => {
            if a.value == 0 {
                out.push("/sys/class/power_supply/battery/constant_charge_current".to_string());
            }
        },
        ActionType::Fcc => {
            if a.value == 0 {
                out.push("/sys/class/power_supply/battery/constant_charge_current_max".to_string());
            }
        },
        _ => {},
    }
    assert(texts(out@) =~= direct_probes(a@));
    out
}

fn reading(readings: &Vec<i32>, k: usize, default: i32) -> (r: i32)
    ensures
        r == reading_or(readings@, k as int, default as int),
{
    if k < readings.len() && readings[k] > 0 {
        readings[k]
    } else {
        default
    }
}

fn action_to_cpu_freq(action: u8, readings: &Vec<i32>) -> (r: i32)
    requires
        freq_min(readings@) <= freq_max(readings@),
    ensures
        r == direct_freq(action, readings@),
{
    let max_freq: i32 = reading(readings, 0, 3_000_000);
    let min_freq: i32 = reading(readings, 1, max_freq / 10);
    let range: i64 = if max_freq > min_freq {
        max_freq as i64 - min_freq as i64
    } else {
        1
    };
    proof {
        assert(0 <= action * range <= 0xff * 0x8000_0000) by (nonlinear_arith)
            requires
                0 <= action <= 0xff,
                0 <= range <= 0x8000_0000,
        ;
    }
    let part: i64 = (action as i64 * range) / 9;
    clamp_i64(min_freq as i64 + part, min_freq as i64, max_freq as i64) as i32
}

/// The value of an action that leaves the hardware alone.
fn resolve_zero_value(a: &Action, readings: &Vec<i32>) -> (r: i32)
    requires
        a.value == 0,
    ensures
        r == (match a.type_ {
            ActionType::Bcl => reading_or(readings@, 0, 5_000_000),
            ActionType::Fcc => reading_or(readings@, 0, 6_000_000),
            _ => 0,
        }),
{
    match a.type_ {
        ActionType::Bcl => reading(readings, 0, 5_000_000),
        ActionType::Fcc => reading(readings, 0, 6_000_000),
        _ => a.value,
    }
}

/// Tests whether every processor has its lowest and highest frequency in order.
pub fn has_ordered_readings(actions: &Vec<Action>, readings: &Vec<Vec<i32>>) -> (r: bool)
    requires
        readings@.len() == actions@.len(),
    ensures
        r == readings_ordered(action_views(actions@), readings@),
{
    let ghost av = action_views(actions@);
    let mut i: usize = 0;
    while i < actions.len()
        invariant
            i <= actions@.len(),
            av == action_views(actions@),
            readings@.len() == actions@.len(),
            forall|k: int|
                0 <= k < i && (#[trigger] av[k]).type_ == ActionType::CpuFreq ==> freq_min(
                    readings@[k]@,
                ) <= freq_max(readings@[k]@),
        decreases actions@.len() - i,
    {
        assert(av[i as int] == actions@[i as int]@);
        if actions[i].type_ == ActionType::CpuFreq {
            let max_freq: i32 = reading(&readings[i], 0, 3_000_000);
            let min_freq: i32 = reading(&readings[i], 1, max_freq / 10);
            if min_freq > max_freq {
                return false;
            }
        }
        i += 1;
    }
    true
}

fn build_direct_actions(
    action: u8,
    ai_level: i32,
    instance: &Instance,
    readings: &Vec<Vec<i32>>,
) -> (r: Vec<Action>)
    requires
        readings@.len() == instance.actions@.len(),
        readings_ordered(instance@.actions, readings@),
        instance@.threshold.trig.len() <= i32::MAX,
        0 <= ai_level <= upper_of(instance@.threshold.trig.len() as int, 1),
    ensures
        ({
            let (from, to) = level_range(
                instance@.actions.len() as int,
                instance@.threshold.trig.len() as int,
                ai_level as int,
            );
            action_views(r@) == direct_actions(instance@.actions, readings@, action, from, to)
        }),
{
    let n_levels: usize = instance.threshold.n_levels();
    let n: usize = instance.actions.len();
    proof {
        lemma_level_range(n as int, n_levels as int, ai_level as int);
    }
    let per_level: usize = n / (n_levels + 1);
    let start: usize = ai_level as usize * per_level;
    let end: usize = if per_level > n - start {
        n
    } else {
        start + per_level
    };
    let ghost av = instance@.actions;
    let ghost all = direct_actions(av, readings@, action, start as int, end as int);
    let mut out: Vec<Action> = Vec::new();
    let mut i: usize = start;
    assert(action_views(out@) =~= all.take(0));
    while i < end
        invariant
            start <= i <= end <= instance.actions@.len(),
            av == instance@.actions,
            readings@.len() == instance.actions@.len(),
            readings_ordered(av, readings@),
            all == direct_actions(av, readings@, action, start as int, end as int),
            action_views(out@) == all.take(i - start),
        decreases end - i,
    {
        let a = &instance.actions[i];
        assert(av[i as int] == a@);
        let value: i32 = match a.type_ {
            ActionType::CpuFreq => action_to_cpu_freq(action, &readings[i]),
            ActionType::CpuHotplug => if action == 0 {
                0
            } else {
                1
            },
            ActionType::GpuBoost => if action <= 1 {
                0
            } else {
                1_100_000_000
            },
            _ => if a.value == 0 {
                resolve_zero_value(a, &readings[i])
            } else {
                a.value
            },
        };
        let next = Action { type_: a.type_, target: a.target.clone(), value };
        proof {
            lemma_action_views_push(out@, next);
            assert(all[i - start] == next@);
            assert(all.take(i - start + 1) =~= all.take(i - start).push(next@));
        }
        out.push(next);
        i += 1;
    }
    assert(all.take(end - start) =~= all);
    out
}

// ---------------------------------------------------------------------------
// The engine
// ---------------------------------------------------------------------------

/// The level and the actions that the engine decides on.
#[derive(Debug)]
pub struct AIDirective {
    pub level: i32,
    pub actions: Vec<Action>,
}

pub struct DirectiveView {
    pub level: i32,
    pub actions: Seq<ActionView>,
}

impl View for AIDirective {
    type V = DirectiveView;

    open spec fn view(&self) -> DirectiveView {
        DirectiveView { level: self.level, actions: action_views(self.actions@) }
    }
}

/// What a decision reads besides the state: the share of the graphics frequency,
/// and the announced profile.
pub struct DecisionReadings<'a> {
    pub gpu_freq_ratio: i64,
    pub profile: ProfileReading<'a>,
}

/// What is to be written after a tick.
#[derive(Debug, Clone, Copy, PartialEq, Eq, Structural)]
pub struct TickOutcome {
    /// The experience log is to be flushed.
    pub flush_due: bool,
    /// The learned weights are to be saved.
    pub save_due: bool,
}

#[derive(Debug)]
pub struct AIEngine {
    pub q_table: QTable,
    pub feature_extractor: FeatureExtractor,
    pub reward_calculator: RewardCalculator,
    pub safety_monitor: SafetyMonitor,
    pub data_collector: DataCollector,
    pub workload_detector: WorkloadDetector,
    pub last_state: Option<StateVector>,
    pub last_directive: Option<AIDirective>,
    pub last_action: Option<u8>,
    pub last_traditional_level: i32,
    pub last_max_level: i32,
    pub enabled: bool,
    pub tick_count: u64,
    pub disabled_reason: Option<String>,
}

pub struct EngineView {
    pub q_table: QView,
    pub extractor: ExtractorView,
    pub rewards: RewardCalculator,
    pub safety: SafetyView,
    pub collector: CollectorView,
    pub detector: WorkloadDetector,
    pub last_state: Option<StateVector>,
    pub last_directive: Option<DirectiveView>,
    pub last_action: Option<u8>,
    pub last_traditional_level: i32,
    pub last_max_level: i32,
    pub enabled: bool,
    pub tick_count: u64,
    pub disabled_reason: Option<Seq<char>>,
}

pub open spec fn directive_view(d: Option<AIDirective>) -> Option<DirectiveView> {
    match d {
        Some(d) => Some(d@),
        None => None,
    }
}

pub open spec fn text_view(t: Option<String>) -> Option<Seq<char>> {
    match t {
        Some(t) => Some(t@),
        None => None,
    }
}

impl View for AIEngine {
    type V = EngineView;

    open spec fn view(&self) -> EngineView {
        EngineView {
            q_table: self.q_table@,
            extractor: self.feature_extractor@,
            rewards: self.reward_calculator,
            safety: self.safety_monitor@,
            collector: self.data_collector@,
            detector: self.workload_detector,
            last_state: self.last_state,
            last_directive: directive_view(self.last_directive),
            last_action: self.last_action,
            last_traditional_level: self.last_traditional_level,
            last_max_level: self.last_max_level,
            enabled: self.enabled,
            tick_count: self.tick_count,
            disabled_reason: text_view(self.disabled_reason),
        }
    }
}

/// Why the circuit breaker disabled a controller.
pub open spec fn breaker_reason(violations: u32) -> Seq<char> {
    "disabled after "@ + show(violations as int) + " safety violations"@
}

pub fn breaker_message(violations: u32) -> (r: String)
    ensures
        r@ == breaker_reason(violations),
{
    let mut s = "disabled after ".to_string();
    push_int(&mut s, violations as i64);
    s.append(" safety violations");
    s
}

/// The level that an action stands for: action 0 is the highest level, action 9
/// the lowest.
pub open spec fn level_of(action: u8, trad_level: i32, max_level: i32) -> i32 {
    let top = upper_of(max_level as int, 1);
    if action > 9 {
        clamped(upper_of(trad_level as int, 0), 0, top) as i32
    } else {
        lerp(action, 0, top as i32, false)
    }
}

fn action_to_level(action: u8, trad_level: i32, max_level: i32) -> (r: i32)
    ensures
        r == level_of(action, trad_level, max_level),
        0 <= r <= upper_of(max_level as int, 1),
{
    let top: i32 = if max_level > 1 {
        max_level
    } else {
        1
    };
    if action > 9 {
        let level: i32 = if trad_level > 0 {
            trad_level
        } else {
            0
        };
        return if level < top {
            level
        } else {
            top
        };
    }
    proof {
        law_lerp_monotone(action, action, 0, top);
    }
    lerp_by_action(action, 0, top, false)
}

impl EngineView {
    pub open spec fn wf(self) -> bool {
        &&& self.q_table.wf()
        &&& self.extractor.wf()
        &&& self.collector.wf()
        &&& self.safety.up_to(self.tick_count as int)
    }

    /// The engine after it has classified the workload.
    pub open spec fn observed(self, state: StateVector, r: DecisionReadings) -> EngineView {
        let load = LoadReading {
            cpu_load: state.cpu_load,
            gpu_freq_ratio: r.gpu_freq_ratio,
            screen_on: state.screen_on > 500_000,
        };
        let detector = self.detector.detected(load, r.profile);
        EngineView {
            detector,
            safety: SafetyView { current_workload: detector.last_mode, ..self.safety },
            rewards: RewardCalculator { current_workload: detector.last_mode },
            ..self
        }
    }

    /// The state with the workload that the engine has classified.
    pub open spec fn classified(self, state: StateVector) -> StateVector {
        StateVector { workload_mode: self.detector.last_mode.normalized(), ..state }
    }

    /// The action that is carried out in place of a proposed one.
    pub open spec fn safe_action(self, proposal: u8, s: Seq<SensorView>) -> u8 {
        if action_safe(self.safety.current_workload, proposal, s) {
            proposal
        } else {
            3
        }
    }

    /// The safety monitor after a proposal is checked; a rejected proposal has
    /// its replacement checked too.
    pub open spec fn checked(self, proposal: u8, s: Seq<SensorView>) -> SafetyView {
        let once = self.safety.recorded(!cpu_over(s), self.tick_count);
        if action_safe(self.safety.current_workload, proposal, s) {
            once
        } else {
            once.recorded(!cpu_over(s), self.tick_count)
        }
    }

    /// The decision that a proposal leads to, and the engine after it. An open
    /// circuit breaker disables the engine and leaves the instance alone.
    pub open spec fn concluded(
        self,
        state: StateVector,
        proposal: u8,
        trad_level: i32,
        instance: InstanceView,
        s: Seq<SensorView>,
        readings: Seq<Vec<i32>>,
    ) -> (EngineView, DirectiveView) {
        let safety = self.checked(proposal, s);
        if safety.tripped(self.tick_count) {
            (
                EngineView {
                    safety,
                    enabled: false,
                    disabled_reason: Some(breaker_reason(safety.violations())),
                    ..self
                },
                DirectiveView { level: trad_level, actions: instance.actions },
            )
        } else {
            let action = self.safe_action(proposal, s);
            let max_level = instance.threshold.trig.len() as i32;
            let level = level_of(action, trad_level, max_level);
            let (from, to) = level_range(
                instance.actions.len() as int,
                instance.threshold.trig.len() as int,
                level as int,
            );
            let directive = DirectiveView {
                level,
                actions: direct_actions(instance.actions, readings, action, from, to),
            };
            (
                EngineView {
                    safety,
                    last_state: Some(state),
                    last_directive: Some(directive),
                    last_action: Some(action),
                    last_traditional_level: trad_level,
                    last_max_level: max_level,
                    ..self
                },
                directive,
            )
        }
    }

    /// The decision in a state when the selection proposes an action.
    pub open spec fn decided(
        self,
        state: StateVector,
        decision: DecisionReadings,
        proposal: u8,
        trad_level: i32,
        instance: InstanceView,
        s: Seq<SensorView>,
        readings: Seq<Vec<i32>>,
    ) -> (EngineView, DirectiveView) {
        let e = self.observed(state, decision);
        EngineView { q_table: e.q_table.ticked(), ..e }.concluded(
            e.classified(state),
            proposal,
            trad_level,
            instance,
            s,
            readings,
        )
    }

    /// The action that the table proposes in a state, once the workload is
    /// classified.
    pub open spec fn proposal(self, state: StateVector, decision: DecisionReadings, d: Draws) -> u8 {
        let e = self.observed(state, decision);
        proposal_of(e.q_table, state_array(e.classified(state)), d)
    }

    /// The level that the last decision led to.
    pub open spec fn decided_level(self) -> i32 {
        match self.last_directive {
            Some(d) => d.level,
            None => level_of(
                self.last_action->Some_0,
                self.last_traditional_level,
                upper_of(self.last_max_level as int, 1) as i32,
            ),
        }
    }

    /// The reward for the last decision.
    pub open spec fn last_reward(self) -> int {
        reward_of(
            self.rewards.current_workload,
            self.last_state->Some_0,
            self.last_traditional_level,
            self.decided_level(),
        )
    }

    /// Is there a decision to learn from?
    pub open spec fn has_decision(self) -> bool {
        self.last_state is Some && self.last_action is Some
    }

    /// The engine after a tick: it has learned from the last decision, if there
    /// was one, and forgotten it.
    pub open spec fn ended(self, s: Seq<SensorView>, device: DeviceView) -> EngineView {
        if !self.enabled {
            self
        } else {
            let learned = if self.has_decision() {
                let next = self.extractor.state(s, 0, self.last_traditional_level, device);
                EngineView {
                    extractor: self.extractor.after(s, self.last_traditional_level, device),
                    q_table: self.q_table.learned(
                        state_array(self.last_state->Some_0),
                        self.last_action->Some_0,
                        self.last_reward(),
                        state_array(next),
                    ),
                    collector: self.collector.recorded(
                        self.last_state->Some_0,
                        self.last_action->Some_0,
                        self.last_reward(),
                    ),
                    tick_count: counted(self.tick_count),
                    ..self
                }
            } else {
                self
            };
            EngineView { last_state: None, last_directive: None, last_action: None, ..learned }
        }
    }
}

/// An instance without sensor, levels or actions.
pub open spec fn blank_instance_view() -> InstanceView {
    InstanceView {
        name: Seq::empty(),
        sensor_idx: None,
        algo: AlgoType::Monitor,
        sample_ms: 0,
        reverse: false,
        threshold: empty_threshold(),
        actions: Seq::empty(),
        current_level: 0,
        current_value: 0,
    }
}

/// The instance that a state is extracted for where no configured one takes part.
pub fn blank_instance() -> (r: Instance)
    ensures
        r@ == blank_instance_view(),
{
    let r = Instance {
        name: String::new(),
        sensor_idx: None,
        algo: AlgoType::Monitor,
        sample_ms: 0,
        reverse: false,
        threshold: Threshold::default(),
        actions: Vec::new(),
        current_level: 0,
        current_value: 0,
    };
    assert(r@.name =~= Seq::empty());
    assert(r@.actions =~= Seq::empty());
    r
}

/// An engine that has decided nothing yet, with the weights of an earlier one
/// where they fit the table.
pub open spec fn fresh_engine(
    saved: Option<Seq<i64>>,
    sconfig_available: bool,
    now_ms: u64,
) -> EngineView {
    EngineView {
        q_table: match saved {
            Some(w) => if w.len() == fresh_table().weights.len() {
                QView { weights: w, ..fresh_table() }
            } else {
                fresh_table()
            },
            None => fresh_table(),
        },
        extractor: fresh_extractor(),
        rewards: RewardCalculator { current_workload: WorkloadMode::Light },
        safety: fresh_monitor(),
        collector: fresh_collector(),
        detector: fresh_detector(sconfig_available, now_ms),
        last_state: None,
        last_directive: None,
        last_action: None,
        last_traditional_level: 0,
        last_max_level: 0,
        enabled: true,
        tick_count: 0,
        disabled_reason: None,
    }
}

impl AIEngine {
    /// A new engine. Saved weights are taken over where they fit the table.
    pub fn new(saved: Option<&Vec<i64>>, sconfig_available: bool, now_ms: u64) -> (r: Result<
        Self,
        String,
    >)
        ensures
            r is Ok,
            r->Ok_0@ == fresh_engine(
                match saved {
                    Some(w) => Some(w@),
                    None => None,
                },
                sconfig_available,
                now_ms,
            ),
            r->Ok_0@.wf(),
    {
        let mut q_table = QTable::new();
        match saved {
            Some(w) => {
                q_table.set_weights(w);
            },
            None => {},
        }
        Ok(
            AIEngine {
                q_table,
                feature_extractor: FeatureExtractor::new(),
                reward_calculator: RewardCalculator::new(),
                safety_monitor: SafetyMonitor::new(),
                data_collector: DataCollector::new(),
                workload_detector: WorkloadDetector::new(sconfig_available, now_ms),
                last_state: None,
                last_directive: None,
                last_action: None,
                last_traditional_level: 0,
                last_max_level: 0,
                enabled: true,
                tick_count: 0,
                disabled_reason: None,
            },
        )
    }

    pub fn is_enabled(&self) -> (r: bool)
        ensures
            r == self@.enabled,
    {
        self.enabled
    }

    pub fn disabled_reason(&self) -> (r: Option<String>)
        ensures
            text_view(r) == self@.disabled_reason,
    {
        match &self.disabled_reason {
            Some(s) => Some(s.clone()),
            None => None,
        }
    }

    /// The state that an instance is in.
    pub fn collect_state(
        &mut self,
        sensors: &Vec<Sensor>,
        instance: &Instance,
        traditional_level: i32,
        device: &DeviceReadings,
    ) -> (r: StateVector)
        requires
            old(self)@.wf(),
            sensors@.len() <= MAX_SENSOR_COUNT,
        ensures
            r == old(self)@.extractor.state(
                sensor_views(sensors@),
                instance@.threshold.trig.len() as int,
                traditional_level,
                device@,
            ),
            final(self)@ == (EngineView {
                extractor: old(self)@.extractor.after(
                    sensor_views(sensors@),
                    traditional_level,
                    device@,
                ),
                ..old(self)@
            }),
            final(self)@.wf(),
    {
        self.feature_extractor.extract(sensors, instance, traditional_level, device)
    }

    /// Classifies the workload, and returns the state with it.
    pub fn observe(&mut self, state: &StateVector, readings: &DecisionReadings) -> (r: StateVector)
        requires
            old(self)@.wf(),
            old(self)@.detector.profile_manager.last_check_ms <= readings.profile.now_ms,
        ensures
            final(self)@ == old(self)@.observed(*state, *readings),
            r == final(self)@.classified(*state),
            final(self)@.wf(),
            final(self)@.detector.profile_manager.last_check_ms <= readings.profile.now_ms,
    {
        let load = LoadReading {
            cpu_load: state.cpu_load,
            gpu_freq_ratio: readings.gpu_freq_ratio,
            screen_on: state.screen_on > 500_000,
        };
        let mode = self.workload_detector.detect_workload(load, &readings.profile);
        self.safety_monitor.set_workload_mode(mode);
        self.reward_calculator.set_workload_mode(mode);
        let mut next = *state;
        next.workload_mode = mode.to_normalized();
        next
    }

    /// Turns a proposed action into a decision.
    pub fn decide_with(
        &mut self,
        state: &StateVector,
        proposal: u8,
        traditional_level: i32,
        instance: &Instance,
        sensors: &Vec<Sensor>,
        readings: &Vec<Vec<i32>>,
    ) -> (r: AIDirective)
        requires
            old(self)@.wf(),
            proposal < NUM_ACTIONS,
            instance@.threshold.trig.len() <= i32::MAX,
            readings@.len() == instance@.actions.len(),
            readings_ordered(instance@.actions, readings@),
        ensures
            (final(self)@, r@) == old(self)@.concluded(
                *state,
                proposal,
                traditional_level,
                instance@,
                sensor_views(sensors@),
                readings@,
            ),
            final(self)@.wf(),
    {
        let ghost before = self@;
        let safe: bool = self.safety_monitor.check_action(proposal, sensors, self.tick_count);
        let final_action: u8 = if safe {
            proposal
        } else {
            let fallback: u8 = 3;
            let _ = self.safety_monitor.check_action(fallback, sensors, self.tick_count);
            fallback
        };
        assert(self.safety_monitor@ == before.checked(proposal, sensor_views(sensors@)));
        let max_level: i32 = instance.threshold.n_levels() as i32;
        if self.safety_monitor.is_disabled(self.tick_count) {
            self.enabled = false;
            self.disabled_reason = Some(breaker_message(self.safety_monitor.violations()));
            let actions = copy_actions(&instance.actions, 0, instance.actions.len());
            assert(action_views(actions@) =~= instance@.actions);
            return AIDirective { level: traditional_level, actions };
        }
        let ai_level: i32 = action_to_level(final_action, traditional_level, max_level);
        let actions = build_direct_actions(final_action, ai_level, instance, readings);
        let copy = copy_actions(&actions, 0, actions.len());
        assert(action_views(copy@) =~= action_views(actions@));
        self.last_state = Some(*state);
        self.last_directive = Some(AIDirective { level: ai_level, actions: copy });
        self.last_action = Some(final_action);
        self.last_traditional_level = traditional_level;
        self.last_max_level = max_level;
        let directive = AIDirective { level: ai_level, actions };
        proof {
            let c = before.concluded(
                *state,
                proposal,
                traditional_level,
                instance@,
                sensor_views(sensors@),
                readings@,
            );
            assert(directive@.actions =~= c.1.actions);
            assert(self@.last_directive == Some(directive@));
        }
        directive
    }

    /// Decides on the level and the actions of an instance, from what chance
    /// decides. A disabled engine leaves them alone.
    pub fn decide_drawn(
        &mut self,
        state: &StateVector,
        traditional_level: i32,
        instance: &Instance,
        sensors: &Vec<Sensor>,
        decision: &DecisionReadings,
        readings: &Vec<Vec<i32>>,
        draws: &Draws,
    ) -> (r: AIDirective)
        requires
            old(self)@.wf(),
            old(self)@.detector.profile_manager.last_check_ms <= decision.profile.now_ms,
            instance@.threshold.trig.len() <= i32::MAX,
            readings@.len() == instance@.actions.len(),
            readings_ordered(instance@.actions, readings@),
            draws.valid(),
        ensures
            !old(self)@.enabled ==> final(self)@ == old(self)@ && r@ == (DirectiveView {
                level: traditional_level,
                actions: instance@.actions,
            }),
            old(self)@.enabled ==> (final(self)@, r@) == old(self)@.decided(
                *state,
                *decision,
                old(self)@.proposal(*state, *decision, *draws),
                traditional_level,
                instance@,
                sensor_views(sensors@),
                readings@,
            ),
            final(self)@.wf(),
            final(self)@.detector.profile_manager.last_check_ms <= decision.profile.now_ms,
    {
        if !self.enabled {
            let actions = copy_actions(&instance.actions, 0, instance.actions.len());
            assert(action_views(actions@) =~= instance@.actions);
            return AIDirective { level: traditional_level, actions };
        }
        let seen = self.observe(state, decision);
        let array = array_of(&seen);
        let proposal: u8 = self.q_table.select_drawn(&array, draws);
        let ghost ready = self@;
        let r = self.decide_with(&seen, proposal, traditional_level, instance, sensors, readings);
        proof {
            let e = old(self)@.observed(*state, *decision);
            assert(ready == EngineView { q_table: e.q_table.ticked(), ..e });
        }
        r
    }

    /// Decides on the level and the actions of an instance. A disabled engine
    /// leaves them alone.
    pub fn decide_action(
        &mut self,
        state: &StateVector,
        traditional_level: i32,
        instance: &Instance,
        sensors: &Vec<Sensor>,
        decision: &DecisionReadings,
        readings: &Vec<Vec<i32>>,
    ) -> (r: AIDirective)
        requires
            old(self)@.wf(),
            old(self)@.detector.profile_manager.last_check_ms <= decision.profile.now_ms,
            instance@.threshold.trig.len() <= i32::MAX,
            readings@.len() == instance@.actions.len(),
            readings_ordered(instance@.actions, readings@),
        ensures
            !old(self)@.enabled ==> final(self)@ == old(self)@ && r@ == (DirectiveView {
                level: traditional_level,
                actions: instance@.actions,
            }),
            old(self)@.enabled ==> exists|draws: Draws|
                draws.valid() && (final(self)@, r@) == old(self)@.decided(
                    *state,
                    *decision,
                    #[trigger] old(self)@.proposal(*state, *decision, draws),
                    traditional_level,
                    instance@,
                    sensor_views(sensors@),
                    readings@,
                ),
            final(self)@.wf(),
            final(self)@.detector.profile_manager.last_check_ms <= decision.profile.now_ms,
    {
        let draws = Draws::draw();
        self.decide_drawn(
            state,
            traditional_level,
            instance,
            sensors,
            decision,
            readings,
            &draws,
        )
    }

    /// Ends a tick: learns from the last decision. Returns what is to be written.
    pub fn end_tick(&mut self, sensors: &Vec<Sensor>, device: &DeviceReadings) -> (r: TickOutcome)
        requires
            old(self)@.wf(),
            sensors@.len() <= MAX_SENSOR_COUNT,
        ensures
            final(self)@ == old(self)@.ended(sensor_views(sensors@), device@),
            r == (if old(self)@.enabled && old(self)@.has_decision() {
                TickOutcome {
                    flush_due: final(self)@.collector.full(),
                    save_due: final(self)@.tick_count % SAVE_INTERVAL_TICKS == 0,
                }
            } else {
                TickOutcome { flush_due: false, save_due: false }
            }),
            final(self)@.wf(),
    {
        let mut outcome = TickOutcome { flush_due: false, save_due: false };
        if !self.enabled {
            return outcome;
        }
        match (self.last_state, self.last_action) {
            (Some(last_state), Some(last_action)) => {
                let prev_level: i32 = self.last_traditional_level;
                let max_level: i32 = if self.last_max_level > 1 {
                    self.last_max_level
                } else {
                    1
                };
                let instance = blank_instance();
                let next_state = self.feature_extractor.extract(
                    sensors,
                    &instance,
                    prev_level,
                    device,
                );
                let new_level: i32 = match &self.last_directive {
                    Some(d) => d.level,
                    None => action_to_level(last_action, prev_level, max_level),
                };
                let reward: i128 = self.reward_calculator.compute_reward(
                    &last_state,
                    prev_level,
                    new_level,
                );
                let array = array_of(&last_state);
                let next_array = array_of(&next_state);
                self.q_table.update(&array, last_action, reward, &next_array);
                outcome.flush_due = self.data_collector.record(&last_state, last_action, reward);
                self.tick_count = count_up(self.tick_count);
                outcome.save_due = self.tick_count % SAVE_INTERVAL_TICKS == 0;
            },
            _ => {},
        }
        self.last_state = None;
        self.last_directive = None;
        self.last_action = None;
        outcome
    }
}

// ---------------------------------------------------------------------------
// Laws
// ---------------------------------------------------------------------------

/// While a processor is above its limit, no decision lets an action pass that
/// the safety monitor rejects: the carried out action is safe or the fixed
/// replacement.
pub proof fn law_unsafe_proposals_are_replaced(e: EngineView, proposal: u8, s: Seq<SensorView>)
    ensures
        action_safe(e.safety.current_workload, e.safe_action(proposal, s), s) || e.safe_action(
            proposal,
            s,
        ) == 3,
{
}

/// The engine proposes from its own table, in the state with the classified
/// workload: the drawn action where it explores, else an action that the table
/// values most.
pub proof fn law_engine_follows_its_table(
    e: EngineView,
    state: StateVector,
    decision: DecisionReadings,
    d: Draws,
)
    requires
        d.valid(),
    ensures
        ({
            let seen = state_array(e.observed(state, decision).classified(state));
            let action = e.proposal(state, decision, d);
            &&& d.share >= e.q_table.ticked().epsilon ==> e.q_table.is_best(seen, action)
            &&& d.share < e.q_table.ticked().epsilon ==> action == d.action
            &&& action < NUM_ACTIONS
        }),
{
    law_proposals_follow_the_table(
        e.q_table,
        state_array(e.observed(state, decision).classified(state)),
        d,
    );
}

/// A disabled engine leaves the instance alone: once the circuit breaker opens,
/// the decision is the level of the configured controller and its own actions.
pub proof fn law_breaker_falls_back(
    e: EngineView,
    state: StateVector,
    proposal: u8,
    trad_level: i32,
    instance: InstanceView,
    s: Seq<SensorView>,
    readings: Seq<Vec<i32>>,
)
    requires
        e.checked(proposal, s).tripped(e.tick_count),
    ensures
        ({
            let (next, d) = e.concluded(state, proposal, trad_level, instance, s, readings);
            !next.enabled && d.level == trad_level && d.actions == instance.actions
        }),
{
}

/// The weights of an engine start another one with the same values.
pub proof fn law_saved_weights_return(
    e: EngineView,
    sconfig_available: bool,
    now_ms: u64,
    state: Seq<i64>,
    action: u8,
)
    requires
        e.q_table.tile_coding == fresh_table().tile_coding,
        e.q_table.wf(),
    ensures
        fresh_engine(Some(e.q_table.weights), sconfig_available, now_ms).q_table.weights
            == e.q_table.weights,
        fresh_engine(Some(e.q_table.weights), sconfig_available, now_ms).q_table.q(state, action)
            == e.q_table.q(state, action),
{
    law_weights_carry_values(e.q_table, fresh_table(), state, action);
}

/// A decided level is a level of the instance.
pub proof fn law_decided_level_in_range(action: u8, trad_level: i32, max_level: i32)
    ensures
        0 <= level_of(action, trad_level, max_level) <= upper_of(max_level as int, 1),
{
    if action <= 9 {
        law_lerp_monotone(action, action, 0, upper_of(max_level as int, 1) as i32);
    }
}

/// The frequency of an action lies as far between the lowest and the highest frequency as the
/// action lies between 0 and 9, rounded down; an action beyond 9 is the highest.
pub proof fn law_frequency_divides_the_range(action: u8, readings: Seq<i32>, hi: i32, lo: i32)
    requires
        readings.len() >= 2,
        readings[0] == hi,
        readings[1] == lo,
        0 < lo < hi,
    ensures
        action <= 9 ==> 9 * (direct_freq(action, readings) - lo) <= action * (hi - lo) < 9 * (
        direct_freq(action, readings) - lo) + 9,
        action >= 9 ==> direct_freq(action, readings) == hi,
{
    let span = hi - lo;
    let x = action * span;
    assert(action <= 9 ==> 0 <= x <= 9 * span) by (nonlinear_arith)
        requires
            x == action * span,
            span > 0,
            action >= 0,
    ;
    assert(action >= 9 ==> x >= 9 * span) by (nonlinear_arith)
        requires
            x == action * span,
            span > 0,
    ;
    assert(x / 9 * 9 <= x < x / 9 * 9 + 9);
    assert(upper_of(hi - lo, 1) == span);
}

/// Without a highest frequency it is taken to be 3 GHz, and without a lowest one that is
/// taken to be a tenth of the highest.
pub proof fn law_missing_frequencies(action: u8, hi: i32)
    requires
        hi >= 10,
    ensures
        direct_freq(action, Seq::empty()) == direct_freq(action, seq![3_000_000i32, 300_000i32]),
        direct_freq(action, seq![hi]) == direct_freq(action, seq![hi, (hi / 10) as i32]),
        direct_freq(action, seq![hi, 0i32]) == direct_freq(action, seq![hi, (hi / 10) as i32]),
        direct_freq(action, seq![0i32, hi]) == direct_freq(action, seq![3_000_000i32, hi]),
{
}

/// What an action writes by its type: a core is switched off by action 0 alone, the graphics
/// processor is released from action 2 on, charge currents without a value of their own take
/// what is read, or a default, and everything else writes its own value.
pub proof fn law_direct_values(a: ActionView, action: u8, readings: Seq<i32>)
    ensures
        a.type_ == ActionType::CpuFreq ==> direct_value(a, action, readings) == direct_freq(
            action,
            readings,
        ),
        a.type_ == ActionType::CpuHotplug ==> (direct_value(a, action, readings) == 0 <==> action
            == 0) && direct_value(a, action, readings) <= 1,
        a.type_ == ActionType::GpuBoost && action < 2 ==> direct_value(a, action, readings) == 0,
        a.type_ == ActionType::GpuBoost && action >= 2 ==> direct_value(a, action, readings)
            == 1_100_000_000,
        (a.type_ == ActionType::Bcl || a.type_ == ActionType::Fcc) && a.value != 0 ==> direct_value(
            a,
            action,
            readings,
        ) == a.value,
        (a.type_ == ActionType::Bcl || a.type_ == ActionType::Fcc) && a.value == 0
            && readings.len() > 0 && readings[0] > 0 ==> direct_value(a, action, readings)
            == readings[0],
        a.type_ == ActionType::Bcl && a.value == 0 && readings.len() == 0 ==> direct_value(
            a,
            action,
            readings,
        ) == 5_000_000,
        a.type_ == ActionType::Fcc && a.value == 0 && readings.len() == 0 ==> direct_value(
            a,
            action,
            readings,
        ) == 6_000_000,
        a.type_ != ActionType::CpuFreq && a.type_ != ActionType::CpuHotplug && a.type_
            != ActionType::GpuBoost && a.value != 0 ==> direct_value(a, action, readings)
            == a.value,
        a.type_ == ActionType::Brightness || a.type_ == ActionType::MaxBrightness
            || a.type_ == ActionType::Boost || a.type_ == ActionType::CpuLimits ==> direct_value(
            a,
            action,
            readings,
        ) == a.value,
{
}

/// A processor action reads the highest and then the lowest frequency of its target; a charge
/// current that has no value of its own reads the node of its kind.
pub proof fn law_direct_probes(a: ActionView)
    ensures
        a.type_ == ActionType::CpuFreq ==> direct_probes(a) == seq![
            cpufreq_path(a.target, "cpuinfo_max_freq"@),
            cpufreq_path(a.target, "cpuinfo_min_freq"@),
        ],
        a.type_ == ActionType::Bcl && a.value == 0 ==> direct_probes(a) == seq![
            "/sys/class/power_supply/battery/constant_charge_current"@,
        ],
        a.type_ == ActionType::Fcc && a.value == 0 ==> direct_probes(a) == seq![
            "/sys/class/power_supply/battery/constant_charge_current_max"@,
        ],
        a.type_ != ActionType::CpuFreq && a.value != 0 ==> direct_probes(a).len() == 0,
{
}

/// The actions are shared out evenly among the levels, level 0 among them: each level has as
/// many as all can have, one level after the other.
pub proof fn law_levels_share_the_actions(n_levels: int, level: int, per: int, rest: int)
    requires
        0 <= level <= n_levels,
        0 <= per,
        0 <= rest <= n_levels,
    ensures
        level_range(per * (n_levels + 1) + rest, n_levels, level) == (
            level * per,
            (level + 1) * per,
        ),
{
    let k = n_levels + 1;
    let n = per * k + rest;
    assert(n / k == per) by {
        vstd::arithmetic::div_mod::lemma_fundamental_div_mod_converse(n, k, per, rest);
    }
    assert((level + 1) * per == level * per + per) by (nonlinear_arith);
    assert((level + 1) * per <= k * per) by (nonlinear_arith)
        requires
            level + 1 <= k,
            0 <= per,
    ;
    assert(k * per == per * k) by (nonlinear_arith);
}

/// A directive carries the actions of its level, with new values and nothing else changed.
pub proof fn law_directive_actions(
    actions: Seq<ActionView>,
    readings: Seq<Vec<i32>>,
    action: u8,
    from: int,
    to: int,
    k: int,
)
    requires
        0 <= from <= k < to <= actions.len(),
        i32::MIN <= direct_value(actions[k], action, readings[k]@) <= i32::MAX,
    ensures
        direct_actions(actions, readings, action, from, to).len() == to - from,
        direct_actions(actions, readings, action, from, to)[k - from].type_ == actions[k].type_,
        direct_actions(actions, readings, action, from, to)[k - from].target == actions[k].target,
        direct_actions(actions, readings, action, from, to)[k - from].value == direct_value(
            actions[k],
            action,
            readings[k]@,
        ),
{
    assert(from + (k - from) == k);
}

/// A greater action stands for a lower level: action 9 for level 0, action 0 for the highest,
/// the others in equal steps between them, rounded down. Beyond 9 the level of the configured
/// controller stands, within the levels.
pub proof fn law_level_of_action(action: u8, trad_level: i32, max_level: i32)
    requires
        max_level >= 1,
    ensures
        action <= 9 ==> 9 * level_of(action, trad_level, max_level) <= max_level * (9 - action)
            < 9 * level_of(action, trad_level, max_level) + 9,
        action > 9 && 0 <= trad_level <= max_level ==> level_of(action, trad_level, max_level)
            == trad_level,
        action > 9 && trad_level < 0 ==> level_of(action, trad_level, max_level) == 0,
        action > 9 && trad_level > max_level ==> level_of(action, trad_level, max_level)
            == max_level,
{
    if action <= 9 {
        crate::ai::law_lerp_steps(action, 0, max_level);
        crate::ai::law_lerp_steps((9 - action) as u8, 0, max_level);
        assert(max_level * (9 - action) == max_level * ((9 - action) as u8));
    }
}

/// A proposal is carried out where it is safe, and replaced by action 3 where it is not; the
/// replacement is checked as well.
pub proof fn law_safe_proposals_pass(e: EngineView, proposal: u8, s: Seq<SensorView>)
    ensures
        ({
            let safe = action_safe(e.safety.current_workload, proposal, s);
            let once = e.safety.recorded(!cpu_over(s), e.tick_count);
            &&& safe ==> e.safe_action(proposal, s) == proposal && e.checked(proposal, s) == once
            &&& !safe ==> e.safe_action(proposal, s) == 3 && e.checked(proposal, s)
                == once.recorded(!cpu_over(s), e.tick_count)
        }),
{
}

/// What a decision remembers: the state, the carried out action, the directive that was given
/// out and the level of the configured controller.
pub proof fn law_decision_is_kept(
    e: EngineView,
    state: StateVector,
    proposal: u8,
    trad_level: i32,
    instance: InstanceView,
    s: Seq<SensorView>,
    readings: Seq<Vec<i32>>,
)
    requires
        !e.checked(proposal, s).tripped(e.tick_count),
        instance.threshold.trig.len() <= i32::MAX,
    ensures
        ({
            let (next, d) = e.concluded(state, proposal, trad_level, instance, s, readings);
            let action = e.safe_action(proposal, s);
            let n = instance.threshold.trig.len() as int;
            let range = level_range(instance.actions.len() as int, n, d.level as int);
            &&& next.last_state == Some(state)
            &&& next.last_action == Some(action)
            &&& next.last_directive == Some(d)
            &&& next.last_traditional_level == trad_level
            &&& next.last_max_level == n
            &&& next.safety == e.checked(proposal, s)
            &&& next.enabled == e.enabled
            &&& next.tick_count == e.tick_count
            &&& d.level == level_of(action, trad_level, n as i32)
            &&& d.actions == direct_actions(
                instance.actions,
                readings,
                action,
                range.0,
                range.1,
            )
        }),
{
}

/// The workload is classified by the load, the graphics frequency and whether the screen is
/// more on than off; safety, rewards and state follow the class.
pub proof fn law_workload_is_observed(e: EngineView, state: StateVector, r: DecisionReadings)
    ensures
        ({
            let load = LoadReading {
                cpu_load: state.cpu_load,
                gpu_freq_ratio: r.gpu_freq_ratio,
                screen_on: 2 * state.screen_on > 1_000_000,
            };
            let mode = e.detector.detected(load, r.profile).last_mode;
            let after = e.observed(state, r);
            &&& after.detector == e.detector.detected(load, r.profile)
            &&& after.safety.current_workload == mode
            &&& after.rewards.current_workload == mode
            &&& after.safety.recent == e.safety.recent
            &&& after.safety.open == e.safety.open
            &&& after.classified(state).workload_mode == mode.normalized()
            &&& after.classified(state).t_cpu_max == state.t_cpu_max
            &&& after.q_table == e.q_table
        }),
{
}

/// The reward of a decision compares the level that was given out with that of the
/// configured controller, in the state in which it was made.
pub proof fn law_reward_compares_the_levels(e: EngineView, state: StateVector, d: DirectiveView)
    requires
        e.last_state == Some(state),
        e.last_directive == Some(d),
    ensures
        e.last_reward() == reward_of(
            e.rewards.current_workload,
            state,
            e.last_traditional_level,
            d.level,
        ),
{
}

/// At the end of a tick the table learns, from the state and the action of the decision, its
/// reward and the state that followed; the experience is collected and the tick counted. The
/// decision is over then. A disabled engine does nothing, and without a decision nothing is
/// learned.
pub proof fn law_tick_ends(
    e: EngineView,
    s: Seq<SensorView>,
    device: DeviceView,
    state: StateVector,
    action: u8,
)
    requires
        e.tick_count < u64::MAX,
    ensures
        !e.enabled ==> e.ended(s, device) == e,
        e.enabled ==> ({
            let after = e.ended(s, device);
            &&& after.last_state is None && after.last_action is None
            &&& after.last_directive is None
            &&& after.safety == e.safety
        }),
        e.enabled && e.last_state is None ==> e.ended(s, device).q_table == e.q_table
            && e.ended(s, device).tick_count == e.tick_count,
        e.enabled && e.last_state == Some(state) && e.last_action == Some(action) ==> ({
            let after = e.ended(s, device);
            let next = e.extractor.state(s, 0, e.last_traditional_level, device);
            &&& after.tick_count == e.tick_count + 1
            &&& after.q_table == e.q_table.learned(
                state_array(state),
                action,
                e.last_reward(),
                state_array(next),
            )
            &&& after.collector == e.collector.recorded(state, action, e.last_reward())
        }),
{
}

/// A fresh engine is enabled, has decided and counted nothing, and takes saved weights only
/// where there are as many as its table has.
pub proof fn law_fresh_engine(w: Seq<i64>, sconfig_available: bool, now_ms: u64)
    ensures
        ({
            let e = fresh_engine(Some(w), sconfig_available, now_ms);
            &&& e.enabled && e.tick_count == 0 && e.last_action is None && e.last_state is None
            &&& e.disabled_reason is None
            &&& w.len() == 262_144 ==> e.q_table.weights == w
            &&& w.len() != 262_144 ==> e.q_table.weights == fresh_engine(
                None,
                sconfig_available,
                now_ms,
            ).q_table.weights
            &&& e.safety.recent.len() == 0 && !e.safety.open
        }),
{
}

/// A decision ticks the table once and is kept with the state in which the workload was
/// classified; the monitor and the rewards are those of that workload.
pub proof fn law_decision_is_made_in_the_classified_state(
    e: EngineView,
    state: StateVector,
    r: DecisionReadings,
    proposal: u8,
    trad_level: i32,
    instance: InstanceView,
    s: Seq<SensorView>,
    readings: Seq<Vec<i32>>,
)
    ensures
        ({
            let (next, d) = e.decided(state, r, proposal, trad_level, instance, s, readings);
            let seen = e.observed(state, r);
            let mode = seen.detector.last_mode;
            &&& next.q_table == e.q_table.ticked()
            &&& next.detector == seen.detector
            &&& next.rewards.current_workload == mode
            &&& next.safety == seen.checked(proposal, s)
            &&& next.tick_count == e.tick_count
            &&& !next.safety.tripped(e.tick_count) ==> next.last_state == Some(
                StateVector { workload_mode: mode.normalized(), ..state },
            ) && next.last_action == Some(seen.safe_action(proposal, s))
        }),
{
}

/// A controller that the circuit breaker has disabled says after how many violations.
pub proof fn law_breaker_reason(n: u32)
    ensures
        breaker_reason(n) == "disabled after "@ + show(n as int) + " safety violations"@,
{
}

/// Readings are in order where every processor that is limited reads a lowest frequency that
/// is not above its highest.
pub proof fn law_readings_in_order(actions: Seq<ActionView>, readings: Seq<Vec<i32>>)
    ensures
        (forall|k: int|
            0 <= k < actions.len() && (#[trigger] actions[k]).type_ == ActionType::CpuFreq
                ==> readings[k]@.len() >= 2 && 0 < readings[k]@[1] <= readings[k]@[0])
            ==> readings_ordered(actions, readings),
        (forall|k: int|
            0 <= k < actions.len() ==> (#[trigger] actions[k]).type_ != ActionType::CpuFreq)
            ==> readings_ordered(actions, readings),
{
}

} // verus!
