//! The controller that learns to run the hardware on its own: a table of action
//! values for each channel group of each scenario, a safety layer, and charge
//! protection.

use std::collections::HashMap;

use vstd::prelude::*;
#[allow(unused_imports)]
use vstd::std_specs::hash::into_iter;

use crate::ai::channels::{
    apply_grouped_actions, confirm_write, discover_hardware_channels, enrich_from_config,
    find_channel, ChannelGroup, ChannelWrite, CoolingChannel, GroupActions, HardwareReadings,
};
#[allow(unused_imports)]
use crate::ai::channels::{
    all_steppable, channel_at, channel_views, channels_after, confirmed, enriched,
    hardware_channels, law_group_names_round_trip, lemma_channel_at,
    lemma_channel_views_update, steppable, stepped, write_views, writes_for, ChannelView, WriteView,
};
use crate::ai::charging::{
    charge_current, heating_rate, status_charges, type_is_fast, ChargeReadings, NO_CHARGE_TEMP,
    SLOW_CHARGE_CURRENT,
};
#[allow(unused_imports)]
use crate::ai::charging::{
    allowed_current, is_charging, is_fast_charger, ladder_current, next_rate, RATE_LIMIT,
};
use crate::ai::data_collector::DataCollector;
#[allow(unused_imports)]
use crate::ai::data_collector::{fresh_collector, CollectorView, DATA_DIR};
use crate::ai::engine::{blank_instance, breaker_message, SAVE_INTERVAL_TICKS};
#[allow(unused_imports)]
use crate::ai::engine::{breaker_reason, text_view};
use crate::ai::features::{array_of, DeviceReadings, FeatureExtractor, StateVector};
#[allow(unused_imports)]
use crate::ai::features::{fresh_extractor, state_array, ExtractorView, MAX_SENSOR_COUNT};
use crate::ai::qtable::{Draws, QTable};
#[allow(unused_imports)]
use crate::ai::qtable::{
    fresh_table, law_proposals_follow_the_table, law_weights_carry_values, proposal_of, QView,
    NUM_ACTIONS,
};
use crate::ai::rewards::RewardCalculator;
#[allow(unused_imports)]
use crate::ai::rewards::group_reward_of;
use crate::ai::safety::SafetyMonitor;
#[allow(unused_imports)]
use crate::ai::safety::{
    action_safe, cpu_over, fresh_monitor, law_breaker_recovers, lemma_recorded_up_to, SafetyView,
};
use crate::ai::workload::{
    count_up, LoadReading, ProfileReading, WorkloadDetector, WorkloadMode,
};
#[allow(unused_imports)]
use crate::ai::workload::{counted, fresh_detector};
use crate::ai::ONE;
use crate::arith::div_trunc;
#[allow(unused_imports)]
use crate::arith::{lower_of, magnitude, trunc_div, upper_of};
#[allow(unused_imports)]
use crate::config::blocks_of;
use crate::text::{chars_of, ends_with, int_text, join, parse_int, piece, starts_with};
#[allow(unused_imports)]
use crate::text::{has_prefix, has_suffix, int_of, law_show_then_parse, show};
use crate::types::Sensor;
#[allow(unused_imports)]
use crate::types::{sensor_views, SensorView};

verus! {

// ---------------------------------------------------------------------------
// The battery temperature ladder
// ---------------------------------------------------------------------------

/// The greatest action that a battery temperature allows, in tenths of a degree.
pub open spec fn ladder_action(mode: WorkloadMode, t: int) -> u8 {
    match mode {
        WorkloadMode::Benchmark => if t < 415 {
            9
        } else if t < 435 {
            8
        } else if t < 460 {
            6
        } else {
            5
        },
        WorkloadMode::PerfGaming => if t < 380 {
            9
        } else if t < 400 {
            8
        } else if t < 420 {
            7
        } else if t < 440 {
            6
        } else {
            5
        },
        WorkloadMode::Gaming => if t < 360 {
            9
        } else if t < 380 {
            8
        } else if t < 400 {
            7
        } else if t < 420 {
            6
        } else {
            5
        },
        WorkloadMode::Moderate => if t < 360 {
            9
        } else if t < 380 {
            8
        } else if t < 400 {
            7
        } else if t < 410 {
            6
        } else if t < 420 {
            4
        } else if t < 450 {
            3
        } else {
            2
        },
        _ => if t < 340 {
            9
        } else if t < 360 {
            8
        } else if t < 380 {
            7
        } else if t < 400 {
            6
        } else if t < 430 {
            4
        } else if t < 450 {
            2
        } else {
            0
        },
    }
}

/// The first rung whose bound the temperature is still under; the last rung has
/// no bound.
fn rung(t: i32, bounds: &[i32], actions: &[u8]) -> (r: u8)
    requires
        actions@.len() == bounds@.len() + 1,
    ensures
        exists|k: int|
            0 <= k <= bounds@.len() && r == #[trigger] actions@[k] && (k < bounds@.len() ==> t
                < bounds@[k]) && (forall|j: int| 0 <= j < k ==> t >= #[trigger] bounds@[j]),
{
    let mut k: usize = 0;
    while k < bounds.len() && t >= bounds[k]
        invariant
            k <= bounds@.len(),
            actions@.len() == bounds@.len() + 1,
            forall|j: int| 0 <= j < k ==> t >= #[trigger] bounds@[j],
        decreases bounds@.len() - k,
    {
        k += 1;
    }
    assert(actions@[k as int] == actions[k as int]);
    actions[k]
}

pub fn action_for_battery_temp(mode: WorkloadMode, batt_temp: i32) -> (r: u8)
    ensures
        r == ladder_action(mode, batt_temp as int),
{
    match mode {
        WorkloadMode::Benchmark => rung(batt_temp, &[415, 435, 460], &[9, 8, 6, 5]),
        WorkloadMode::PerfGaming => rung(batt_temp, &[380, 400, 420, 440], &[9, 8, 7, 6, 5]),
        WorkloadMode::Gaming => rung(batt_temp, &[360, 380, 400, 420], &[9, 8, 7, 6, 5]),
        WorkloadMode::Moderate => rung(
            batt_temp,
            &[360, 380, 400, 410, 420, 450],
            &[9, 8, 7, 6, 4, 3, 2],
        ),
        _ => rung(batt_temp, &[340, 360, 380, 400, 430, 450], &[9, 8, 7, 6, 4, 2, 0]),
    }
}

/// A hotter battery never allows a greater action.
pub proof fn law_ladder_falls_with_heat(mode: WorkloadMode, a: int, b: int)
    requires
        a <= b,
    ensures
        ladder_action(mode, b) <= ladder_action(mode, a) <= 9,
{
}

/// From moderate load on, a heavier workload never allows a smaller action at
/// the same temperature; idle and light load are treated alike.
pub proof fn law_ladder_rises_with_load(t: int)
    ensures
        ladder_action(WorkloadMode::Idle, t) == ladder_action(WorkloadMode::Light, t),
        ladder_action(WorkloadMode::Moderate, t) <= ladder_action(WorkloadMode::Gaming, t),
        ladder_action(WorkloadMode::Gaming, t) <= ladder_action(WorkloadMode::PerfGaming, t),
        ladder_action(WorkloadMode::PerfGaming, t) <= ladder_action(WorkloadMode::Benchmark, t),
{
}

// ---------------------------------------------------------------------------
// Scenario models
// ---------------------------------------------------------------------------

/// The action values of each group.
#[derive(Debug)]
pub struct GroupTables {
    pub compute: QTable,
    pub thermal: QTable,
    pub charging: QTable,
    pub display: QTable,
}

pub struct TablesView {
    pub compute: QView,
    pub thermal: QView,
    pub charging: QView,
    pub display: QView,
}

impl View for GroupTables {
    type V = TablesView;

    open spec fn view(&self) -> TablesView {
        TablesView {
            compute: self.compute@,
            thermal: self.thermal@,
            charging: self.charging@,
            display: self.display@,
        }
    }
}

pub open spec fn fresh_tables() -> TablesView {
    TablesView {
        compute: fresh_table(),
        thermal: fresh_table(),
        charging: fresh_table(),
        display: fresh_table(),
    }
}

impl TablesView {
    pub open spec fn wf(self) -> bool {
        self.compute.wf() && self.thermal.wf() && self.charging.wf() && self.display.wf()
    }

    pub open spec fn of(self, group: ChannelGroup) -> QView {
        match group {
            ChannelGroup::Compute => self.compute,
            ChannelGroup::Thermal => self.thermal,
            ChannelGroup::Charging => self.charging,
            ChannelGroup::Display => self.display,
        }
    }

    pub open spec fn with(self, group: ChannelGroup, t: QView) -> TablesView {
        match group {
            ChannelGroup::Compute => TablesView { compute: t, ..self },
            ChannelGroup::Thermal => TablesView { thermal: t, ..self },
            ChannelGroup::Charging => TablesView { charging: t, ..self },
            ChannelGroup::Display => TablesView { display: t, ..self },
        }
    }

    /// The tables after each has selected an action.
    pub open spec fn ticked(self) -> TablesView {
        TablesView {
            compute: self.compute.ticked(),
            thermal: self.thermal.ticked(),
            charging: self.charging.ticked(),
            display: self.display.ticked(),
        }
    }

    /// The actions that the tables propose in a state, each from its own draws.
    pub open spec fn proposals(self, state: Seq<i64>, d: GroupDraws) -> GroupActions {
        GroupActions {
            compute: proposal_of(self.compute, state, d.compute),
            thermal: proposal_of(self.thermal, state, d.thermal),
            charging: proposal_of(self.charging, state, d.charging),
            display: proposal_of(self.display, state, d.display),
        }
    }

    /// The table of a group after learning that its action led from one state to
    /// another.
    pub open spec fn group_learned(
        self,
        group: ChannelGroup,
        mode: WorkloadMode,
        from: StateVector,
        actions: GroupActions,
        to: StateVector,
    ) -> QView {
        self.of(group).learned(
            state_array(from),
            actions.of(group),
            group_reward_of(mode, from, group, actions.of(group) as i32),
            state_array(to),
        )
    }

    /// The tables after every group has learned from its own action.
    pub open spec fn learned(
        self,
        mode: WorkloadMode,
        from: StateVector,
        actions: GroupActions,
        to: StateVector,
    ) -> TablesView {
        TablesView {
            compute: self.group_learned(ChannelGroup::Compute, mode, from, actions, to),
            thermal: self.group_learned(ChannelGroup::Thermal, mode, from, actions, to),
            charging: self.group_learned(ChannelGroup::Charging, mode, from, actions, to),
            display: self.group_learned(ChannelGroup::Display, mode, from, actions, to),
        }
    }
}

/// What chance decides in a tick, for each group.
#[derive(Debug, Clone, Copy, PartialEq, Eq, Structural)]
pub struct GroupDraws {
    pub compute: Draws,
    pub thermal: Draws,
    pub charging: Draws,
    pub display: Draws,
}

impl GroupDraws {
    pub open spec fn valid(self) -> bool {
        self.compute.valid() && self.thermal.valid() && self.charging.valid()
            && self.display.valid()
    }

    pub open spec fn of(self, group: ChannelGroup) -> Draws {
        match group {
            ChannelGroup::Compute => self.compute,
            ChannelGroup::Thermal => self.thermal,
            ChannelGroup::Charging => self.charging,
            ChannelGroup::Display => self.display,
        }
    }

    /// Draws everything anew.
    pub fn draw() -> (r: Self)
        ensures
            r.valid(),
    {
        GroupDraws {
            compute: Draws::draw(),
            thermal: Draws::draw(),
            charging: Draws::draw(),
            display: Draws::draw(),
        }
    }
}

impl GroupTables {
    pub fn new() -> (r: Self)
        ensures
            r@ == fresh_tables(),
            r@.wf(),
    {
        GroupTables {
            compute: QTable::new(),
            thermal: QTable::new(),
            charging: QTable::new(),
            display: QTable::new(),
        }
    }

    pub fn get(&self, group: ChannelGroup) -> (r: &QTable)
        ensures
            r@ == self@.of(group),
    {
        match group {
            ChannelGroup::Compute => &self.compute,
            ChannelGroup::Thermal => &self.thermal,
            ChannelGroup::Charging => &self.charging,
            ChannelGroup::Display => &self.display,
        }
    }

    fn set_weights(&mut self, group: ChannelGroup, weights: &Vec<i64>) -> (r: bool)
        requires
            old(self)@.wf(),
        ensures
            r == (weights@.len() == old(self)@.of(group).weights.len()),
            final(self)@ == (if r {
                old(self)@.with(group, QView { weights: weights@, ..old(self)@.of(group) })
            } else {
                old(self)@
            }),
            final(self)@.wf(),
    {
        let r = match group {
            ChannelGroup::Compute => self.compute.set_weights(weights),
            ChannelGroup::Thermal => self.thermal.set_weights(weights),
            ChannelGroup::Charging => self.charging.set_weights(weights),
            ChannelGroup::Display => self.display.set_weights(weights),
        };
        r.is_some()
    }

    /// Lets each table select an action from its own draws.
    pub fn select_with(&mut self, state: &Vec<i64>, draws: &GroupDraws) -> (r: GroupActions)
        requires
            old(self)@.wf(),
            draws.valid(),
        ensures
            final(self)@ == old(self)@.ticked(),
            final(self)@.wf(),
            r == old(self)@.proposals(state@, *draws),
    {
        let compute: u8 = self.compute.select_drawn(state, &draws.compute);
        let thermal: u8 = self.thermal.select_drawn(state, &draws.thermal);
        let charging: u8 = self.charging.select_drawn(state, &draws.charging);
        let display: u8 = self.display.select_drawn(state, &draws.display);
        GroupActions { compute, thermal, charging, display }
    }

    fn learn(
        &mut self,
        calculator: &RewardCalculator,
        from: &StateVector,
        actions: &GroupActions,
        to: &StateVector,
    )
        requires
            old(self)@.wf(),
        ensures
            final(self)@ == old(self)@.learned(
                calculator.current_workload,
                *from,
                *actions,
                *to,
            ),
            final(self)@.wf(),
    {
        let a = array_of(from);
        let b = array_of(to);
        let reward: i128 = calculator.compute_group_reward(
            from,
            ChannelGroup::Compute,
            actions.compute as i32,
        );
        self.compute.update(&a, actions.compute, reward, &b);
        let reward: i128 = calculator.compute_group_reward(
            from,
            ChannelGroup::Thermal,
            actions.thermal as i32,
        );
        self.thermal.update(&a, actions.thermal, reward, &b);
        let reward: i128 = calculator.compute_group_reward(
            from,
            ChannelGroup::Charging,
            actions.charging as i32,
        );
        self.charging.update(&a, actions.charging, reward, &b);
        let reward: i128 = calculator.compute_group_reward(
            from,
            ChannelGroup::Display,
            actions.display as i32,
        );
        self.display.update(&a, actions.display, reward, &b);
    }
}

/// What has been learned in a scenario.
#[derive(Debug)]
pub struct ScenarioModel {
    pub tables: GroupTables,
    pub tick_count: u64,
    pub last_state: Option<StateVector>,
    pub last_actions: Option<GroupActions>,
    pub action_stability: i64,
    pub ticks_same_action: u64,
}

pub struct ModelView {
    pub tables: TablesView,
    pub tick_count: u64,
    pub last_state: Option<StateVector>,
    pub last_actions: Option<GroupActions>,
    pub action_stability: i64,
    pub ticks_same_action: u64,
}

impl View for ScenarioModel {
    type V = ModelView;

    open spec fn view(&self) -> ModelView {
        ModelView {
            tables: self.tables@,
            tick_count: self.tick_count,
            last_state: self.last_state,
            last_actions: self.last_actions,
            action_stability: self.action_stability,
            ticks_same_action: self.ticks_same_action,
        }
    }
}

pub open spec fn fresh_model() -> ModelView {
    ModelView {
        tables: fresh_tables(),
        tick_count: 0,
        last_state: None,
        last_actions: None,
        action_stability: 0,
        ticks_same_action: 0,
    }
}

impl ScenarioModel {
    pub fn new() -> (r: Self)
        ensures
            r@ == fresh_model(),
            r@.tables.wf(),
    {
        ScenarioModel {
            tables: GroupTables::new(),
            tick_count: 0,
            last_state: None,
            last_actions: None,
            action_stability: 0,
            ticks_same_action: 0,
        }
    }
}

pub open spec fn model_views(m: Map<i32, ScenarioModel>) -> Map<i32, ModelView> {
    m.map_values(|x: ScenarioModel| x@)
}

/// The model of a scenario; a scenario without one starts afresh.
pub open spec fn model_of(m: Map<i32, ModelView>, scenario: i32) -> ModelView {
    if m.contains_key(scenario) {
        m[scenario]
    } else {
        fresh_model()
    }
}

/// Every model is sound.
pub open spec fn models_wf(m: Map<i32, ModelView>) -> bool {
    forall|k: i32| m.contains_key(k) ==> (#[trigger] m[k]).tables.wf()
}

// ---------------------------------------------------------------------------
// The controller
// ---------------------------------------------------------------------------

/// What a tick reads besides the sensors.
pub struct TickReadings<'a> {
    pub device: DeviceReadings,
    pub gpu_freq_ratio: i64,
    pub profile: ProfileReading<'a>,
    /// The brightness of the display channel.
    pub brightness: i32,
    /// The battery temperature, in tenths of a degree.
    pub batt_temp: i32,
}

/// What is to be done after a tick.
#[derive(Debug)]
pub struct TickReport {
    /// The controller has decided on actions.
    pub acted: bool,
    pub writes: Vec<ChannelWrite>,
    /// The experience log is to be flushed.
    pub flush_due: bool,
    /// The learned weights are to be saved.
    pub save_due: bool,
}

pub struct ReportView {
    pub acted: bool,
    pub writes: Seq<WriteView>,
    pub flush_due: bool,
    pub save_due: bool,
}

impl View for TickReport {
    type V = ReportView;

    open spec fn view(&self) -> ReportView {
        ReportView {
            acted: self.acted,
            writes: write_views(self.writes@),
            flush_due: self.flush_due,
            save_due: self.save_due,
        }
    }
}

/// The report of a tick in which nothing happens.
pub open spec fn idle_report() -> ReportView {
    ReportView { acted: false, writes: Seq::empty(), flush_due: false, save_due: false }
}

#[derive(Debug)]
pub struct NativeController {
    pub channels: Vec<CoolingChannel>,
    pub models: HashMap<i32, ScenarioModel>,
    pub current_scenario: i32,
    pub feature_extractor: FeatureExtractor,
    pub reward_calculator: RewardCalculator,
    pub safety_monitor: SafetyMonitor,
    pub data_collector: DataCollector,
    pub workload_detector: WorkloadDetector,
    pub enabled: bool,
    pub disabled_reason: Option<String>,
    /// The battery temperature of the last tick, where that tick measured one.
    pub last_charge_temp: i32,
    pub charge_max_val: i32,
    /// The smoothed heating rate of the battery.
    pub charge_rate: i64,
    pub sustained_load_ticks: u64,
    pub idle_load_ticks: u64,
    /// Ticks over all scenarios.
    pub global_tick_count: u64,
}

pub struct NativeView {
    pub channels: Seq<ChannelView>,
    pub models: Map<i32, ModelView>,
    pub current_scenario: i32,
    pub extractor: ExtractorView,
    pub rewards: RewardCalculator,
    pub safety: SafetyView,
    pub collector: CollectorView,
    pub detector: WorkloadDetector,
    pub enabled: bool,
    pub disabled_reason: Option<Seq<char>>,
    pub last_charge_temp: i32,
    pub charge_max_val: i32,
    pub charge_rate: i64,
    pub sustained_load_ticks: u64,
    pub idle_load_ticks: u64,
    pub global_tick_count: u64,
}

impl View for NativeController {
    type V = NativeView;

    open spec fn view(&self) -> NativeView {
        NativeView {
            channels: channel_views(self.channels@),
            models: model_views(self.models@),
            current_scenario: self.current_scenario,
            extractor: self.feature_extractor@,
            rewards: self.reward_calculator,
            safety: self.safety_monitor@,
            collector: self.data_collector@,
            detector: self.workload_detector,
            enabled: self.enabled,
            disabled_reason: text_view(self.disabled_reason),
            last_charge_temp: self.last_charge_temp,
            charge_max_val: self.charge_max_val,
            charge_rate: self.charge_rate,
            sustained_load_ticks: self.sustained_load_ticks,
            idle_load_ticks: self.idle_load_ticks,
            global_tick_count: self.global_tick_count,
        }
    }
}

/// The share of one that an action of a group stands for.
pub open spec fn action_share(actions: Option<GroupActions>, group: ChannelGroup) -> i64 {
    match actions {
        Some(a) => (a.of(group) * 1_000_000 / 9) as i64,
        None => 0,
    }
}

/// The position of the first channel of a group, or the number of channels.
pub open spec fn group_at(c: Seq<ChannelView>, group: ChannelGroup) -> int
    decreases c.len(),
{
    if c.len() == 0 || c[0].group == group {
        0
    } else {
        1 + group_at(c.skip(1), group)
    }
}

/// A value as a share of a maximum.
pub open spec fn share_of(value: int, max: int) -> i64 {
    trunc_div(value * 1_000_000, upper_of(max, 1)) as i64
}

/// The position of a workload between 0 and one. Both kinds of gaming count the
/// same here.
pub open spec fn native_mode_share(mode: WorkloadMode) -> i64 {
    match mode {
        WorkloadMode::Idle => 0,
        WorkloadMode::Light => 250_000,
        WorkloadMode::Moderate => 500_000,
        WorkloadMode::Gaming | WorkloadMode::PerfGaming => 750_000,
        WorkloadMode::Benchmark => 1_000_000,
    }
}

/// The run of loaded ticks. An idle tick breaks a run that has not lasted for
/// three ticks; a run that has is only cleared by the third idle tick.
pub open spec fn next_load(sustained: u64, idle: u64, cpu_load: i64) -> (u64, u64) {
    if cpu_load > 440_000 {
        (lower_of(sustained + 1, 100) as u64, 0)
    } else {
        let idle = counted(idle);
        if sustained < 3 || idle >= 3 {
            (0, idle)
        } else {
            (sustained, idle)
        }
    }
}

/// Is the load heavy? It has lasted for three ticks, or the workload says so.
pub open spec fn is_heavy_load(sustained: u64, mode: WorkloadMode) -> bool {
    sustained >= 3 || mode == WorkloadMode::Gaming || mode == WorkloadMode::PerfGaming || mode
        == WorkloadMode::Benchmark
}

/// The action that a group carries out in place of a proposed one: an unsafe one
/// is replaced, heavy load calls for full performance of the compute group, and
/// the battery temperature caps them all.
pub open spec fn carried_out(
    mode: WorkloadMode,
    group: ChannelGroup,
    proposal: u8,
    heavy: bool,
    batt_temp: i32,
    s: Seq<SensorView>,
) -> u8 {
    let safe = if action_safe(mode, proposal, s) {
        proposal
    } else {
        3
    };
    let raised = if group == ChannelGroup::Compute && heavy && safe < 9 {
        9
    } else {
        safe
    };
    let cap = ladder_action(mode, batt_temp as int);
    if batt_temp >= 0 && cap < raised {
        cap
    } else {
        raised
    }
}

impl NativeView {
    pub open spec fn wf(self) -> bool {
        &&& models_wf(self.models)
        &&& self.extractor.wf()
        &&& self.collector.wf()
        &&& self.safety.up_to(self.global_tick_count as int)
        &&& self.charge_max_val >= 0
        &&& magnitude(self.charge_rate as int) <= RATE_LIMIT
    }

    pub open spec fn model(self) -> ModelView {
        model_of(self.models, self.current_scenario)
    }

    /// The controller after the charge protection of a tick, and the current to
    /// be set, if any.
    pub open spec fn charge_protected(self, r: ChargeReadings) -> (NativeView, Option<i32>) {
        if !is_charging(r.status) {
            (self.without_rate(), None)
        } else if !is_fast_charger(r.usb_type) {
            (
                self.without_rate().with_charge_current(SLOW_CHARGE_CURRENT),
                Some(SLOW_CHARGE_CURRENT),
            )
        } else if r.batt_temp < 0 {
            (NativeView { last_charge_temp: NO_CHARGE_TEMP, ..self }, None)
        } else {
            let rate = next_rate(
                self.charge_rate as int,
                self.last_charge_temp as int,
                r.batt_temp as int,
            );
            let current = allowed_current(
                self.charge_max_val as int,
                r.batt_temp as int,
                rate,
            ) as i32;
            (
                NativeView {
                    last_charge_temp: r.batt_temp,
                    charge_rate: rate as i64,
                    ..self.with_charge_current(current)
                },
                Some(current),
            )
        }
    }

    /// The controller after a change of the scenario, and whether the weights are to be
    /// saved first.
    pub open spec fn switched(self, scenario: i32) -> (NativeView, bool) {
        if scenario != self.current_scenario && self.enabled {
            (NativeView { current_scenario: scenario, ..self }, true)
        } else {
            (self, false)
        }
    }

    /// The controller before it has measured how fast the battery heats.
    pub open spec fn without_rate(self) -> NativeView {
        NativeView { last_charge_temp: NO_CHARGE_TEMP, charge_rate: 0, ..self }
    }

    /// The controller with the value of its charge channel replaced.
    pub open spec fn with_charge_current(self, current: i32) -> NativeView {
        let i = channel_at(self.channels, "charge_current"@);
        if i < self.channels.len() {
            NativeView {
                channels: self.channels.update(
                    i,
                    ChannelView { value: current, ..self.channels[i] },
                ),
                ..self
            }
        } else {
            self
        }
    }

    /// The controller at the start of a tick. A disabled one keeps counting
    /// emergencies, and enables itself once the circuit breaker has closed.
    pub open spec fn awake(self, s: Seq<SensorView>) -> NativeView {
        let tick = counted(self.global_tick_count);
        if self.enabled {
            NativeView { global_tick_count: tick, ..self }
        } else {
            let safety = self.safety.recorded(!cpu_over(s), tick);
            if safety.tripped(tick) || self.channels.len() == 0 {
                NativeView { global_tick_count: tick, safety, ..self }
            } else {
                NativeView {
                    global_tick_count: tick,
                    safety,
                    enabled: true,
                    disabled_reason: None,
                    ..self
                }
            }
        }
    }

    /// The load that the workload is classified by.
    pub open spec fn load_reading(self, s: Seq<SensorView>, r: TickReadings) -> LoadReading {
        let base = self.extractor.state(s, 0, 0i32, r.device@);
        LoadReading {
            cpu_load: base.cpu_load,
            gpu_freq_ratio: r.gpu_freq_ratio,
            screen_on: base.screen_on > 500_000,
        }
    }

    /// The workload detector after a tick.
    pub open spec fn classified(self, s: Seq<SensorView>, r: TickReadings) -> WorkloadDetector {
        self.detector.detected(self.load_reading(s, r), r.profile)
    }

    /// The state of a tick.
    pub open spec fn tick_state(self, s: Seq<SensorView>, r: TickReadings) -> StateVector {
        let base = self.extractor.state(s, 0, 0i32, r.device@);
        let m = self.model();
        let display = group_at(self.channels, ChannelGroup::Display);
        let charge = channel_at(self.channels, "charge_current"@);
        StateVector {
            last_action_compute: action_share(m.last_actions, ChannelGroup::Compute),
            last_action_thermal: action_share(m.last_actions, ChannelGroup::Thermal),
            last_action_charging: action_share(m.last_actions, ChannelGroup::Charging),
            last_action_display: action_share(m.last_actions, ChannelGroup::Display),
            last_action: action_share(m.last_actions, ChannelGroup::Compute),
            action_stability: m.action_stability,
            gpu_freq_ratio: r.gpu_freq_ratio,
            brightness_ratio: if display < self.channels.len() {
                share_of(upper_of(r.brightness as int, 0), self.channels[display].max_val as int)
            } else {
                0
            },
            charge_current_ratio: if charge < self.channels.len() {
                share_of(
                    self.channels[charge].value as int,
                    self.channels[charge].max_val as int,
                )
            } else {
                0
            },
            workload_mode: native_mode_share(self.classified(s, r).last_mode),
            ..base
        }
    }

    /// The controller once the state of a tick is known.
    pub open spec fn prepared(self, s: Seq<SensorView>, r: TickReadings) -> NativeView {
        let m = self.model();
        let detector = self.classified(s, r);
        let (sustained, idle) = next_load(
            self.sustained_load_ticks,
            self.idle_load_ticks,
            self.tick_state(s, r).cpu_load,
        );
        NativeView {
            models: self.models.insert(
                self.current_scenario,
                ModelView { tick_count: counted(m.tick_count), ..m },
            ),
            extractor: self.extractor.after(s, 0i32, r.device@),
            detector,
            safety: SafetyView { current_workload: detector.last_mode, ..self.safety },
            rewards: RewardCalculator { current_workload: detector.last_mode },
            sustained_load_ticks: sustained,
            idle_load_ticks: idle,
            ..self
        }
    }

    /// The controller after the circuit breaker has opened.
    pub open spec fn tripped_off(self) -> NativeView {
        NativeView {
            enabled: false,
            disabled_reason: Some(breaker_reason(self.safety.violations())),
            ..self
        }
    }

    /// The controller after each table has selected an action.
    pub open spec fn selected(self) -> NativeView {
        let m = self.model();
        NativeView {
            models: self.models.insert(
                self.current_scenario,
                ModelView { tables: m.tables.ticked(), ..m },
            ),
            ..self
        }
    }

    /// The actions that are carried out in place of proposed ones.
    pub open spec fn actions_for(
        self,
        proposals: GroupActions,
        batt_temp: i32,
        s: Seq<SensorView>,
    ) -> GroupActions {
        let mode = self.detector.last_mode;
        let heavy = is_heavy_load(self.sustained_load_ticks, mode);
        GroupActions {
            compute: carried_out(
                mode,
                ChannelGroup::Compute,
                proposals.compute,
                heavy,
                batt_temp,
                s,
            ),
            thermal: carried_out(
                mode,
                ChannelGroup::Thermal,
                proposals.thermal,
                heavy,
                batt_temp,
                s,
            ),
            charging: carried_out(
                mode,
                ChannelGroup::Charging,
                proposals.charging,
                heavy,
                batt_temp,
                s,
            ),
            display: carried_out(
                mode,
                ChannelGroup::Display,
                proposals.display,
                heavy,
                batt_temp,
                s,
            ),
        }
    }

    /// The safety monitor after the proposals of all groups are checked.
    pub open spec fn checked(self, s: Seq<SensorView>) -> SafetyView {
        let tick = self.global_tick_count;
        let safe = !cpu_over(s);
        self.safety.recorded(safe, tick).recorded(safe, tick).recorded(safe, tick).recorded(
            safe,
            tick,
        )
    }

    /// The model after a decision: it has learned from the last one, and keeps
    /// this one.
    pub open spec fn model_after(self, state: StateVector, actions: GroupActions) -> ModelView {
        let m = self.model();
        let same = match m.last_actions {
            Some(a) => a.compute == actions.compute,
            None => false,
        };
        let ticks = if same {
            counted(m.ticks_same_action)
        } else {
            0
        };
        ModelView {
            tables: match (m.last_state, m.last_actions) {
                (Some(from), Some(a)) => m.tables.learned(
                    self.rewards.current_workload,
                    from,
                    a,
                    state,
                ),
                _ => m.tables,
            },
            last_state: Some(state),
            last_actions: Some(actions),
            ticks_same_action: ticks,
            action_stability: lower_of(ticks * 10_000, 1_000_000) as i64,
            ..m
        }
    }

    /// The collector after a decision: the experience of the compute group.
    pub open spec fn collector_after(self) -> CollectorView {
        let m = self.model();
        match (m.last_state, m.last_actions) {
            (Some(from), Some(a)) => self.collector.recorded(
                from,
                a.compute,
                group_reward_of(
                    self.rewards.current_workload,
                    from,
                    ChannelGroup::Compute,
                    a.compute as i32,
                ),
            ),
            _ => self.collector,
        }
    }

    /// The controller after a decision on proposed actions, and what is to be
    /// done.
    pub open spec fn concluded(
        self,
        state: StateVector,
        proposals: GroupActions,
        batt_temp: i32,
        s: Seq<SensorView>,
    ) -> (NativeView, ReportView) {
        let actions = self.actions_for(proposals, batt_temp, s);
        let m = self.model();
        let n = self.channels.len() as int;
        let collector = self.collector_after();
        (
            NativeView {
                safety: self.checked(s),
                models: self.models.insert(
                    self.current_scenario,
                    self.model_after(state, actions),
                ),
                channels: channels_after(self.channels, actions, s, n),
                collector,
                ..self
            },
            ReportView {
                acted: true,
                writes: writes_for(self.channels, actions, s, n),
                flush_due: m.last_state is Some && m.last_actions is Some && collector.full(),
                save_due: m.tick_count % SAVE_INTERVAL_TICKS == 0,
            },
        )
    }

    /// The controller after a tick in which the tables propose some actions, and
    /// what is to be done.
    pub open spec fn ticked(
        self,
        proposals: GroupActions,
        s: Seq<SensorView>,
        r: TickReadings,
    ) -> (NativeView, ReportView) {
        let awake = self.awake(s);
        if !awake.enabled {
            (awake, idle_report())
        } else {
            let ready = awake.prepared(s, r);
            if ready.safety.tripped(ready.global_tick_count) {
                (ready.tripped_off(), idle_report())
            } else {
                ready.selected().concluded(
                    awake.tick_state(s, r),
                    proposals,
                    r.batt_temp,
                    s,
                )
            }
        }
    }
}

impl NativeView {
    /// The actions that the tables of the current scenario propose in the state of
    /// a tick.
    pub open spec fn proposals(
        self,
        s: Seq<SensorView>,
        r: TickReadings,
        d: GroupDraws,
    ) -> GroupActions {
        let awake = self.awake(s);
        awake.prepared(s, r).model().tables.proposals(state_array(awake.tick_state(s, r)), d)
    }

    /// The controller after a tick with some draws, and what is to be done.
    pub open spec fn ticked_drawn(
        self,
        d: GroupDraws,
        s: Seq<SensorView>,
        r: TickReadings,
    ) -> (NativeView, ReportView) {
        self.ticked(self.proposals(s, r, d), s, r)
    }
}

fn share_value(value: i32, max: i32) -> (r: i64)
    ensures
        r == share_of(value as int, max as int),
{
    let top: i128 = if max > 1 {
        max as i128
    } else {
        1
    };
    div_trunc(value as i128 * 1_000_000, top) as i64
}

fn action_ratio(actions: &Option<GroupActions>, group: ChannelGroup) -> (r: i64)
    ensures
        r == action_share(*actions, group),
{
    match actions {
        Some(a) => (a.get(group) as i64 * 1_000_000) / 9,
        None => 0,
    }
}

fn idle_tick() -> (r: TickReport)
    ensures
        r@ == idle_report(),
{
    let writes: Vec<ChannelWrite> = Vec::new();
    assert(write_views(writes@) =~= Seq::empty());
    TickReport { acted: false, writes, flush_due: false, save_due: false }
}

fn find_group(channels: &Vec<CoolingChannel>, group: ChannelGroup) -> (r: Option<usize>)
    ensures
        match r {
            Some(i) => i < channels@.len() && i == group_at(channel_views(channels@), group),
            None => group_at(channel_views(channels@), group) == channels@.len(),
        },
{
    let ghost cv = channel_views(channels@);
    let mut i: usize = 0;
    assert(cv.skip(0) =~= cv);
    while i < channels.len()
        invariant
            i <= channels@.len(),
            cv == channel_views(channels@),
            group_at(cv, group) == i + group_at(cv.skip(i as int), group),
        decreases channels@.len() - i,
    {
        assert(cv[i as int] == channels@[i as int]@);
        assert(cv.skip(i as int)[0] == cv[i as int]);
        assert(cv.skip(i as int).skip(1) =~= cv.skip(i + 1));
        if channels[i].group == group {
            return Some(i);
        }
        i += 1;
    }
    None
}

impl NativeController {
    pub fn is_enabled(&self) -> (r: bool)
        ensures
            r == self@.enabled,
    {
        self.enabled
    }

    pub fn disabled_reason(&self) -> (r: Option<String>)
        ensures
            text_view(r) == self@.disabled_reason,
    {
        match &self.disabled_reason {
            Some(s) => Some(s.clone()),
            None => None,
        }
    }

    /// Takes the model of the current scenario out.
    fn take_model(&mut self) -> (r: ScenarioModel)
        requires
            old(self)@.wf(),
        ensures
            final(self)@ == (NativeView {
                models: old(self)@.models.remove(old(self)@.current_scenario),
                ..old(self)@
            }),
            r@ == old(self)@.model(),
            r@.tables.wf(),
    {
        broadcast use vstd::std_specs::hash::group_hash_axioms;

        let ghost before = self.models@;
        let scenario: i32 = self.current_scenario;
        let found = self.models.remove(&scenario);
        assert(model_views(self.models@) =~= model_views(before).remove(scenario));
        match found {
            Some(m) => {
                assert(model_views(before)[scenario] == m@);
                m
            },
            None => ScenarioModel::new(),
        }
    }

    /// Puts the model of a scenario in place of what it has learned so far.
    fn put_model(&mut self, scenario: i32, m: ScenarioModel)
        ensures
            final(self)@ == (NativeView {
                models: old(self)@.models.insert(scenario, m@),
                ..old(self)@
            }),
    {
        broadcast use vstd::std_specs::hash::group_hash_axioms;

        let ghost before = self.models@;
        self.models.insert(scenario, m);
        assert(model_views(self.models@) =~= model_views(before).insert(scenario, m@));
    }

    fn set_charge_value(&mut self, current: i32)
        ensures
            final(self)@ == old(self)@.with_charge_current(current),
    {
        match find_channel(&self.channels, "charge_current") {
            Some(i) => {
                let ghost before = self.channels@;
                self.channels[i].value = current;
                proof {
                    lemma_channel_views_update(before, i as int, self.channels@[i as int]);
                    assert(self.channels@ =~= before.update(
                        i as int,
                        self.channels@[i as int],
                    ));
                }
            },
            None => {},
        }
    }

    /// The charge current to be set, if any. It runs every tick, whether or not
    /// the controller is enabled.
    pub fn apply_charge_protection(&mut self, readings: &ChargeReadings) -> (r: Option<i32>)
        requires
            old(self)@.wf(),
        ensures
            (final(self)@, r) == old(self)@.charge_protected(*readings),
            final(self)@.wf(),
    {
        self.apply_temp_based_charge(readings)
    }

    fn apply_temp_based_charge(&mut self, readings: &ChargeReadings) -> (r: Option<i32>)
        requires
            old(self)@.wf(),
        ensures
            (final(self)@, r) == old(self)@.charge_protected(*readings),
            final(self)@.wf(),
    {
        if !status_charges(&readings.status) {
            self.last_charge_temp = NO_CHARGE_TEMP;
            self.charge_rate = 0;
            return None;
        }
        if !type_is_fast(&readings.usb_type) {
            self.last_charge_temp = NO_CHARGE_TEMP;
            self.charge_rate = 0;
            self.set_charge_value(SLOW_CHARGE_CURRENT);
            return Some(SLOW_CHARGE_CURRENT);
        }
        if readings.batt_temp < 0 {
            self.last_charge_temp = NO_CHARGE_TEMP;
            return None;
        }
        let rate: i64 = heating_rate(self.charge_rate, self.last_charge_temp, readings.batt_temp);
        let current: i32 = charge_current(self.charge_max_val, readings.batt_temp, rate);
        self.set_charge_value(current);
        self.last_charge_temp = readings.batt_temp;
        self.charge_rate = rate;
        Some(current)
    }

    /// Starts a tick.
    fn wake(&mut self, sensors: &Vec<Sensor>)
        requires
            old(self)@.wf(),
        ensures
            final(self)@ == old(self)@.awake(sensor_views(sensors@)),
            final(self)@.wf(),
    {
        self.global_tick_count = count_up(self.global_tick_count);
        if !self.enabled {
            let hazard: bool = self.safety_monitor.is_hazard(sensors);
            self.safety_monitor.record_check(!hazard, self.global_tick_count);
            let open: bool = self.safety_monitor.is_disabled(self.global_tick_count);
            if !open && self.channels.len() > 0 {
                self.enabled = true;
                self.disabled_reason = None;
            }
        }
    }

    /// The state of a tick, and the workload that it belongs to.
    fn prepare(&mut self, sensors: &Vec<Sensor>, readings: &TickReadings) -> (r: StateVector)
        requires
            old(self)@.wf(),
            sensors@.len() <= MAX_SENSOR_COUNT,
            old(self)@.detector.profile_manager.last_check_ms <= readings.profile.now_ms,
        ensures
            final(self)@ == old(self)@.prepared(sensor_views(sensors@), *readings),
            r == old(self)@.tick_state(sensor_views(sensors@), *readings),
            final(self)@.wf(),
            final(self)@.detector.profile_manager.last_check_ms <= readings.profile.now_ms,
    {
        let ghost s = sensor_views(sensors@);
        let ghost mv = self@.models;
        let scenario: i32 = self.current_scenario;
        let mut m = self.take_model();
        m.tick_count = count_up(m.tick_count);
        let last_actions = m.last_actions;
        let action_stability: i64 = m.action_stability;
        self.put_model(scenario, m);
        assert(self@.models =~= mv.insert(scenario, m@));

        let instance = blank_instance();
        let mut state = self.feature_extractor.extract(sensors, &instance, 0, &readings.device);
        state.last_action_compute = action_ratio(&last_actions, ChannelGroup::Compute);
        state.last_action_thermal = action_ratio(&last_actions, ChannelGroup::Thermal);
        state.last_action_charging = action_ratio(&last_actions, ChannelGroup::Charging);
        state.last_action_display = action_ratio(&last_actions, ChannelGroup::Display);
        state.last_action = state.last_action_compute;
        state.action_stability = action_stability;
        state.gpu_freq_ratio = readings.gpu_freq_ratio;
        match find_group(&self.channels, ChannelGroup::Display) {
            Some(k) => {
                let brightness: i32 = if readings.brightness > 0 {
                    readings.brightness
                } else {
                    0
                };
                state.brightness_ratio = share_value(brightness, self.channels[k].max_val);
            },
            None => {},
        }
        match find_channel(&self.channels, "charge_current") {
            Some(k) => {
                state.charge_current_ratio = share_value(
                    self.channels[k].value,
                    self.channels[k].max_val,
                );
            },
            None => {},
        }

        if state.cpu_load > 440_000 {
            self.sustained_load_ticks = if self.sustained_load_ticks < 100 {
                self.sustained_load_ticks + 1
            } else {
                100
            };
            self.idle_load_ticks = 0;
        } else {
            self.idle_load_ticks = count_up(self.idle_load_ticks);
            if self.sustained_load_ticks < 3 || self.idle_load_ticks >= 3 {
                self.sustained_load_ticks = 0;
            }
        }

        let load = LoadReading {
            cpu_load: state.cpu_load,
            gpu_freq_ratio: readings.gpu_freq_ratio,
            screen_on: state.screen_on > 500_000,
        };
        let mode = self.workload_detector.detect_workload(load, &readings.profile);
        self.safety_monitor.set_workload_mode(mode);
        self.reward_calculator.set_workload_mode(mode);
        state.workload_mode = match mode {
            WorkloadMode::Idle => 0,
            WorkloadMode::Light => 250_000,
            WorkloadMode::Moderate => 500_000,
            WorkloadMode::Gaming | WorkloadMode::PerfGaming => 750_000,
            WorkloadMode::Benchmark => 1_000_000,
        };
        state
    }

    /// Lets the tables of the current scenario propose actions.
    fn select(&mut self, state: &StateVector, draws: &GroupDraws) -> (r: GroupActions)
        requires
            old(self)@.wf(),
            draws.valid(),
        ensures
            final(self)@ == old(self)@.selected(),
            final(self)@.wf(),
            r == old(self)@.model().tables.proposals(state_array(*state), *draws),
    {
        let ghost mv = self@.models;
        let scenario: i32 = self.current_scenario;
        let array = array_of(state);
        let mut m = self.take_model();
        let r = m.tables.select_with(&array, draws);
        self.put_model(scenario, m);
        assert(self@.models =~= mv.insert(scenario, m@));
        r
    }

    /// The action that a group carries out in place of a proposed one.
    fn group_action(
        &mut self,
        group: ChannelGroup,
        proposal: u8,
        heavy: bool,
        batt_temp: i32,
        sensors: &Vec<Sensor>,
    ) -> (r: u8)
        requires
            old(self)@.wf(),
        ensures
            r == carried_out(
                old(self)@.safety.current_workload,
                group,
                proposal,
                heavy,
                batt_temp,
                sensor_views(sensors@),
            ),
            final(self)@ == (NativeView {
                safety: old(self)@.safety.recorded(
                    !cpu_over(sensor_views(sensors@)),
                    old(self)@.global_tick_count,
                ),
                ..old(self)@
            }),
            final(self)@.wf(),
    {
        let mode = self.safety_monitor.current_workload;
        let safe: bool = self.safety_monitor.check_action(
            proposal,
            sensors,
            self.global_tick_count,
        );
        let mut action: u8 = if safe {
            proposal
        } else {
            3
        };
        if group == ChannelGroup::Compute && heavy && action < 9 {
            action = 9;
        }
        if batt_temp >= 0 {
            let cap: u8 = action_for_battery_temp(mode, batt_temp);
            if cap < action {
                action = cap;
            }
        }
        action
    }

    /// Learns from the last decision, and keeps this one.
    fn remember(&mut self, state: &StateVector, actions: &GroupActions) -> (r: (bool, bool))
        requires
            old(self)@.wf(),
        ensures
            final(self)@ == (NativeView {
                models: old(self)@.models.insert(
                    old(self)@.current_scenario,
                    old(self)@.model_after(*state, *actions),
                ),
                collector: old(self)@.collector_after(),
                ..old(self)@
            }),
            final(self)@.wf(),
            r.0 == (old(self)@.model().last_state is Some && old(
                self,
            )@.model().last_actions is Some && final(self)@.collector.full()),
            r.1 == (old(self)@.model().tick_count % SAVE_INTERVAL_TICKS == 0),
    {
        let ghost mv = self@.models;
        let ghost next = self@.model_after(*state, *actions);
        let scenario: i32 = self.current_scenario;
        let mut m = self.take_model();
        let last_state = m.last_state;
        let last_actions = m.last_actions;
        let mut flush_due: bool = false;
        match (last_state, last_actions) {
            (Some(from), Some(a)) => {
                m.tables.learn(&self.reward_calculator, &from, &a, state);
                let reward: i128 = self.reward_calculator.compute_group_reward(
                    &from,
                    ChannelGroup::Compute,
                    a.compute as i32,
                );
                flush_due = self.data_collector.record(&from, a.compute, reward);
            },
            _ => {},
        }
        let same: bool = match last_actions {
            Some(a) => a.compute == actions.compute,
            None => false,
        };
        let ticks: u64 = if same {
            count_up(m.ticks_same_action)
        } else {
            0
        };
        m.ticks_same_action = ticks;
        m.action_stability = if ticks < 100 {
            (ticks * 10_000) as i64
        } else {
            ONE
        };
        m.last_state = Some(*state);
        m.last_actions = Some(*actions);
        let save_due: bool = m.tick_count % SAVE_INTERVAL_TICKS == 0;
        assert(m@ == next);
        self.put_model(scenario, m);
        assert(self@.models =~= mv.insert(scenario, next));
        (flush_due, save_due)
    }

    /// Carries out a decision on proposed actions.
    pub fn conclude(
        &mut self,
        state: &StateVector,
        proposals: &GroupActions,
        batt_temp: i32,
        sensors: &Vec<Sensor>,
    ) -> (r: TickReport)
        requires
            old(self)@.wf(),
            all_steppable(old(self)@.channels, sensor_views(sensors@)),
            old(self)@.safety.current_workload == old(self)@.detector.last_mode,
        ensures
            (final(self)@, r@) == old(self)@.concluded(
                *state,
                *proposals,
                batt_temp,
                sensor_views(sensors@),
            ),
            final(self)@.wf(),
            all_steppable(final(self)@.channels, sensor_views(sensors@)),
    {
        let ghost before = self@;
        let ghost s = sensor_views(sensors@);
        let mode = self.workload_detector.last_mode;
        let heavy: bool = self.sustained_load_ticks >= 3 || match mode {
            WorkloadMode::Gaming | WorkloadMode::PerfGaming | WorkloadMode::Benchmark => true,
            _ => false,
        };
        let compute: u8 = self.group_action(
            ChannelGroup::Compute,
            proposals.compute,
            heavy,
            batt_temp,
            sensors,
        );
        let thermal: u8 = self.group_action(
            ChannelGroup::Thermal,
            proposals.thermal,
            heavy,
            batt_temp,
            sensors,
        );
        let charging: u8 = self.group_action(
            ChannelGroup::Charging,
            proposals.charging,
            heavy,
            batt_temp,
            sensors,
        );
        let display: u8 = self.group_action(
            ChannelGroup::Display,
            proposals.display,
            heavy,
            batt_temp,
            sensors,
        );
        let actions = GroupActions { compute, thermal, charging, display };
        assert(actions == before.actions_for(*proposals, batt_temp, s));
        let writes = apply_grouped_actions(&mut self.channels, &actions, sensors);
        assert(self@.model() == before.model());
        let (flush_due, save_due) = self.remember(state, &actions);
        proof {
            lemma_steppable_kept(before.channels, actions, s);
        }
        TickReport { acted: true, writes, flush_due, save_due }
    }

    /// One tick of the controller, from what chance decides. Each table proposes an
    /// action; the rest follows from the proposals and the readings.
    pub fn tick_drawn(
        &mut self,
        sensors: &Vec<Sensor>,
        readings: &TickReadings,
        draws: &GroupDraws,
    ) -> (r: TickReport)
        requires
            old(self)@.wf(),
            all_steppable(old(self)@.channels, sensor_views(sensors@)),
            sensors@.len() <= MAX_SENSOR_COUNT,
            old(self)@.detector.profile_manager.last_check_ms <= readings.profile.now_ms,
            draws.valid(),
        ensures
            (final(self)@, r@) == old(self)@.ticked_drawn(
                *draws,
                sensor_views(sensors@),
                *readings,
            ),
            final(self)@.wf(),
            all_steppable(final(self)@.channels, sensor_views(sensors@)),
            final(self)@.detector.profile_manager.last_check_ms <= readings.profile.now_ms,
    {
        let ghost s = sensor_views(sensors@);
        let ghost before = self@;
        let ghost proposed = before.proposals(s, *readings, *draws);
        self.wake(sensors);
        if !self.enabled {
            let r = idle_tick();
            assert((self@, r@) == before.ticked(proposed, s, *readings));
            return r;
        }
        let state = self.prepare(sensors, readings);
        if self.safety_monitor.is_disabled(self.global_tick_count) {
            self.enabled = false;
            self.disabled_reason = Some(breaker_message(self.safety_monitor.violations()));
            let r = idle_tick();
            assert((self@, r@) == before.ticked(proposed, s, *readings));
            return r;
        }
        let proposals = self.select(&state, draws);
        assert(proposals == proposed);
        let r = self.conclude(&state, &proposals, readings.batt_temp, sensors);
        assert((self@, r@) == before.ticked(proposals, s, *readings));
        r
    }

    /// One tick of the controller.
    pub fn tick(&mut self, sensors: &Vec<Sensor>, readings: &TickReadings) -> (r: TickReport)
        requires
            old(self)@.wf(),
            all_steppable(old(self)@.channels, sensor_views(sensors@)),
            sensors@.len() <= MAX_SENSOR_COUNT,
            old(self)@.detector.profile_manager.last_check_ms <= readings.profile.now_ms,
        ensures
            exists|draws: GroupDraws|
                draws.valid() && (final(self)@, r@) == #[trigger] old(self)@.ticked_drawn(
                    draws,
                    sensor_views(sensors@),
                    *readings,
                ),
            final(self)@.wf(),
            all_steppable(final(self)@.channels, sensor_views(sensors@)),
            final(self)@.detector.profile_manager.last_check_ms <= readings.profile.now_ms,
    {
        let draws = GroupDraws::draw();
        self.tick_drawn(sensors, readings, &draws)
    }

    /// Takes over the value of a write that was carried out.
    pub fn confirm(&mut self, w: &ChannelWrite, ok: bool)
        requires
            old(self)@.wf(),
            w.channel < old(self)@.channels.len(),
        ensures
            final(self)@ == (NativeView {
                channels: confirmed(old(self)@.channels, w@, ok),
                ..old(self)@
            }),
            final(self)@.wf(),
    {
        confirm_write(&mut self.channels, w, ok);
    }
}

proof fn lemma_steppable_kept(c: Seq<ChannelView>, actions: GroupActions, s: Seq<SensorView>)
    requires
        all_steppable(c, s),
    ensures
        all_steppable(channels_after(c, actions, s, c.len() as int), s),
{
    let after = channels_after(c, actions, s, c.len() as int);
    assert forall|i: int| 0 <= i < after.len() implies steppable(#[trigger] after[i], s) by {
        assert(steppable(c[i], s));
        assert(after[i] == stepped(c[i], actions.of(c[i].group), s).0);
    }
}

/// Charge protection leaves every channel as steppable as it was.
pub(crate) proof fn lemma_charge_keeps_steppable(
    c: NativeView,
    r: ChargeReadings,
    s: Seq<SensorView>,
)
    requires
        all_steppable(c.channels, s),
    ensures
        all_steppable(c.charge_protected(r).0.channels, s),
{
    let after = c.charge_protected(r).0.channels;
    lemma_channel_at(c.channels, "charge_current"@);
    assert forall|i: int| 0 <= i < after.len() implies steppable(#[trigger] after[i], s) by {
        assert(steppable(c.channels[i], s));
    }
}

// ---------------------------------------------------------------------------
// Start, scenarios and checkpoints
// ---------------------------------------------------------------------------

/// The saved table of a group.
#[derive(Debug)]
pub struct SavedGroup {
    pub name: String,
    pub epsilon: i64,
    pub weights: Vec<i64>,
}

pub struct SavedGroupView {
    pub name: Seq<char>,
    pub epsilon: i64,
    pub weights: Seq<i64>,
}

impl View for SavedGroup {
    type V = SavedGroupView;

    open spec fn view(&self) -> SavedGroupView {
        SavedGroupView { name: self.name@, epsilon: self.epsilon, weights: self.weights@ }
    }
}

/// The saved tables of a scenario.
#[derive(Debug)]
pub struct SavedScenario {
    pub scenario: i32,
    pub tick_count: u64,
    pub groups: Vec<SavedGroup>,
}

pub struct SavedView {
    pub scenario: i32,
    pub tick_count: u64,
    pub groups: Seq<SavedGroupView>,
}

pub open spec fn group_views(v: Seq<SavedGroup>) -> Seq<SavedGroupView> {
    v.map_values(|g: SavedGroup| g@)
}

impl View for SavedScenario {
    type V = SavedView;

    open spec fn view(&self) -> SavedView {
        SavedView {
            scenario: self.scenario,
            tick_count: self.tick_count,
            groups: group_views(self.groups@),
        }
    }
}

pub open spec fn saved_views(v: Seq<SavedScenario>) -> Seq<SavedView> {
    v.map_values(|s: SavedScenario| s@)
}

/// What is saved of a table.
pub open spec fn saved_group(t: TablesView, group: ChannelGroup) -> SavedGroupView {
    SavedGroupView {
        name: group.label(),
        epsilon: t.of(group).epsilon,
        weights: t.of(group).weights,
    }
}

pub open spec fn saved_groups(t: TablesView) -> Seq<SavedGroupView> {
    seq![
        saved_group(t, ChannelGroup::Compute),
        saved_group(t, ChannelGroup::Thermal),
        saved_group(t, ChannelGroup::Charging),
        saved_group(t, ChannelGroup::Display),
    ]
}

/// What is saved of the model of a scenario.
pub open spec fn saved_model(scenario: i32, m: ModelView) -> SavedView {
    SavedView {
        scenario,
        tick_count: m.tick_count,
        groups: saved_groups(m.tables),
    }
}

/// Is this what is saved of some models? Each is saved once, in any order.
pub open spec fn saves(saved: Seq<SavedView>, m: Map<i32, ModelView>) -> bool {
    &&& forall|i: int|
        0 <= i < saved.len() ==> m.contains_key((#[trigger] saved[i]).scenario) && saved[i]
            == saved_model(saved[i].scenario, m[saved[i].scenario])
    &&& forall|i: int, j: int|
        0 <= i < j < saved.len() ==> (#[trigger] saved[i]).scenario != (
        #[trigger] saved[j]).scenario
    &&& forall|k: i32| #[trigger]
        m.contains_key(k) ==> exists|i: int|
            0 <= i < saved.len() && (#[trigger] saved[i]).scenario == k
}

/// The tables after the first `n` saved groups are taken over, and how many were.
/// Unknown groups and weights that do not fit are left out.
pub open spec fn restored_tables(g: Seq<SavedGroupView>, n: int) -> (TablesView, int)
    decreases n,
{
    if n <= 0 {
        (fresh_tables(), 0)
    } else {
        let (t, loaded) = restored_tables(g, n - 1);
        match ChannelGroup::named(g[n - 1].name) {
            Some(group) => if g[n - 1].weights.len() == t.of(group).weights.len() {
                (t.with(group, QView { weights: g[n - 1].weights, ..fresh_table() }), loaded + 1)
            } else {
                (t, loaded)
            },
            None => (t, loaded),
        }
    }
}

/// The models after a saved scenario is taken over; one without usable weights
/// is left out.
pub open spec fn with_saved(m: Map<i32, ModelView>, saved: SavedView) -> Map<i32, ModelView> {
    let (tables, loaded) = restored_tables(saved.groups, saved.groups.len() as int);
    if loaded > 0 {
        m.insert(
            saved.scenario,
            ModelView { tables, tick_count: saved.tick_count, ..fresh_model() },
        )
    } else {
        m
    }
}

/// The models after the first `n` saved scenarios are taken over.
pub open spec fn with_all_saved(
    m: Map<i32, ModelView>,
    saved: Seq<SavedView>,
    n: int,
) -> Map<i32, ModelView>
    decreases n,
{
    if n <= 0 {
        m
    } else {
        with_saved(with_all_saved(m, saved, n - 1), saved[n - 1])
    }
}

/// A saved scenario comes back: its tables have their weights, and so their
/// values, its count goes on, and no other scenario is touched.
pub proof fn law_checkpoint_restores(
    models: Map<i32, ModelView>,
    scenario: i32,
    m: ModelView,
    group: ChannelGroup,
    state: Seq<i64>,
    action: u8,
    other: i32,
)
    requires
        forall|g: ChannelGroup|
            (#[trigger] m.tables.of(g)).wf() && m.tables.of(g).tile_coding
                == fresh_table().tile_coding,
    ensures
        ({
            let after = with_saved(models, saved_model(scenario, m));
            let back = model_of(after, scenario);
            &&& back.tick_count == m.tick_count
            &&& back.tables.of(group).weights == m.tables.of(group).weights
            &&& back.tables.of(group).q(state, action) == m.tables.of(group).q(state, action)
            &&& other != scenario ==> model_of(after, other) == model_of(models, other)
        }),
{
    let g = saved_model(scenario, m).groups;
    law_group_names_round_trip(ChannelGroup::Compute);
    law_group_names_round_trip(ChannelGroup::Thermal);
    law_group_names_round_trip(ChannelGroup::Charging);
    law_group_names_round_trip(ChannelGroup::Display);
    assert(m.tables.of(ChannelGroup::Compute).wf() && m.tables.of(ChannelGroup::Thermal).wf()
        && m.tables.of(ChannelGroup::Charging).wf() && m.tables.of(ChannelGroup::Display).wf());
    reveal_with_fuel(restored_tables, 5);
    let (tables, loaded) = restored_tables(g, 4);
    assert(loaded == 4);
    assert(tables.of(group).weights == m.tables.of(group).weights);
    law_weights_carry_values(m.tables.of(group), tables.of(group), state, action);
}

/// Saved scenarios leave the models of others alone.
proof fn lemma_others_saved(
    start: Map<i32, ModelView>,
    saved: Seq<SavedView>,
    i: int,
    n: int,
    scenario: i32,
)
    requires
        0 <= i <= n <= saved.len(),
        forall|k: int| i <= k < n ==> (#[trigger] saved[k]).scenario != scenario,
    ensures
        model_of(with_all_saved(start, saved, n), scenario) == model_of(
            with_all_saved(start, saved, i),
            scenario,
        ),
    decreases n - i,
{
    if i < n {
        lemma_others_saved(start, saved, i, n - 1, scenario);
    }
}

/// Whatever was learned comes back: once everything that is saved of some models is
/// taken over, each of their scenarios goes on with its count, its weights and its
/// values. A scenario that was not saved keeps what it has.
pub proof fn law_saved_models_come_back(
    m: Map<i32, ModelView>,
    saved: Seq<SavedView>,
    start: Map<i32, ModelView>,
    scenario: i32,
    group: ChannelGroup,
    state: Seq<i64>,
    action: u8,
)
    requires
        saves(saved, m),
        forall|g: ChannelGroup|
            (#[trigger] model_of(m, scenario).tables.of(g)).wf() && model_of(
                m,
                scenario,
            ).tables.of(g).tile_coding == fresh_table().tile_coding,
    ensures
        ({
            let back = model_of(with_all_saved(start, saved, saved.len() as int), scenario);
            if m.contains_key(scenario) {
                &&& back.tick_count == m[scenario].tick_count
                &&& back.tables.of(group).weights == m[scenario].tables.of(group).weights
                &&& back.tables.of(group).q(state, action) == m[scenario].tables.of(group).q(
                    state,
                    action,
                )
            } else {
                back == model_of(start, scenario)
            }
        }),
{
    let n = saved.len() as int;
    if m.contains_key(scenario) {
        let i = choose|i: int| 0 <= i < n && (#[trigger] saved[i]).scenario == scenario;
        lemma_others_saved(start, saved, i + 1, n, scenario);
        law_checkpoint_restores(
            with_all_saved(start, saved, i),
            scenario,
            m[scenario],
            group,
            state,
            action,
            scenario,
        );
    } else {
        lemma_others_saved(start, saved, 0, n, scenario);
    }
}

/// The channels of the hardware, under the PID controllers of the configuration.
pub open spec fn all_channels(hw: HardwareReadings, config: Option<&str>) -> Seq<ChannelView> {
    match config {
        Some(c) => enriched(hardware_channels(hw), blocks_of(c@)),
        None => hardware_channels(hw),
    }
}

/// The greatest charge current: that of the hardware where it has a charge
/// channel.
pub open spec fn initial_charge_max(hw: HardwareReadings) -> int {
    if hw.charge_current is Some && hw.charge_current_max > 0 {
        hw.charge_current_max as int
    } else {
        12_000_000
    }
}

/// The file of a scenario.
pub open spec fn checkpoint_file(scenario: i32) -> Seq<char> {
    DATA_DIR@ + "/"@ + checkpoint_name(scenario)
}

pub open spec fn checkpoint_name(scenario: i32) -> Seq<char> {
    "q_scenario_"@ + show(scenario as int) + ".json"@
}

/// The scenario of a checkpoint file, by its name.
pub open spec fn scenario_of(name: Seq<char>) -> Option<i32> {
    let front = "q_scenario_"@.len() as int;
    let back = ".json"@.len() as int;
    if has_prefix(name, "q_scenario_"@) && has_suffix(name, ".json"@) && front + back
        <= name.len() {
        int_of(name.subrange(front, name.len() - back))
    } else {
        None
    }
}

/// The file that a scenario is saved to.
pub fn checkpoint_path(scenario: i32) -> (r: String)
    ensures
        r@ == checkpoint_file(scenario),
{
    let dir = join(DATA_DIR, "/");
    let name = join("q_scenario_", int_text(scenario as i64).as_str());
    let name = join(name.as_str(), ".json");
    join(dir.as_str(), name.as_str())
}

/// The scenario of a file in the data directory, if it is a checkpoint.
pub fn checkpoint_scenario(name: &str) -> (r: Option<i32>)
    ensures
        r == scenario_of(name@),
{
    let v = chars_of(name);
    let front: usize = "q_scenario_".unicode_len();
    let back: usize = ".json".unicode_len();
    proof {
        reveal_strlit("q_scenario_");
        reveal_strlit(".json");
    }
    if starts_with(&v, "q_scenario_") && ends_with(&v, ".json") && v.len() >= front + back {
        let number = piece(&v, front, v.len() - back);
        parse_int(&number)
    } else {
        None
    }
}

/// A checkpoint is found again: the name of the file of a scenario gives the
/// scenario.
pub proof fn law_checkpoint_names_round_trip(scenario: i32)
    ensures
        scenario_of(checkpoint_name(scenario)) == Some(scenario),
{
    let a = "q_scenario_"@;
    let b = ".json"@;
    let n = show(scenario as int);
    let name = checkpoint_name(scenario);
    law_show_then_parse(scenario);
    assert(name.subrange(0, a.len() as int) =~= a);
    assert(name.subrange(name.len() - b.len(), name.len() as int) =~= b);
    assert(name.subrange(a.len() as int, name.len() - b.len()) =~= n);
    assert(has_prefix(name, a));
    assert(has_suffix(name, b));
}

impl NativeController {
    /// A controller of the hardware, with what was learned before. Without any
    /// writable channel it is disabled.
    pub fn new(
        hw: &HardwareReadings,
        config: Option<&str>,
        saved: &Vec<SavedScenario>,
        sconfig_available: bool,
        now_ms: u64,
    ) -> (r: Self)
        ensures
            r@.wf(),
            r@.channels == all_channels(*hw, config),
            r@.models == with_all_saved(Map::empty(), saved_views(saved@), saved@.len() as int),
            r@.current_scenario == 0,
            r@.extractor == fresh_extractor(),
            r@.rewards == (RewardCalculator { current_workload: WorkloadMode::Light }),
            r@.safety == fresh_monitor(),
            r@.collector == fresh_collector(),
            r@.detector == fresh_detector(sconfig_available, now_ms),
            r@.enabled == (r@.channels.len() > 0),
            r@.disabled_reason == (if r@.channels.len() > 0 {
                None
            } else {
                Some("no writable channels"@)
            }),
            r@.last_charge_temp == NO_CHARGE_TEMP,
            r@.charge_max_val == initial_charge_max(*hw),
            r@.charge_rate == 0,
            r@.sustained_load_ticks == 0,
            r@.idle_load_ticks == 0,
            r@.global_tick_count == 0,
    {
        let mut ctrl = NativeController {
            channels: Vec::new(),
            models: HashMap::new(),
            current_scenario: 0,
            feature_extractor: FeatureExtractor::new(),
            reward_calculator: RewardCalculator::new(),
            safety_monitor: SafetyMonitor::new(),
            data_collector: DataCollector::new(),
            workload_detector: WorkloadDetector::new(sconfig_available, now_ms),
            enabled: true,
            disabled_reason: None,
            last_charge_temp: NO_CHARGE_TEMP,
            charge_max_val: 12_000_000,
            charge_rate: 0,
            sustained_load_ticks: 0,
            idle_load_ticks: 0,
            global_tick_count: 0,
        };
        ctrl.init_channels(hw, config);
        assert(ctrl@.models =~= Map::empty());
        ctrl.load_persisted_tables(saved);
        if ctrl.channels.len() == 0 {
            ctrl.enabled = false;
            ctrl.disabled_reason = Some("no writable channels".to_string());
        }
        ctrl
    }

    /// Finds the channels of the hardware, and puts those under a PID controller
    /// that the configuration defines one for.
    pub fn init_channels(&mut self, hw: &HardwareReadings, config: Option<&str>)
        ensures
            final(self)@ == (NativeView {
                channels: all_channels(*hw, config),
                charge_max_val: if hw.charge_current is Some {
                    initial_charge_max(*hw) as i32
                } else {
                    old(self)@.charge_max_val
                },
                ..old(self)@
            }),
    {
        self.channels = discover_hardware_channels(hw);
        if hw.charge_current.is_some() {
            self.charge_max_val = if hw.charge_current_max > 0 {
                hw.charge_current_max
            } else {
                12_000_000
            };
        }
        match config {
            Some(c) => {
                enrich_from_config(&mut self.channels, c);
            },
            None => {},
        }
    }

    /// Takes over what was learned before.
    pub fn load_persisted_tables(&mut self, saved: &Vec<SavedScenario>)
        requires
            old(self)@.wf(),
        ensures
            final(self)@ == (NativeView {
                models: with_all_saved(
                    old(self)@.models,
                    saved_views(saved@),
                    saved@.len() as int,
                ),
                ..old(self)@
            }),
            final(self)@.wf(),
    {
        let ghost m0 = self@.models;
        let mut i: usize = 0;
        while i < saved.len()
            invariant
                i <= saved@.len(),
                self@ == (NativeView {
                    models: with_all_saved(m0, saved_views(saved@), i as int),
                    ..old(self)@
                }),
                self@.wf(),
            decreases saved@.len() - i,
        {
            assert(saved_views(saved@)[i as int] == saved@[i as int]@);
            self.restore(&saved[i]);
            i += 1;
        }
    }

    fn restore(&mut self, saved: &SavedScenario)
        requires
            old(self)@.wf(),
        ensures
            final(self)@ == (NativeView {
                models: with_saved(old(self)@.models, saved@),
                ..old(self)@
            }),
            final(self)@.wf(),
    {
        let ghost g = saved@.groups;
        let mut tables = GroupTables::new();
        let mut loaded: usize = 0;
        let mut i: usize = 0;
        while i < saved.groups.len()
            invariant
                i <= saved.groups@.len(),
                loaded <= i,
                tables@.wf(),
                g == group_views(saved.groups@),
                (tables@, loaded as int) == restored_tables(g, i as int),
                same_frame(tables@),
            decreases saved.groups@.len() - i,
        {
            let entry = &saved.groups[i];
            assert(g[i as int] == entry@);
            match ChannelGroup::from_name(entry.name.as_str()) {
                Some(group) => {
                    if tables.set_weights(group, &entry.weights) {
                        loaded += 1;
                    }
                },
                None => {},
            }
            i += 1;
        }
        if loaded == 0 {
            return;
        }
        let mut m = ScenarioModel::new();
        m.tables = tables;
        m.tick_count = saved.tick_count;
        self.put_model(saved.scenario, m);
    }

    /// What is to be saved of each scenario. The order is that in which the map is
    /// walked.
    pub fn save_checkpoint(&self) -> (r: Vec<SavedScenario>)
        ensures
            saves(saved_views(r@), self@.models),
    {
        broadcast use vstd::std_specs::hash::group_hash_axioms;

        let ghost m = self@.models;
        let mut out: Vec<SavedScenario> = Vec::new();
        let entries = self.models.iter();
        let ghost walk = into_iter(entries);
        for entry in it: entries
            invariant
                it.seq().unref() == walk,
                out@.len() == it.index(),
                forall|i: int|
                    0 <= i < out@.len() ==> (#[trigger] out@[i])@ == saved_model(
                        walk[i].0,
                        walk[i].1@,
                    ),
        {
            let (scenario, model) = entry;
            let s = SavedScenario {
                scenario: *scenario,
                tick_count: model.tick_count,
                groups: model.tables.all_saved(),
            };
            out.push(s);
        }
        proof {
            let r = saved_views(out@);
            assert forall|i: int| 0 <= i < r.len() implies m.contains_key(
                (#[trigger] r[i]).scenario,
            ) && r[i] == saved_model(r[i].scenario, m[r[i].scenario]) by {
                assert(r[i] == out@[i]@);
                assert(self.models@.contains_key(walk[i].0));
                assert(m[walk[i].0] == self.models@[walk[i].0]@);
            }
            assert forall|i: int, j: int| 0 <= i < j < r.len() implies (
            #[trigger] r[i]).scenario != (#[trigger] r[j]).scenario by {
                assert(r[i] == out@[i]@ && r[j] == out@[j]@);
                assert(self.models@[walk[i].0] == walk[i].1);
                assert(self.models@[walk[j].0] == walk[j].1);
                assert(walk[i] != walk[j]);
            }
            assert forall|k: i32| #[trigger] m.contains_key(k) implies exists|i: int|
                0 <= i < r.len() && (#[trigger] r[i]).scenario == k by {
                assert(self.models@.kv_pairs().contains((k, self.models@[k])));
                assert(walk.to_set().contains((k, self.models@[k])));
                let i = choose|i: int| 0 <= i < walk.len() && walk[i] == (k, self.models@[k]);
                assert(r[i] == out@[i]@);
                assert(r[i].scenario == k);
            }
        }
        out
    }

    /// Changes the scenario. Returns whether the weights are to be saved first:
    /// an enabled controller saves them whenever the scenario changes.
    pub fn switch_scenario(&mut self, new_idx: i32) -> (r: bool)
        ensures
            (final(self)@, r) == old(self)@.switched(new_idx),
    {
        if new_idx == self.current_scenario || !self.enabled {
            return false;
        }
        self.current_scenario = new_idx;
        true
    }

    /// The node of the display channel, whose brightness a tick reads.
    pub fn brightness_path(&self) -> (r: Option<String>)
        ensures
            match r {
                Some(p) => group_at(self@.channels, ChannelGroup::Display)
                    < self@.channels.len() && p@ == self@.channels[group_at(
                    self@.channels,
                    ChannelGroup::Display,
                )].path,
                None => group_at(self@.channels, ChannelGroup::Display) == self@.channels.len(),
            },
    {
        match find_group(&self.channels, ChannelGroup::Display) {
            Some(i) => Some(self.channels[i].path.clone()),
            None => None,
        }
    }
}

impl GroupTables {
    fn saved(&self, group: ChannelGroup) -> (r: SavedGroup)
        ensures
            r@ == saved_group(self@, group),
    {
        let t = self.get(group);
        let weights = t.weights().clone();
        assert(weights@ =~= t@.weights);
        SavedGroup { name: group.name(), epsilon: t.epsilon(), weights }
    }

    fn all_saved(&self) -> (r: Vec<SavedGroup>)
        ensures
            group_views(r@) == saved_groups(self@),
    {
        let mut v: Vec<SavedGroup> = Vec::new();
        v.push(self.saved(ChannelGroup::Compute));
        v.push(self.saved(ChannelGroup::Thermal));
        v.push(self.saved(ChannelGroup::Charging));
        v.push(self.saved(ChannelGroup::Display));
        assert(group_views(v@) =~= saved_groups(self@));
        v
    }
}

/// Every table is a fresh one but for its weights.
spec fn same_frame(t: TablesView) -> bool {
    &&& t.compute == (QView { weights: t.compute.weights, ..fresh_table() })
    &&& t.thermal == (QView { weights: t.thermal.weights, ..fresh_table() })
    &&& t.charging == (QView { weights: t.charging.weights, ..fresh_table() })
    &&& t.display == (QView { weights: t.display.weights, ..fresh_table() })
}

// ---------------------------------------------------------------------------
// Laws
// ---------------------------------------------------------------------------

/// No group ever carries out an action above what the battery temperature
/// allows.
pub proof fn law_battery_caps_every_group(
    c: NativeView,
    proposals: GroupActions,
    batt_temp: i32,
    s: Seq<SensorView>,
    group: ChannelGroup,
)
    requires
        batt_temp >= 0,
    ensures
        c.actions_for(proposals, batt_temp, s).of(group) <= ladder_action(
            c.detector.last_mode,
            batt_temp as int,
        ),
{
}

/// Every group proposes from its own table, in the state of the tick and the model of
/// the current scenario: the drawn action where it explores, else an action that
/// this table values most.
pub proof fn law_groups_follow_their_own_tables(
    c: NativeView,
    s: Seq<SensorView>,
    r: TickReadings,
    d: GroupDraws,
    group: ChannelGroup,
)
    requires
        d.valid(),
    ensures
        ({
            let table = c.model().tables.of(group);
            let state = state_array(c.awake(s).tick_state(s, r));
            let action = c.proposals(s, r, d).of(group);
            &&& action == proposal_of(table, state, d.of(group))
            &&& d.of(group).share >= table.ticked().epsilon ==> table.is_best(state, action)
            &&& d.of(group).share < table.ticked().epsilon ==> action == d.of(group).action
            &&& action < NUM_ACTIONS
        }),
{
    let awake = c.awake(s);
    law_proposals_follow_the_table(
        c.model().tables.of(group),
        state_array(awake.tick_state(s, r)),
        d.of(group),
    );
}

/// Heavy load gives the compute group full performance, as far as the battery
/// allows, whatever was proposed. It changes nothing for the other groups.
pub proof fn law_heavy_load_forces_compute(
    mode: WorkloadMode,
    proposal: u8,
    batt_temp: i32,
    s: Seq<SensorView>,
    group: ChannelGroup,
)
    requires
        proposal <= 9,
    ensures
        carried_out(mode, ChannelGroup::Compute, proposal, true, batt_temp, s) == (if batt_temp
            >= 0 {
            ladder_action(mode, batt_temp as int)
        } else {
            9
        }),
        group != ChannelGroup::Compute ==> carried_out(mode, group, proposal, true, batt_temp, s)
            == carried_out(mode, group, proposal, false, batt_temp, s),
{
    law_ladder_falls_with_heat(mode, batt_temp as int, batt_temp as int);
}

/// Without heavy load, an unsafe proposal is never carried out: it is replaced by
/// a fixed cooling action or one below it.
pub proof fn law_unsafe_actions_are_replaced(
    mode: WorkloadMode,
    group: ChannelGroup,
    proposal: u8,
    batt_temp: i32,
    s: Seq<SensorView>,
)
    requires
        !action_safe(mode, proposal, s),
    ensures
        carried_out(mode, group, proposal, false, batt_temp, s) <= 3,
{
}

/// Every tick advances the clock of the controller, even while it is disabled.
pub proof fn law_clock_always_advances(
    c: NativeView,
    proposals: GroupActions,
    s: Seq<SensorView>,
    r: TickReadings,
)
    ensures
        c.ticked(proposals, s, r).0.global_tick_count == counted(c.global_tick_count),
{
}

/// A controller that the circuit breaker disabled enables itself in the first
/// tick after the window has passed without an emergency.
pub proof fn law_controller_recovers(c: NativeView, s: Seq<SensorView>)
    requires
        c.channels.len() > 0,
        !cpu_over(s),
        c.safety.up_to(counted(c.global_tick_count) - 3600),
    ensures
        c.awake(s).enabled,
        !c.enabled ==> c.awake(s).disabled_reason is None,
{
    let tick = counted(c.global_tick_count);
    lemma_recorded_up_to(c.safety, true, tick, tick - 3600);
    law_breaker_recovers(c.safety.recorded(true, tick), tick);
}

/// A controller that the circuit breaker disabled stays so while the breaker is open.
pub proof fn law_open_breaker_keeps_disabled(c: NativeView, s: Seq<SensorView>)
    requires
        !c.enabled,
        c.safety.tripped(counted(c.global_tick_count)),
    ensures
        !c.awake(s).enabled,
{
}

/// The controller after `n` ticks, each with the proposals of its tables, its
/// temperatures and its readings.
pub open spec fn after_ticks(
    c: NativeView,
    proposals: Seq<GroupActions>,
    s: Seq<Seq<SensorView>>,
    r: Seq<TickReadings>,
    n: int,
) -> NativeView
    decreases n,
{
    if n <= 0 {
        c
    } else {
        after_ticks(c, proposals, s, r, n - 1).ticked(proposals[n - 1], s[n - 1], r[n - 1]).0
    }
}

/// A controller with channels decides again, and stays enabled, once it has been
/// ticked without an emergency until the window after the last one has passed,
/// whether or not the circuit breaker had disabled it.
pub proof fn law_controller_recovers_in_time(
    c: NativeView,
    proposals: Seq<GroupActions>,
    s: Seq<Seq<SensorView>>,
    r: Seq<TickReadings>,
    last_violation: int,
)
    requires
        c.channels.len() > 0,
        s.len() > 0,
        forall|k: int| 0 <= k < s.len() ==> !cpu_over(#[trigger] s[k]),
        c.safety.up_to(last_violation),
        last_violation + 3600 <= c.global_tick_count + s.len() <= u64::MAX,
    ensures
        ({
            let n = s.len() - 1;
            let (next, report) = after_ticks(c, proposals, s, r, n).ticked(
                proposals[n],
                s[n],
                r[n],
            );
            &&& next == after_ticks(c, proposals, s, r, n + 1)
            &&& next.enabled
            &&& report.acted
        }),
{
    let n = s.len() - 1;
    lemma_calm_ticks(c, proposals, s, r, n, last_violation);
    let d = after_ticks(c, proposals, s, r, n);
    law_controller_recovers(d, s[n]);
    let awake = d.awake(s[n]);
    lemma_calm_awake(d, s[n], last_violation);
    let ready = awake.prepared(s[n], r[n]);
    assert(ready.safety.up_to(ready.global_tick_count - 3600)) by {
        assert(ready.safety.recent == awake.safety.recent);
    }
    law_breaker_recovers(ready.safety, ready.global_tick_count);
}

proof fn lemma_calm_awake(c: NativeView, s: Seq<SensorView>, limit: int)
    requires
        !cpu_over(s),
        c.safety.up_to(limit),
    ensures
        c.awake(s).safety.up_to(limit),
        c.awake(s).channels == c.channels,
        c.awake(s).global_tick_count == counted(c.global_tick_count),
{
    lemma_recorded_up_to(c.safety, true, counted(c.global_tick_count), limit);
}

/// A tick without an emergency adds no violation.
proof fn lemma_calm_tick(
    c: NativeView,
    p: GroupActions,
    s: Seq<SensorView>,
    r: TickReadings,
    limit: int,
)
    requires
        !cpu_over(s),
        c.safety.up_to(limit),
    ensures
        c.ticked(p, s, r).0.safety.up_to(limit),
        c.ticked(p, s, r).0.channels.len() == c.channels.len(),
        c.ticked(p, s, r).0.global_tick_count == counted(c.global_tick_count),
{
    lemma_calm_awake(c, s, limit);
    let awake = c.awake(s);
    if awake.enabled {
        let ready = awake.prepared(s, r);
        assert(ready.safety.up_to(limit)) by {
            assert(ready.safety.recent == awake.safety.recent);
        }
        let tick = ready.global_tick_count;
        let one = ready.safety.recorded(true, tick);
        let two = one.recorded(true, tick);
        let three = two.recorded(true, tick);
        lemma_recorded_up_to(ready.safety, true, tick, limit);
        lemma_recorded_up_to(one, true, tick, limit);
        lemma_recorded_up_to(two, true, tick, limit);
        lemma_recorded_up_to(three, true, tick, limit);
    }
}

proof fn lemma_calm_ticks(
    c: NativeView,
    proposals: Seq<GroupActions>,
    s: Seq<Seq<SensorView>>,
    r: Seq<TickReadings>,
    n: int,
    limit: int,
)
    requires
        0 <= n < s.len(),
        c.global_tick_count + s.len() <= u64::MAX,
        forall|k: int| 0 <= k < s.len() ==> !cpu_over(#[trigger] s[k]),
        c.safety.up_to(limit),
    ensures
        ({
            let d = after_ticks(c, proposals, s, r, n);
            &&& d.safety.up_to(limit)
            &&& d.channels.len() == c.channels.len()
            &&& d.global_tick_count == c.global_tick_count + n
        }),
    decreases n,
{
    if n > 0 {
        lemma_calm_ticks(c, proposals, s, r, n - 1, limit);
        let d = after_ticks(c, proposals, s, r, n - 1);
        assert(!cpu_over(s[n - 1]));
        lemma_calm_tick(d, proposals[n - 1], s[n - 1], r[n - 1], limit);
    }
}

/// A disabled controller decides nothing and writes nothing.
pub proof fn law_disabled_controller_rests(
    c: NativeView,
    proposals: GroupActions,
    s: Seq<SensorView>,
    r: TickReadings,
)
    requires
        !c.awake(s).enabled,
    ensures
        c.ticked(proposals, s, r).1 == idle_report(),
        c.ticked(proposals, s, r).0.channels == c.channels,
        c.ticked(proposals, s, r).0.models == c.models,
{
}

/// A controller without channels stays disabled.
pub proof fn law_no_channels_stays_disabled(c: NativeView, s: Seq<SensorView>)
    requires
        !c.enabled,
        c.channels.len() == 0,
    ensures
        !c.awake(s).enabled,
{
}

/// Charge protection does not depend on whether the controller is enabled, nor
/// on anything that was learned.
pub proof fn law_charge_protection_is_unconditional(
    c: NativeView,
    d: NativeView,
    r: ChargeReadings,
)
    requires
        c.charge_max_val == d.charge_max_val,
        c.charge_rate == d.charge_rate,
        c.last_charge_temp == d.last_charge_temp,
    ensures
        c.charge_protected(r).1 == d.charge_protected(r).1,
{
}

/// Does charge protection measure the battery in a tick?
pub open spec fn measures(r: ChargeReadings) -> bool {
    is_charging(r.status) && is_fast_charger(r.usb_type) && r.batt_temp >= 0
}

/// The heating rate is taken between ticks that follow each other. A change of the
/// temperature over ticks that did not measure it is no heating: the first tick
/// after them leaves the rate as it is, and after a pause of fast charging the
/// current is that of the ladder.
pub proof fn law_rate_spans_one_tick(c: NativeView, gap: ChargeReadings, r: ChargeReadings)
    requires
        !measures(gap),
        measures(r),
    ensures
        ({
            let resumed = c.charge_protected(gap).0;
            let (after, current) = resumed.charge_protected(r);
            &&& after.charge_rate == resumed.charge_rate
            &&& !(is_charging(gap.status) && is_fast_charger(gap.usb_type)) ==> current == Some(
                ladder_current(c.charge_max_val as int, r.batt_temp as int) as i32,
            )
        }),
{
}

/// A tick changes the model of the current scenario alone.
pub proof fn law_scenarios_are_independent(
    c: NativeView,
    proposals: GroupActions,
    s: Seq<SensorView>,
    r: TickReadings,
    other: i32,
)
    requires
        other != c.current_scenario,
    ensures
        model_of(c.ticked(proposals, s, r).0.models, other) == model_of(c.models, other),
{
}

/// Each group learns from the action that it carried out in the last tick, not
/// from the one that it is about to carry out.
pub proof fn law_last_action_is_credited(
    c: NativeView,
    state: StateVector,
    actions: GroupActions,
    group: ChannelGroup,
)
    requires
        c.model().last_state is Some,
        c.model().last_actions is Some,
    ensures
        ({
            let from = c.model().last_state->Some_0;
            let taken = c.model().last_actions->Some_0.of(group);
            c.model_after(state, actions).tables.of(group) == c.model().tables.of(group).learned(
                state_array(from),
                taken,
                group_reward_of(c.rewards.current_workload, from, group, taken as i32),
                state_array(state),
            )
        }),
        c.model_after(state, actions).last_actions == Some(actions),
{
}

/// Load counts as sustained after three loaded ticks in a row, whatever came
/// before. A run of fewer is broken by one idle tick; a longer one is over after
/// three idle ticks, and not before.
pub proof fn law_sustained_load(n: u64, idle: u64, a: i64, b: i64, c: i64)
    requires
        n <= 100,
    ensures
        a > 440_000 && b > 440_000 && c > 440_000 ==> ({
            let one = next_load(n, idle, a);
            let two = next_load(one.0, one.1, b);
            next_load(two.0, two.1, c).0 >= 3
        }),
        n < 3 && a <= 440_000 ==> next_load(n, idle, a).0 == 0,
        n >= 3 && a <= 440_000 && b <= 440_000 && c <= 440_000 ==> ({
            let one = next_load(n, 0, a);
            let two = next_load(one.0, one.1, b);
            one.0 == n && two.0 == n && next_load(two.0, two.1, c).0 == 0
        }),
{
}

/// The temperatures, in tenths of a degree, below which a battery still allows an action, for
/// each workload; no action below the last is ruled out.
pub proof fn law_ladder_by_workload(t: int)
    ensures
        ({
            let a = ladder_action(WorkloadMode::Benchmark, t);
            &&& a == 9 <==> t < 415
            &&& a >= 8 <==> t < 435
            &&& a >= 6 <==> t < 460
            &&& a != 7 && a >= 5
        }),
        ({
            let a = ladder_action(WorkloadMode::PerfGaming, t);
            &&& a == 9 <==> t < 380
            &&& a >= 8 <==> t < 400
            &&& a >= 7 <==> t < 420
            &&& a >= 6 <==> t < 440
            &&& a >= 5
        }),
        ({
            let a = ladder_action(WorkloadMode::Gaming, t);
            &&& a == 9 <==> t < 360
            &&& a >= 8 <==> t < 380
            &&& a >= 7 <==> t < 400
            &&& a >= 6 <==> t < 420
            &&& a >= 5
        }),
        ({
            let a = ladder_action(WorkloadMode::Moderate, t);
            &&& a == 9 <==> t < 360
            &&& a >= 8 <==> t < 380
            &&& a >= 7 <==> t < 400
            &&& a >= 6 <==> t < 410
            &&& a >= 4 <==> t < 420
            &&& a >= 3 <==> t < 450
            &&& a != 5 && a >= 2
        }),
        ({
            let a = ladder_action(WorkloadMode::Light, t);
            &&& a == ladder_action(WorkloadMode::Idle, t)
            &&& a == 9 <==> t < 340
            &&& a >= 8 <==> t < 360
            &&& a >= 7 <==> t < 380
            &&& a >= 6 <==> t < 400
            &&& a >= 4 <==> t < 430
            &&& a >= 2 <==> t < 450
            &&& a != 5 && a != 3 && a != 1
        }),
{
}

/// A part of a whole in millionths, rounded down.
pub open spec fn is_share(share: int, part: int, whole: int) -> bool {
    whole * share <= part * 1_000_000 < whole * share + whole
}

proof fn lemma_group_first(c: Seq<ChannelView>, group: ChannelGroup)
    ensures
        0 <= group_at(c, group) <= c.len(),
        group_at(c, group) < c.len() ==> c[group_at(c, group)].group == group,
        forall|i: int| 0 <= i < group_at(c, group) ==> (#[trigger] c[i]).group != group,
    decreases c.len(),
{
    if c.len() > 0 && c[0].group != group {
        let t = c.skip(1);
        lemma_group_first(t, group);
        assert forall|i: int| 0 <= i < group_at(c, group) implies (#[trigger] c[i]).group
            != group by {
            if i > 0 {
                assert(t[i - 1] == c[i]);
            }
        }
    }
}

/// The state of a tick holds the last action of each group as a share of the greatest
/// action; before the first decision they are 0. The last action as such is that of the
/// compute group.
pub proof fn law_state_holds_the_last_actions(
    c: NativeView,
    s: Seq<SensorView>,
    r: TickReadings,
)
    ensures
        ({
            let state = c.tick_state(s, r);
            &&& state.last_action == state.last_action_compute
            &&& state.action_stability == c.model().action_stability
            &&& state.gpu_freq_ratio == r.gpu_freq_ratio
            &&& match c.model().last_actions {
                Some(a) => {
                    &&& is_share(state.last_action_compute as int, a.compute as int, 9)
                    &&& is_share(state.last_action_thermal as int, a.thermal as int, 9)
                    &&& is_share(state.last_action_charging as int, a.charging as int, 9)
                    &&& is_share(state.last_action_display as int, a.display as int, 9)
                },
                None => {
                    &&& state.last_action_compute == 0
                    &&& state.last_action_thermal == 0
                    &&& state.last_action_charging == 0
                    &&& state.last_action_display == 0
                },
            }
        }),
{
}

/// The brightness counts as a share of the greatest value of the first display channel, and
/// a negative one counts 0.
pub proof fn law_state_holds_the_brightness(
    c: NativeView,
    s: Seq<SensorView>,
    r: TickReadings,
    i: int,
)
    requires
        0 <= i < c.channels.len(),
        c.channels[i].group == ChannelGroup::Display,
        forall|k: int| 0 <= k < i ==> (#[trigger] c.channels[k]).group != ChannelGroup::Display,
        c.channels[i].max_val > 0,
    ensures
        r.brightness >= 0 ==> is_share(
            c.tick_state(s, r).brightness_ratio as int,
            r.brightness as int,
            c.channels[i].max_val as int,
        ),
        r.brightness <= 0 ==> c.tick_state(s, r).brightness_ratio == 0,
{
    lemma_group_first(c.channels, ChannelGroup::Display);
    let max = c.channels[i].max_val as int;
    let v = upper_of(r.brightness as int, 0);
    crate::arith::law_truncation(v * 1_000_000, max);
    let q = trunc_div(v * 1_000_000, max);
    assert(0 <= q <= v * 1_000_000) by (nonlinear_arith)
        requires
            max > 0,
            0 <= max * q <= v * 1_000_000,
    ;
    if v == 0 {
        assert(q == 0);
    }
}

/// The charge current counts as a share of the greatest value of the first channel named
/// "charge_current".
pub proof fn law_state_holds_the_charge_current(
    c: NativeView,
    s: Seq<SensorView>,
    r: TickReadings,
    i: int,
)
    requires
        0 <= i < c.channels.len(),
        c.channels[i].name == "charge_current"@,
        forall|k: int| 0 <= k < i ==> (#[trigger] c.channels[k]).name != "charge_current"@,
        c.channels[i].max_val > 0,
        c.channels[i].value >= 0,
    ensures
        is_share(
            c.tick_state(s, r).charge_current_ratio as int,
            c.channels[i].value as int,
            c.channels[i].max_val as int,
        ),
{
    lemma_channel_at(c.channels, "charge_current"@);
    let max = c.channels[i].max_val as int;
    let v = c.channels[i].value as int;
    crate::arith::law_truncation(v * 1_000_000, max);
    let q = trunc_div(v * 1_000_000, max);
    assert(0 <= q <= v * 1_000_000) by (nonlinear_arith)
        requires
            max > 0,
            0 <= max * q <= v * 1_000_000,
    ;
}

/// Without a display channel, or a charge channel, its share in the state is 0.
pub proof fn law_state_without_channels(c: NativeView, s: Seq<SensorView>, r: TickReadings)
    ensures
        (forall|k: int|
            0 <= k < c.channels.len() ==> (#[trigger] c.channels[k]).group
                != ChannelGroup::Display) ==> c.tick_state(s, r).brightness_ratio == 0,
        (forall|k: int|
            0 <= k < c.channels.len() ==> (#[trigger] c.channels[k]).name != "charge_current"@)
            ==> c.tick_state(s, r).charge_current_ratio == 0,
{
    lemma_group_first(c.channels, ChannelGroup::Display);
    lemma_channel_at(c.channels, "charge_current"@);
}

/// The workload of the state is that of the detector after the tick: idle is 0, each heavier
/// class a quarter more, both kinds of gaming three quarters. The rest of the state is what
/// the features are.
pub proof fn law_state_holds_the_workload(c: NativeView, s: Seq<SensorView>, r: TickReadings)
    ensures
        ({
            let base = c.extractor.state(s, 0, 0i32, r.device@);
            let state = c.tick_state(s, r);
            let load = LoadReading {
                cpu_load: base.cpu_load,
                gpu_freq_ratio: r.gpu_freq_ratio,
                screen_on: 2 * base.screen_on > 1_000_000,
            };
            let mode = c.detector.detected(load, r.profile).last_mode;
            &&& 4 * state.workload_mode == 1_000_000 * match mode {
                WorkloadMode::Idle => 0int,
                WorkloadMode::Light => 1,
                WorkloadMode::Moderate => 2,
                WorkloadMode::Gaming => 3,
                WorkloadMode::PerfGaming => 3,
                WorkloadMode::Benchmark => 4,
            }
            &&& state == (StateVector {
                last_action_compute: state.last_action_compute,
                last_action_thermal: state.last_action_thermal,
                last_action_charging: state.last_action_charging,
                last_action_display: state.last_action_display,
                last_action: state.last_action,
                action_stability: state.action_stability,
                gpu_freq_ratio: state.gpu_freq_ratio,
                brightness_ratio: state.brightness_ratio,
                charge_current_ratio: state.charge_current_ratio,
                workload_mode: state.workload_mode,
                ..base
            })
            &&& c.prepared(s, r).detector.last_mode == mode
            &&& c.prepared(s, r).safety.current_workload == mode
            &&& c.prepared(s, r).rewards.current_workload == mode
        }),
{
}

/// A loaded tick, above 0.44 of the time, makes the run of load one longer, up to 100, and
/// ends the run of idle ticks; an idle tick makes that one longer. A run of load ends
/// where it had not come to three ticks, or at the third idle tick.
pub proof fn law_load_runs(n: u64, idle: u64, load: i64)
    requires
        n <= 100,
        idle < u64::MAX,
    ensures
        load > 440_000 && n < 100 ==> next_load(n, idle, load) == ((n + 1) as u64, 0u64),
        load > 440_000 && n == 100 ==> next_load(n, idle, load) == (n, 0u64),
        load <= 440_000 ==> next_load(n, idle, load).1 == idle + 1,
        load <= 440_000 && n >= 3 && idle < 2 ==> next_load(n, idle, load).0 == n,
        load <= 440_000 && (n < 3 || idle >= 2) ==> next_load(n, idle, load).0 == 0,
{
}

/// What a group carries out of a proposal: the proposal itself where it is safe, action 3 in
/// place of an unsafe one, and no more than the battery allows. Under heavy load the compute
/// group takes action 9 in place of a smaller one. An unknown battery temperature allows
/// everything.
pub proof fn law_what_is_carried_out(
    mode: WorkloadMode,
    group: ChannelGroup,
    proposal: u8,
    heavy: bool,
    batt_temp: i32,
    s: Seq<SensorView>,
)
    requires
        proposal <= 9,
    ensures
        ({
            let taken = carried_out(mode, group, proposal, heavy, batt_temp, s);
            let cap = ladder_action(mode, batt_temp as int);
            let own = group != ChannelGroup::Compute || !heavy;
            &&& own && action_safe(mode, proposal, s) && (batt_temp < 0 || proposal <= cap)
                ==> taken == proposal
            &&& own && !action_safe(mode, proposal, s) && (batt_temp < 0 || 3 <= cap) ==> taken
                == 3
            &&& own && batt_temp >= 0 && action_safe(mode, proposal, s) && proposal > cap
                ==> taken == cap
            &&& own && batt_temp >= 0 && !action_safe(mode, proposal, s) && 3 > cap ==> taken
                == cap
            &&& !own && batt_temp < 0 ==> taken == 9
            &&& !own && batt_temp >= 0 ==> taken == cap
        }),
{
}

/// The load is heavy in gaming and benchmarks, and in any workload after three loaded ticks.
pub proof fn law_what_is_heavy(sustained: u64, mode: WorkloadMode)
    ensures
        sustained > 2 ==> is_heavy_load(sustained, mode),
        is_heavy_load(sustained, WorkloadMode::Gaming),
        is_heavy_load(sustained, WorkloadMode::PerfGaming),
        is_heavy_load(sustained, WorkloadMode::Benchmark),
        sustained <= 2 ==> !is_heavy_load(sustained, WorkloadMode::Idle),
        sustained <= 2 ==> !is_heavy_load(sustained, WorkloadMode::Light),
        sustained <= 2 ==> !is_heavy_load(sustained, WorkloadMode::Moderate),
{
}

/// Each group carries out its own proposal, in the workload of the detector.
pub proof fn law_each_group_carries_out_its_own(
    c: NativeView,
    p: GroupActions,
    batt_temp: i32,
    s: Seq<SensorView>,
)
    ensures
        ({
            let mode = c.detector.last_mode;
            let heavy = is_heavy_load(c.sustained_load_ticks, mode);
            let a = c.actions_for(p, batt_temp, s);
            &&& a.compute == carried_out(mode, ChannelGroup::Compute, p.compute, heavy, batt_temp, s)
            &&& a.thermal == carried_out(mode, ChannelGroup::Thermal, p.thermal, heavy, batt_temp, s)
            &&& a.charging == carried_out(
                mode,
                ChannelGroup::Charging,
                p.charging,
                heavy,
                batt_temp,
                s,
            )
            &&& a.display == carried_out(mode, ChannelGroup::Display, p.display, heavy, batt_temp, s)
        }),
{
}

/// A decision in a thermal emergency adds four violations, one for each group, at the current
/// tick; any other adds none.
pub proof fn law_each_group_is_checked(c: NativeView, s: Seq<SensorView>)
    requires
        c.safety.up_to(c.global_tick_count as int),
    ensures
        ({
            let tick = c.global_tick_count;
            let kept = c.safety.known_after(true, tick);
            &&& cpu_over(s) ==> c.checked(s).recent == kept.push(tick).push(tick).push(tick).push(
                tick,
            )
            &&& !cpu_over(s) ==> c.checked(s).recent == kept
        }),
{
    let tick = c.global_tick_count;
    let safe = !cpu_over(s);
    lemma_kept_again(c.safety.recent, tick);
    let kept = crate::ai::safety::not_older(c.safety.recent, tick);
    if !safe {
        lemma_kept_push(kept, tick);
        lemma_kept_push(kept.push(tick), tick);
        lemma_kept_push(kept.push(tick).push(tick), tick);
    }
}

proof fn lemma_kept_again(v: Seq<u64>, tick: u64)
    ensures
        ({
            let kept = crate::ai::safety::not_older(v, tick);
            crate::ai::safety::not_older(kept, tick) == kept
        }),
    decreases v.len(),
{
    if v.len() > 0 {
        lemma_kept_again(v.drop_last(), tick);
        let kept = crate::ai::safety::not_older(v.drop_last(), tick);
        assert(kept.push(v.last()).drop_last() =~= kept);
    }
}

proof fn lemma_kept_push(v: Seq<u64>, tick: u64)
    requires
        crate::ai::safety::not_older(v, tick) == v,
    ensures
        crate::ai::safety::not_older(v.push(tick), tick) == v.push(tick),
{
    assert(v.push(tick).drop_last() =~= v);
}

/// A decision that repeats the action of the compute group makes its run one longer, any
/// other starts a new one; the stability is a hundredth for each tick of the run, up to one.
/// The state and the actions are kept for the next tick, and nothing is learned from the
/// first decision.
pub proof fn law_decision_is_remembered(c: NativeView, state: StateVector, actions: GroupActions)
    requires
        c.model().ticks_same_action < u64::MAX,
    ensures
        ({
            let m = c.model();
            let after = c.model_after(state, actions);
            let same = m.last_actions is Some && m.last_actions->0.compute == actions.compute;
            &&& same ==> after.ticks_same_action == m.ticks_same_action + 1
            &&& !same ==> after.ticks_same_action == 0
            &&& after.ticks_same_action <= 100 ==> 100 * after.action_stability
                == after.ticks_same_action * 1_000_000
            &&& after.ticks_same_action > 100 ==> after.action_stability == 1_000_000
            &&& after.last_state == Some(state)
            &&& after.last_actions == Some(actions)
            &&& after.tick_count == m.tick_count
            &&& m.last_state is None || m.last_actions is None ==> after.tables == m.tables
        }),
{
}

/// The collector keeps the experience of the compute group: the last state, the action that
/// was carried out in it and its reward; before the first decision it keeps nothing.
pub proof fn law_compute_experience_is_kept(c: NativeView, from: StateVector, a: GroupActions)
    ensures
        c.model().last_state == Some(from) && c.model().last_actions == Some(a)
            ==> c.collector_after() == c.collector.recorded(
            from,
            a.compute,
            group_reward_of(
                c.rewards.current_workload,
                from,
                ChannelGroup::Compute,
                a.compute as i32,
            ),
        ),
        c.model().last_state is None || c.model().last_actions is None ==> c.collector_after()
            == c.collector,
{
}

/// What is reported of a decision: that it was made, the writes for its actions, that the
/// tables are to be saved in every thousandth tick of the scenario, and that the collector is
/// to be emptied once it is full.
pub proof fn law_decision_is_reported(
    c: NativeView,
    state: StateVector,
    p: GroupActions,
    batt_temp: i32,
    s: Seq<SensorView>,
)
    ensures
        ({
            let (after, report) = c.concluded(state, p, batt_temp, s);
            let actions = c.actions_for(p, batt_temp, s);
            &&& report.acted
            &&& report.save_due <==> exists|k: int| #[trigger] (k * 1000) == c.model().tick_count
            &&& report.writes == writes_for(c.channels, actions, s, c.channels.len() as int)
            &&& report.flush_due ==> after.collector.full()
            &&& after.collector.full() && c.model().last_state is Some && c.model().last_actions
                is Some ==> report.flush_due
            &&& after.model().last_actions == Some(actions)
            &&& after.enabled == c.enabled
            &&& after.current_scenario == c.current_scenario
        }),
{
    let n = c.model().tick_count;
    if n % 1000 == 0 {
        assert((n / 1000) * 1000 == n);
    }
}

/// A tick counts for the model of the current scenario.
pub proof fn law_ticks_are_counted(c: NativeView, s: Seq<SensorView>, r: TickReadings)
    requires
        c.model().tick_count < u64::MAX,
    ensures
        c.prepared(s, r).model().tick_count == c.model().tick_count + 1,
        c.prepared(s, r).model().tables == c.model().tables,
        c.prepared(s, r).model().last_actions == c.model().last_actions,
        c.prepared(s, r).model().last_state == c.model().last_state,
{
}

/// A charge current that is set becomes the value of the first channel named
/// "charge_current", and of no other.
pub proof fn law_charge_current_is_noted(c: NativeView, current: i32, i: int)
    requires
        0 <= i < c.channels.len(),
    ensures
        c.with_charge_current(current).channels.len() == c.channels.len(),
        c.channels[i].name == "charge_current"@ && (forall|k: int|
            0 <= k < i ==> (#[trigger] c.channels[k]).name != "charge_current"@)
            ==> c.with_charge_current(current).channels[i].value == current,
        c.channels[i].name != "charge_current"@ || (exists|k: int|
            0 <= k < i && (#[trigger] c.channels[k]).name == "charge_current"@)
            ==> c.with_charge_current(current).channels[i] == c.channels[i],
        c.with_charge_current(current).channels[i].max_val == c.channels[i].max_val,
        c.with_charge_current(current).channels[i].name == c.channels[i].name,
{
    lemma_channel_at(c.channels, "charge_current"@);
}

/// Without charging nothing is set; a charger without a fast protocol gets three amperes; a
/// fast one gets what the temperature and the heating rate allow, and nothing is set while
/// the temperature is unknown.
pub proof fn law_charge_current_by_charger(c: NativeView, r: ChargeReadings)
    requires
        c.charge_max_val >= 0,
    ensures
        ({
            let (after, current) = c.charge_protected(r);
            &&& !is_charging(r.status) ==> current is None && after.channels == c.channels
            &&& is_charging(r.status) && !is_fast_charger(r.usb_type) ==> current == Some(
                3_000_000i32,
            )
            &&& is_charging(r.status) && is_fast_charger(r.usb_type) && r.batt_temp < 0
                ==> current is None && after.channels == c.channels && after.charge_rate
                == c.charge_rate
            &&& measures(r) && c.last_charge_temp < 0 ==> after.last_charge_temp == r.batt_temp
                && after.charge_rate == c.charge_rate && current == Some(
                allowed_current(
                    c.charge_max_val as int,
                    r.batt_temp as int,
                    c.charge_rate as int,
                ) as i32,
            )
            &&& !measures(r) ==> after.last_charge_temp < 0
            &&& current is Some ==> after.channels == c.with_charge_current(current->0).channels
        }),
{
}

/// In a tick of fast charging that follows another, the rate takes in the rise since then,
/// and the current is what temperature and new rate allow.
pub proof fn law_charge_rate_decides_at_once(c: NativeView, r: ChargeReadings, rate: int)
    requires
        measures(r),
        c.last_charge_temp >= 0,
        magnitude(c.charge_rate as int) <= RATE_LIMIT,
        rate == next_rate(c.charge_rate as int, c.last_charge_temp as int, r.batt_temp as int),
    ensures
        c.charge_protected(r).0.charge_rate == rate,
        c.charge_protected(r).1 == Some(
            allowed_current(c.charge_max_val as int, r.batt_temp as int, rate) as i32,
        ),
        c.charge_protected(r).0.last_charge_temp == r.batt_temp,
{
    crate::ai::charging::law_rate_is_smoothed(
        c.charge_rate as int,
        c.last_charge_temp as int,
        r.batt_temp as int,
    );
}

/// A saved group replaces the table of the group with its name where it has as many weights;
/// otherwise the tables stay as they are.
pub proof fn law_saved_groups_replace_their_tables(g: Seq<SavedGroupView>, n: int)
    requires
        0 <= n < g.len(),
    ensures
        ({
            let (before, k) = restored_tables(g, n);
            let (after, j) = restored_tables(g, n + 1);
            let fits = g[n].weights.len() == before.compute.weights.len();
            &&& before.compute.weights.len() == before.thermal.weights.len()
            &&& before.compute.weights.len() == before.charging.weights.len()
            &&& before.compute.weights.len() == before.display.weights.len()
            &&& after.compute.weights == (if g[n].name == "compute"@ && fits {
                g[n].weights
            } else {
                before.compute.weights
            })
            &&& after.thermal.weights == (if g[n].name == "thermal"@ && fits {
                g[n].weights
            } else {
                before.thermal.weights
            })
            &&& after.charging.weights == (if g[n].name == "charging"@ && fits {
                g[n].weights
            } else {
                before.charging.weights
            })
            &&& after.display.weights == (if g[n].name == "display"@ && fits {
                g[n].weights
            } else {
                before.display.weights
            })
            &&& j == k || j == k + 1
            &&& j == k + 1 <==> fits && (g[n].name == "compute"@ || g[n].name == "thermal"@
                || g[n].name == "charging"@ || g[n].name == "display"@)
        }),
{
    lemma_restored_sizes(g, n);
    reveal_strlit("compute");
    reveal_strlit("thermal");
    reveal_strlit("charging");
    reveal_strlit("display");
    assert("compute"@[0] == 'c' && "compute"@[1] == 'o');
    assert("thermal"@[0] == 't');
    assert("charging"@[0] == 'c' && "charging"@[1] == 'h');
    assert("display"@[0] == 'd');
}

proof fn lemma_restored_sizes(g: Seq<SavedGroupView>, n: int)
    ensures
        ({
            let t = restored_tables(g, n).0;
            &&& t.compute.weights.len() == fresh_table().weights.len()
            &&& t.thermal.weights.len() == fresh_table().weights.len()
            &&& t.charging.weights.len() == fresh_table().weights.len()
            &&& t.display.weights.len() == fresh_table().weights.len()
        }),
    decreases n,
{
    if n > 0 {
        lemma_restored_sizes(g, n - 1);
    }
}

/// The greatest charge current is that of the hardware, and twelve amperes where it has no
/// charge channel or names no limit; the tables of a scenario are kept in a file of the data
/// directory that bears its number.
pub proof fn law_initial_limits_and_files(hw: HardwareReadings, scenario: i32)
    ensures
        hw.charge_current is None || hw.charge_current_max <= 0 ==> initial_charge_max(hw)
            == 12_000_000,
        hw.charge_current is Some && hw.charge_current_max > 0 ==> initial_charge_max(hw)
            == hw.charge_current_max,
        checkpoint_file(scenario) == "/data/vendor/thermal/ai_data"@ + "/"@ + ("q_scenario_"@
            + show(scenario as int) + ".json"@),
{
}

/// A tick with the breaker closed decides: each table selects once, and the model keeps the
/// state of the tick and the actions that were carried out of the proposals. With the breaker
/// open it disables the controller and says why.
pub proof fn law_tick_decides_or_disables(
    c: NativeView,
    proposals: GroupActions,
    s: Seq<SensorView>,
    r: TickReadings,
)
    requires
        c.awake(s).enabled,
    ensures
        ({
            let awake = c.awake(s);
            let ready = awake.prepared(s, r);
            let (next, report) = c.ticked(proposals, s, r);
            let open = ready.safety.tripped(ready.global_tick_count);
            &&& report.acted <==> !open
            &&& open ==> !next.enabled && next.models == ready.models && next.channels
                == c.channels && report.writes.len() == 0 && next.disabled_reason == Some(
                breaker_reason(ready.safety.violations()),
            )
            &&& !open ==> next.enabled && next.model().last_state == Some(
                awake.tick_state(s, r),
            ) && next.model().last_actions == Some(
                ready.actions_for(proposals, r.batt_temp, s),
            )
            &&& !open && c.model().last_actions is None ==> {
                &&& next.model().tables.compute == c.model().tables.compute.ticked()
                &&& next.model().tables.thermal == c.model().tables.thermal.ticked()
                &&& next.model().tables.charging == c.model().tables.charging.ticked()
                &&& next.model().tables.display == c.model().tables.display.ticked()
            }
        }),
{
}

/// A tick with some draws is one with the proposals that come of them.
pub proof fn law_drawn_ticks(c: NativeView, d: GroupDraws, s: Seq<SensorView>, r: TickReadings)
    ensures
        c.ticked_drawn(d, s, r) == c.ticked(c.proposals(s, r, d), s, r),
{
}

/// The channels are those of the hardware, put under the PID controllers of the configuration
/// where there is one.
pub proof fn law_channels_of_the_device(hw: HardwareReadings, config: &str)
    ensures
        all_channels(hw, None) == hardware_channels(hw),
        all_channels(hw, Some(config)) == enriched(hardware_channels(hw), blocks_of(config@)),
{
}

/// A scenario without a model starts with one that knows nothing: no tick, no decision and the
/// tables of a fresh start, in each group the same.
pub proof fn law_unknown_scenarios_start_afresh(m: Map<i32, ModelView>, scenario: i32)
    requires
        !m.contains_key(scenario),
    ensures
        ({
            let x = model_of(m, scenario);
            &&& x.tick_count == 0 && x.last_state is None && x.last_actions is None
            &&& x.action_stability == 0 && x.ticks_same_action == 0
            &&& x.tables.compute == fresh_table() && x.tables.thermal == fresh_table()
            &&& x.tables.charging == fresh_table() && x.tables.display == fresh_table()
        }),
{
}

/// Only an enabled controller changes the scenario, and it asks for its tables to be saved
/// when the scenario is another one.
pub proof fn law_switching(c: NativeView, scenario: i32)
    ensures
        c.switched(scenario).1 <==> c.enabled && scenario != c.current_scenario,
        c.enabled ==> c.switched(scenario).0.current_scenario == scenario,
        !c.enabled ==> c.switched(scenario).0 == c,
        c.switched(scenario).0.models == c.models,
        c.switched(scenario).0.channels == c.channels,
{
}

/// A saved scenario is taken over where at least one of its groups is usable: with its tables
/// and its count, and no decision. Otherwise, and for all other scenarios, nothing changes.
pub proof fn law_saved_scenarios_are_taken_over(
    m: Map<i32, ModelView>,
    saved: SavedView,
    other: i32,
)
    ensures
        ({
            let (tables, loaded) = restored_tables(saved.groups, saved.groups.len() as int);
            let after = with_saved(m, saved);
            &&& loaded <= 0 ==> after == m
            &&& loaded >= 1 ==> {
                &&& after.contains_key(saved.scenario)
                &&& after[saved.scenario].tables == tables
                &&& after[saved.scenario].tick_count == saved.tick_count
                &&& after[saved.scenario].last_state is None
                &&& after[saved.scenario].last_actions is None
            }
            &&& other != saved.scenario ==> model_of(after, other) == model_of(m, other)
        }),
{
}

} // verus!
