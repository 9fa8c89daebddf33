//! The engine of the daemon: sensors, controller instances, and one decision
//! per tick.

use vstd::prelude::*;
use vstd::string::*;

use crate::action::{action_apply_multi, resolve_default_action_value, WritePlan};
#[allow(unused_imports)]
use crate::action::{plan_views, plans_of, resolved_default, PlanView};
use crate::ai::engine::{AIEngine, DecisionReadings, TickOutcome};
#[allow(unused_imports)]
use crate::ai::engine::{level_range, readings_ordered, DirectiveView, EngineView};
#[allow(unused_imports)]
use crate::ai::channels::{all_steppable, GroupActions};
use crate::ai::charging::ChargeReadings;
use crate::ai::features::DeviceReadings;
use crate::ai::native::{GroupDraws, NativeController, TickReadings, TickReport};
#[allow(unused_imports)]
use crate::ai::native::{
    law_charge_protection_is_unconditional, law_clock_always_advances,
    lemma_charge_keeps_steppable, NativeView, ReportView,
};
use crate::ai::qtable::Draws;
#[allow(unused_imports)]
use crate::ai::workload::counted;
use crate::algorithm::{evaluate_instance, evaluate_virtual_sensor, is_evaluable};
#[allow(unused_imports)]
use crate::algorithm::{
    evaluable, evaluated, is_defined, lemma_level_at, next_level, sic_next, virtual_value,
    with_reading,
};
#[allow(unused_imports)]
use crate::arith::upper_of;
use crate::resolve::{load_thermal_map, MapInput};
#[allow(unused_imports)]
use crate::resolve::{
    after_map, consistent, law_discovery_appends, law_map_leaves_consistency, level_in_range,
    only_sensors, positions_valid, prepared_sensors, virtual_positions, LoadState,
};
use crate::sensor::EngineDiscovery;
#[allow(unused_imports)]
use crate::sensor::{with_extras, with_zones, zone_types};
use crate::text::{chars_of, parse_int_or, push_int, same_text, string_of, trimmed};
#[allow(unused_imports)]
use crate::text::{int_or, show, texts, trim};
use crate::types::{
    copy_actions, ActionType, AlgoType, CoolingDevice, Instance, Sensor, SensorType, SicState,
    LOG_DEBUG, LOG_ERR, LOG_INFO, LOG_WARNING,
};
#[allow(unused_imports)]
use crate::types::{
    instance_views, sensor_views, ActionView, InstanceView, SensorView, MI_MAX_SENSORS,
};

verus! {

// ---------------------------------------------------------------------------
// Settings
// ---------------------------------------------------------------------------

/// The severity of the system log for a priority of the platform log.
pub open spec fn syslog_severity(priority: i32) -> i32 {
    if priority == 2 || priority == 3 {
        LOG_DEBUG
    } else if priority == 5 {
        LOG_WARNING
    } else if priority == 6 || priority == 7 {
        LOG_ERR
    } else {
        LOG_INFO
    }
}

pub fn android_prio_to_syslog(priority: i32) -> (r: i32)
    ensures
        r == syslog_severity(priority),
{
    match priority {
        2 => LOG_DEBUG,
        3 => LOG_DEBUG,
        4 => LOG_INFO,
        5 => LOG_WARNING,
        6 => LOG_ERR,
        7 => LOG_ERR,
        _ => LOG_INFO,
    }
}

/// The mask that lets severities up to a level pass.
pub open spec fn log_mask(level: int) -> int
    decreases level + 1,
{
    if level < 0 {
        0
    } else {
        2 * log_mask(level - 1) + 1
    }
}

proof fn lemma_log_mask(level: int)
    requires
        -1 <= level <= 29,
    ensures
        0 <= log_mask(level) <= 0x3fff_ffff,
    decreases 29 - level,
{
    if level < 29 {
        lemma_log_mask(level + 1);
        assert(log_mask(level + 1) == 2 * log_mask(level) + 1);
        lemma_log_mask_nonneg(level);
    } else {
        assert(log_mask(29) == 0x3fff_ffff) by {
            reveal_with_fuel(log_mask, 32);
        }
    }
}

proof fn lemma_log_mask_nonneg(level: int)
    requires
        -1 <= level,
    ensures
        0 <= log_mask(level),
    decreases level + 1,
{
    if level >= 0 {
        lemma_log_mask_nonneg(level - 1);
    }
}

/// The mask of the system log for a level.
pub fn log_upto(level: i32) -> (r: i32)
    requires
        -1 <= level <= 29,
    ensures
        r == log_mask(level as int),
{
    let mut mask: i32 = 0;
    let mut i: i32 = -1;
    while i < level
        invariant
            -1 <= i <= level <= 29,
            mask == log_mask(i as int),
        decreases level - i,
    {
        proof {
            lemma_log_mask((i + 1) as int);
        }
        mask = 2 * mask + 1;
        i += 1;
    }
    mask
}

/// The log level after the arguments from `from` on. `-l` takes the argument
/// that follows it; one that is no number means the default.
pub open spec fn level_after(args: Seq<Seq<char>>, from: int, level: i32) -> i32
    decreases args.len() - from,
{
    if from >= args.len() {
        level
    } else if args[from] == "-l"@ {
        if from + 1 < args.len() {
            level_after(args, from + 2, int_or(args[from + 1], LOG_INFO))
        } else {
            level
        }
    } else {
        level_after(args, from + 1, level)
    }
}

/// The log level that the command line asks for.
pub fn parse_log_level(args: &Vec<String>) -> (r: i32)
    ensures
        r == level_after(texts(args@), 1, LOG_INFO),
{
    let ghost av = texts(args@);
    let mut level: i32 = LOG_INFO;
    let mut i: usize = 1;
    while i < args.len()
        invariant
            1 <= i,
            i <= args@.len() || level_after(av, i as int, level) == level,
            av == texts(args@),
            level_after(av, 1, LOG_INFO) == level_after(av, i as int, level),
        decreases args@.len() - i,
    {
        assert(av[i as int] == args@[i as int]@);
        if same_text(args[i].as_str(), "-l") {
            i += 1;
            if i < args.len() {
                assert(av[i as int] == args@[i as int]@);
                level = parse_int_or(&chars_of(args[i].as_str()), LOG_INFO);
                i += 1;
            } else {
                return level;
            }
        } else {
            i += 1;
        }
    }
    level
}

/// How the daemon controls the device.
#[derive(Debug, Clone, Copy, PartialEq, Eq, Structural)]
pub enum ControlMode {
    /// By the configuration alone.
    Configured,
    /// By the configuration, with a learning layer over it.
    Augmented,
    /// By learning alone.
    Native,
}

pub open spec fn mode_of(property: Seq<char>) -> ControlMode {
    if property == "true"@ || property == "1"@ {
        ControlMode::Native
    } else if property == "engine"@ {
        ControlMode::Augmented
    } else {
        ControlMode::Configured
    }
}

/// The mode that the value of its property asks for.
pub fn control_mode(property: &str) -> (r: ControlMode)
    ensures
        r == mode_of(property@),
{
    if same_text(property, "true") || same_text(property, "1") {
        ControlMode::Native
    } else if same_text(property, "engine") {
        ControlMode::Augmented
    } else {
        ControlMode::Configured
    }
}

/// The value of a property, from the output of the command that reads it.
pub open spec fn property_value(output: Option<&str>, default: Seq<char>) -> Seq<char> {
    match output {
        Some(o) => if trim(o@).len() > 0 {
            trim(o@)
        } else {
            default
        },
        None => default,
    }
}

/// The value of a property: the output of the command that reads it, or the
/// default where the command failed or printed nothing.
pub fn property_get_str(output: Option<&str>, default: &str) -> (r: String)
    ensures
        r@ == property_value(output, default@),
{
    match output {
        Some(o) => {
            let t = trimmed(&chars_of(o));
            if t.len() > 0 {
                return string_of(&t);
            }
        },
        None => {},
    }
    default.to_string()
}

/// Does a value of the debug property switch debug output on?
pub open spec fn debug_value(property: Seq<char>) -> bool {
    property == "1"@ || property == "true"@
}

/// Whether debug output is switched on. The value of the property is looked at
/// once: the first answer is kept.
#[derive(Debug, Clone, Copy, PartialEq, Eq, Structural)]
pub struct DebugSwitch {
    pub answer: Option<bool>,
}

impl DebugSwitch {
    /// The switch after it was asked with a value of the property.
    pub open spec fn asked(self, property: Seq<char>) -> DebugSwitch {
        match self.answer {
            Some(_) => self,
            None => DebugSwitch { answer: Some(debug_value(property)) },
        }
    }

    /// The switch after it was asked with several values, one after the other.
    pub open spec fn asked_all(self, properties: Seq<Seq<char>>) -> DebugSwitch
        decreases properties.len(),
    {
        if properties.len() == 0 {
            self
        } else {
            self.asked_all(properties.drop_last()).asked(properties.last())
        }
    }

    pub fn new() -> (r: Self)
        ensures
            r.answer is None,
    {
        DebugSwitch { answer: None }
    }

    /// The answer, given what the property holds now.
    pub fn is_enabled(&mut self, property: &str) -> (r: bool)
        ensures
            *final(self) == old(self).asked(property@),
            Some(r) == final(self).answer,
    {
        match self.answer {
            Some(b) => b,
            None => {
                let b: bool = is_debug_enabled(property);
                self.answer = Some(b);
                b
            },
        }
    }
}

/// The first value decides: whatever the property holds later, the answer stays.
pub proof fn law_first_debug_value_decides(s: DebugSwitch, properties: Seq<Seq<char>>)
    requires
        s.answer is None,
        properties.len() > 0,
    ensures
        s.asked_all(properties).answer == Some(debug_value(properties.first())),
    decreases properties.len(),
{
    if properties.len() > 1 {
        law_first_debug_value_decides(s, properties.drop_last());
        assert(properties.drop_last().first() == properties.first());
    } else {
        reveal_with_fuel(DebugSwitch::asked_all, 2);
    }
}

/// Does the value of the debug property enable debug output?
pub fn is_debug_enabled(property: &str) -> (r: bool)
    ensures
        r == debug_value(property@),
{
    same_text(property, "1") || same_text(property, "true")
}

/// The policies and the caps that hold until the first tick.
pub open spec fn boot_caps() -> Seq<(u32, i32)> {
    seq![(0u32, 1_209_600i32), (3u32, 1_681_920i32), (7u32, 1_808_640i32)]
}

/// The frequency caps that hold until the first tick.
pub fn boot_freq_caps() -> (r: Vec<(u32, i32)>)
    ensures
        r@ == boot_caps(),
{
    let mut v: Vec<(u32, i32)> = Vec::new();
    v.push((0, 1_209_600));
    v.push((3, 1_681_920));
    v.push((7, 1_808_640));
    assert(v@ =~= boot_caps());
    v
}

/// What is written for a target of a processor frequency.
pub open spec fn written_frequency(target: i32) -> Option<i32> {
    if target > 0 {
        Some(target)
    } else {
        None
    }
}

/// What the writer of processor frequencies writes for a target, if anything.
pub fn frequency_to_write(target: i32) -> (r: Option<i32>)
    ensures
        r == written_frequency(target),
{
    if target > 0 {
        Some(target)
    } else {
        None
    }
}

/// What is written for a target of the charge current, after the last one.
pub open spec fn written_charge(target: i32, last: i32) -> Option<i32> {
    if target > 0 && target != last {
        Some(target)
    } else {
        None
    }
}

/// What the writer of the charge current writes, if anything: only a change.
pub fn charge_to_write(target: i32, last: i32) -> (r: Option<i32>)
    ensures
        r == written_charge(target, last),
{
    if target > 0 && target != last {
        Some(target)
    } else {
        None
    }
}

// ---------------------------------------------------------------------------
// The engine
// ---------------------------------------------------------------------------

#[derive(Debug)]
pub struct Engine {
    pub sensors: Vec<Sensor>,
    pub virtual_sensors: Vec<usize>,
    pub cooling_devices: Vec<CoolingDevice>,
    pub instances: Vec<Instance>,
    pub sic_states: Vec<SicState>,
    pub current_scenario_idx: i32,
    pub ai_engine: Option<AIEngine>,
    pub native_controller: Option<NativeController>,
}

/// What the configured controllers work on.
pub struct DaemonView {
    pub sensors: Seq<SensorView>,
    pub virtual_sensors: Seq<usize>,
    pub cooling_devices: Seq<CoolingDevice>,
    pub instances: Seq<InstanceView>,
    pub sic_states: Seq<SicState>,
    pub scenario: i32,
    pub ai: Option<EngineView>,
    pub native: Option<NativeView>,
}

pub open spec fn ai_view(e: Option<AIEngine>) -> Option<EngineView> {
    match e {
        Some(e) => Some(e@),
        None => None,
    }
}

pub open spec fn native_view(c: Option<NativeController>) -> Option<NativeView> {
    match c {
        Some(c) => Some(c@),
        None => None,
    }
}

impl View for Engine {
    type V = DaemonView;

    open spec fn view(&self) -> DaemonView {
        DaemonView {
            sensors: sensor_views(self.sensors@),
            virtual_sensors: self.virtual_sensors@,
            cooling_devices: self.cooling_devices@,
            instances: instance_views(self.instances@),
            sic_states: self.sic_states@,
            scenario: self.current_scenario_idx,
            ai: ai_view(self.ai_engine),
            native: native_view(self.native_controller),
        }
    }
}

impl DaemonView {
    pub open spec fn load(self) -> LoadState {
        LoadState {
            sensors: self.sensors,
            instances: self.instances,
            sic_states: self.sic_states,
        }
    }

    pub open spec fn wf(self) -> bool {
        &&& consistent(self.load())
        &&& positions_valid(self.virtual_sensors, self.sensors.len() as int)
        &&& self.ai is Some ==> self.ai->Some_0.wf()
        &&& self.native is Some ==> self.native->Some_0.wf()
    }

    /// What a tick does, given the scenario that the platform announces.
    pub open spec fn kind_of_tick(self, new_idx: i32) -> TickKind {
        if self.native is Some {
            TickKind::Native
        } else if new_idx >= 0 && new_idx != self.scenario {
            TickKind::Reload
        } else {
            TickKind::Evaluate
        }
    }

    /// The daemon after a scenario is loaded. Without a map nothing changes.
    pub open spec fn loaded(self, input: MapInput) -> DaemonView {
        if input.map_content is None {
            self
        } else {
            let st = after_map(self.sensors, input);
            DaemonView {
                sensors: st.sensors,
                instances: st.instances,
                sic_states: st.sic_states,
                virtual_sensors: virtual_positions(prepared_sensors(self.sensors, input)),
                ..self
            }
        }
    }
}

/// Has the scenario of the map any blocks?
pub open spec fn load_succeeds(input: MapInput) -> bool {
    input.map_content is Some && match input.target_config {
        Some(c) => crate::config::blocks_of(c@).len() > 0,
        None => false,
    }
}

/// What a tick does.
#[derive(Debug, Clone, Copy, PartialEq, Eq, Structural)]
pub enum TickKind {
    /// The learning controller has its turn.
    Native,
    /// The scenario has changed and is loaded.
    Reload,
    /// The instances are evaluated.
    Evaluate,
}

/// What an instance reads in a tick: the device, the workload, and for each of
/// its actions the values of its probes.
pub struct InstanceReadings<'a> {
    pub device: DeviceReadings,
    pub decision: DecisionReadings<'a>,
    pub direct: Vec<Vec<i32>>,
    pub defaults: Vec<Vec<i32>>,
}

/// What an instance does in a tick: the writes, and the charge current that the
/// writer of charge currents is told.
#[derive(Debug)]
pub struct Applied {
    pub plans: Vec<WritePlan>,
    pub charge_target: Option<i32>,
}

pub struct AppliedView {
    pub plans: Seq<PlanView>,
    pub charge_target: Option<i32>,
}

impl View for Applied {
    type V = AppliedView;

    open spec fn view(&self) -> AppliedView {
        AppliedView { plans: plan_views(self.plans@), charge_target: self.charge_target }
    }
}

pub open spec fn nothing_applied() -> AppliedView {
    AppliedView { plans: Seq::empty(), charge_target: None }
}

/// Is an instance passed over in a tick?
pub open spec fn is_passive(inst: InstanceView) -> bool {
    inst.algo == AlgoType::Virtual || inst.sensor_idx is None
}

/// The temperature that an instance is evaluated at.
pub open spec fn instance_temp(s: Seq<SensorView>, inst: InstanceView) -> i32 {
    s[inst.sensor_idx->Some_0 as int].last_temp_mc
}

/// Can an instance have its turn? One that is not passed over must be evaluable at
/// its temperature.
pub open spec fn is_ready(s: Seq<SensorView>, inst: InstanceView) -> bool {
    is_passive(inst) || evaluable(inst, instance_temp(s, inst))
}

/// The actions of an instance once a level is applied: at level 0 the actions of
/// that level take the live values of the hardware, and a PID instance writes its
/// output.
pub open spec fn settled_actions(
    inst: InstanceView,
    level: int,
    defaults: Seq<Vec<i32>>,
) -> Seq<ActionView> {
    let (start, end) = level_range(
        inst.actions.len() as int,
        inst.threshold.trig.len() as int,
        level,
    );
    Seq::new(
        inst.actions.len(),
        |j: int|
            if start <= j < end {
                let a = if level == 0 {
                    resolved_default(inst.actions[j], defaults[j]@)
                } else {
                    inst.actions[j]
                };
                if inst.algo == AlgoType::Sic {
                    ActionView { value: inst.current_value, ..a }
                } else {
                    a
                }
            } else {
                inst.actions[j]
            },
    )
}

/// An instance after a level is applied, and what is written.
pub open spec fn level_applied(inst: InstanceView, level: int, defaults: Seq<Vec<i32>>) -> (
    InstanceView,
    AppliedView,
) {
    let (start, end) = level_range(
        inst.actions.len() as int,
        inst.threshold.trig.len() as int,
        level,
    );
    if start >= inst.actions.len() {
        (inst, nothing_applied())
    } else {
        let actions = settled_actions(inst, level, defaults);
        (
            InstanceView { actions, ..inst },
            AppliedView {
                plans: plans_of(actions.subrange(start, end)),
                charge_target: if inst.algo == AlgoType::Sic {
                    Some(inst.current_value)
                } else {
                    None
                },
            },
        )
    }
}

/// The PID state of an instance after an evaluation.
pub open spec fn state_after(inst: InstanceView, temp: i32, state: SicState) -> SicState {
    if inst.algo == AlgoType::Sic {
        sic_next(inst.threshold, temp, state)
    } else {
        state
    }
}

/// The learning layer after it has decided on an instance, and its directive.
pub open spec fn ai_decision(
    e: EngineView,
    inst: InstanceView,
    level: i32,
    s: Seq<SensorView>,
    r: InstanceReadings,
    proposal: u8,
) -> (EngineView, DirectiveView) {
    let n = inst.threshold.trig.len() as int;
    let state = e.extractor.state(s, n, level, r.device@);
    let seen = EngineView { extractor: e.extractor.after(s, level, r.device@), ..e };
    if !e.enabled {
        (seen, DirectiveView { level, actions: inst.actions })
    } else {
        seen.decided(state, r.decision, proposal, level, inst, s, r.direct@)
    }
}

impl DaemonView {
    /// The daemon with an instance and its PID state replaced.
    pub open spec fn with_instance(self, i: int, inst: InstanceView, state: SicState) -> DaemonView {
        DaemonView {
            instances: self.instances.update(i, inst),
            sic_states: self.sic_states.update(i, state),
            ..self
        }
    }

    /// The daemon after an instance had its turn, and what is written. Where the
    /// learning layer takes part, its selection proposes an action.
    pub open spec fn instance_ticked(
        self,
        i: int,
        r: InstanceReadings,
        ai_enabled: bool,
        proposal: u8,
    ) -> (DaemonView, AppliedView) {
        let inst = self.instances[i];
        if is_passive(inst) {
            (self, nothing_applied())
        } else {
            let temp = instance_temp(self.sensors, inst);
            let level = next_level(inst, temp) as i32;
            let evaluated = evaluated(inst, temp, self.sic_states[i]);
            let state = state_after(inst, temp, self.sic_states[i]);
            if ai_enabled {
                let (e, d) = ai_decision(
                    self.ai->Some_0,
                    evaluated,
                    level,
                    self.sensors,
                    r,
                    proposal,
                );
                let after = if d.level != level {
                    InstanceView { current_level: d.level, ..evaluated }
                } else {
                    evaluated
                };
                (
                    DaemonView { ai: Some(e), ..self }.with_instance(i, after, state),
                    if inst.actions.len() == 0 {
                        nothing_applied()
                    } else {
                        AppliedView { plans: plans_of(d.actions), charge_target: None }
                    },
                )
            } else {
                let (after, applied) = level_applied(evaluated, level as int, r.defaults@);
                (self.with_instance(i, after, state), applied)
            }
        }
    }
}

impl DaemonView {
    /// The action that the learning layer proposes for an instance.
    pub open spec fn instance_proposal(self, i: int, r: InstanceReadings, d: Draws) -> u8 {
        let inst = self.instances[i];
        let level = next_level(inst, instance_temp(self.sensors, inst)) as i32;
        let e = self.ai->Some_0;
        let n = inst.threshold.trig.len() as int;
        EngineView {
            extractor: e.extractor.after(self.sensors, level, r.device@),
            ..e
        }.proposal(e.extractor.state(self.sensors, n, level, r.device@), r.decision, d)
    }

    /// The daemon after an instance had its turn with some draws, and what is
    /// written.
    pub open spec fn instance_drawn(
        self,
        i: int,
        r: InstanceReadings,
        ai_enabled: bool,
        d: Draws,
    ) -> (DaemonView, AppliedView) {
        self.instance_ticked(i, r, ai_enabled, self.instance_proposal(i, r, d))
    }
}

/// The sensors after the first `n` of them, in order: each virtual sensor with
/// inputs takes its value from those before it and the last values of the others.
pub open spec fn virtuals_evaluated(s: Seq<SensorView>, n: int) -> Seq<SensorView>
    decreases n,
{
    if n <= 0 {
        s
    } else {
        let t = virtuals_evaluated(s, n - 1);
        let v = t[n - 1];
        if v.type_ == SensorType::Virtual && is_defined(v) {
            with_reading(t, n - 1, virtual_value(t, v))
        } else {
            t
        }
    }
}

pub(crate) proof fn lemma_virtuals_frame(s: Seq<SensorView>, n: int)
    requires
        0 <= n <= s.len(),
    ensures
        virtuals_evaluated(s, n).len() == s.len(),
        forall|i: int|
            0 <= i < s.len() ==> (#[trigger] virtuals_evaluated(s, n)[i]) == (SensorView {
                last_temp_mc: virtuals_evaluated(s, n)[i].last_temp_mc,
                ..s[i]
            }),
    decreases n,
{
    if n > 0 {
        lemma_virtuals_frame(s, n - 1);
    }
}

/// What the engine starts from: a learning controller, or a configuration with
/// or without a learning layer over it.
pub enum Start<'a> {
    Native {
        zone_types: &'a Vec<Option<String>>,
        extra_readings: &'a Vec<i32>,
        controller: NativeController,
    },
    Configured { input: MapInput<'a>, ai: Option<AIEngine> },
}

/// What a tick of the learning controller asks for.
#[derive(Debug)]
pub struct NativeTick {
    /// The charge current to set.
    pub charge_current: Option<i32>,
    pub report: TickReport,
    /// Why the controller is disabled, if it is.
    pub disabled: Option<String>,
}

pub struct NativeTickView {
    pub charge_current: Option<i32>,
    pub report: ReportView,
    pub disabled: Option<Seq<char>>,
}

impl View for NativeTick {
    type V = NativeTickView;

    open spec fn view(&self) -> NativeTickView {
        NativeTickView {
            charge_current: self.charge_current,
            report: self.report@,
            disabled: match self.disabled {
                Some(s) => Some(s@),
                None => None,
            },
        }
    }
}

impl DaemonView {
    /// The daemon after a tick of the learning controller in which its tables
    /// propose some actions, and what is to be done.
    pub open spec fn native_ticked(
        self,
        charge: ChargeReadings,
        r: TickReadings,
        proposals: GroupActions,
    ) -> (DaemonView, NativeTickView) {
        let (guarded, current) = self.native->Some_0.charge_protected(charge);
        let (c, report) = guarded.ticked(proposals, self.sensors, r);
        (
            DaemonView { native: Some(c), ..self },
            NativeTickView {
                charge_current: current,
                report,
                disabled: if c.enabled {
                    None
                } else {
                    c.disabled_reason
                },
            },
        )
    }
}

impl DaemonView {
    /// The daemon after a tick of the learning controller with some draws, and what
    /// is to be done.
    pub open spec fn native_drawn(
        self,
        charge: ChargeReadings,
        r: TickReadings,
        d: GroupDraws,
    ) -> (DaemonView, NativeTickView) {
        let guarded = self.native->Some_0.charge_protected(charge).0;
        self.native_ticked(charge, r, guarded.proposals(self.sensors, r, d))
    }
}

impl Engine {
    pub fn new() -> (r: Self)
        ensures
            r@.wf(),
            r@.sensors.len() == 0,
            r@.virtual_sensors.len() == 0,
            r.cooling_devices@.len() == 0,
            r@.instances.len() == 0,
            r@.sic_states.len() == 0,
            r@.scenario == 0,
            r@.ai is None,
            r@.native is None,
    {
        Engine {
            sensors: Vec::new(),
            virtual_sensors: Vec::new(),
            cooling_devices: Vec::new(),
            instances: Vec::new(),
            sic_states: Vec::new(),
            current_scenario_idx: 0,
            ai_engine: None,
            native_controller: None,
        }
    }

    /// Loads the scenario that the map selects. Returns 0, or -1 where there is
    /// none.
    pub fn load_thermal_map_impl(&mut self, input: &MapInput) -> (r: i32)
        requires
            old(self)@.wf(),
            input.valid(),
        ensures
            final(self)@ == old(self)@.loaded(*input),
            r == (if load_succeeds(*input) {
                0int
            } else {
                -1
            }),
            final(self)@.wf(),
    {
        proof {
            assert(consistent(only_sensors(self@.sensors)));
            law_map_leaves_consistency(self@.sensors, *input);
        }
        load_thermal_map(
            &mut self.sensors,
            &mut self.virtual_sensors,
            &mut self.instances,
            &mut self.sic_states,
            input,
        )
    }

    /// Starts the engine. Returns 0, or -1 where there is no configuration.
    pub fn init(&mut self, start: Start) -> (r: i32)
        requires
            old(self)@.wf(),
            match start {
                Start::Native { zone_types, extra_readings, controller } => zone_types@.len()
                    <= MI_MAX_SENSORS && extra_readings@.len() == 6 && controller@.wf(),
                Start::Configured { input, ai } => input.valid() && (ai is Some
                    ==> ai->Some_0@.wf()),
            },
        ensures
            match start {
                Start::Native { zone_types, extra_readings, controller } => {
                    let types = crate::sensor::zone_types(zone_types@);
                    &&& r == 0
                    &&& final(self)@ == (DaemonView {
                        sensors: with_extras(
                            with_zones(old(self)@.sensors, types, types.len() as int),
                            extra_readings@,
                            6,
                        ),
                        native: Some(
                            if old(self)@.scenario != controller@.current_scenario
                                && controller@.enabled {
                                NativeView {
                                    current_scenario: old(self)@.scenario,
                                    ..controller@
                                }
                            } else {
                                controller@
                            },
                        ),
                        ..old(self)@
                    })
                },
                Start::Configured { input, ai } => if load_succeeds(input) {
                    r == 0 && final(self)@ == (DaemonView {
                        ai: match ai {
                            Some(e) => Some(e@),
                            None => old(self)@.ai,
                        },
                        ..old(self)@.loaded(input)
                    })
                } else {
                    r == -1 && final(self)@ == old(self)@.loaded(input)
                },
            },
            final(self)@.wf(),
    {
        match start {
            Start::Native { zone_types, extra_readings, controller } => {
                proof {
                    law_discovery_appends(
                        self@.load(),
                        crate::sensor::zone_types(zone_types@),
                        extra_readings@,
                    );
                }
                EngineDiscovery::sensor_init(&mut self.sensors, zone_types, extra_readings);
                let mut nc = controller;
                nc.switch_scenario(self.current_scenario_idx);
                self.native_controller = Some(nc);
                0
            },
            Start::Configured { input, ai } => {
                if self.load_thermal_map_impl(&input) != 0 {
                    return -1;
                }
                match ai {
                    Some(e) => {
                        self.ai_engine = Some(e);
                    },
                    None => {},
                }
                0
            },
        }
    }

    /// What the tick does, given the scenario that the platform announces.
    pub fn tick_kind(&self, new_idx: i32) -> (r: TickKind)
        ensures
            r == self@.kind_of_tick(new_idx),
    {
        if self.native_controller.is_some() {
            TickKind::Native
        } else if new_idx >= 0 && new_idx != self.current_scenario_idx {
            TickKind::Reload
        } else {
            TickKind::Evaluate
        }
    }

    /// Loads the scenario that the platform has changed to.
    pub fn reload_scenario(&mut self, new_idx: i32, input: &MapInput)
        requires
            old(self)@.wf(),
            input.valid(),
        ensures
            final(self)@ == (DaemonView { scenario: new_idx, ..old(self)@.loaded(*input) }),
            final(self)@.wf(),
    {
        self.load_thermal_map_impl(input);
        self.current_scenario_idx = new_idx;
    }

    /// Tells the learning controller the scenario that the platform announces.
    /// Returns whether its weights are to be saved first.
    pub fn switch_native(&mut self, new_idx: i32) -> (r: bool)
        requires
            old(self)@.wf(),
        ensures
            old(self)@.native is None || new_idx < 0 ==> !r && final(self)@ == old(self)@,
            old(self)@.native is Some && new_idx >= 0 ==> {
                let c = old(self)@.native->Some_0;
                &&& r == (new_idx != c.current_scenario && c.enabled)
                &&& final(self)@ == (DaemonView {
                    scenario: new_idx,
                    native: Some(
                        if r {
                            NativeView { current_scenario: new_idx, ..c }
                        } else {
                            c
                        },
                    ),
                    ..old(self)@
                })
            },
            final(self)@.wf(),
    {
        if new_idx < 0 {
            return false;
        }
        match self.native_controller.take() {
            Some(c) => {
                let mut nc = c;
                let r: bool = nc.switch_scenario(new_idx);
                self.native_controller = Some(nc);
                self.current_scenario_idx = new_idx;
                r
            },
            None => false,
        }
    }

    /// One tick of the learning controller, from what chance decides: the charge
    /// current is protected, then the controller decides.
    pub fn tick_native_drawn(
        &mut self,
        charge: &ChargeReadings,
        readings: &TickReadings,
        draws: &GroupDraws,
    ) -> (r: NativeTick)
        requires
            old(self)@.wf(),
            old(self)@.native is Some,
            all_steppable(old(self)@.native->Some_0.channels, old(self)@.sensors),
            old(self)@.native->Some_0.detector.profile_manager.last_check_ms
                <= readings.profile.now_ms,
            draws.valid(),
        ensures
            (final(self)@, r@) == old(self)@.native_drawn(*charge, *readings, *draws),
            final(self)@.wf(),
            final(self)@.native is Some,
            final(self)@.native->Some_0.detector.profile_manager.last_check_ms
                <= readings.profile.now_ms,
    {
        let ghost before = self@;
        match self.native_controller.take() {
            Some(c) => {
                let mut nc = c;
                let ghost start = nc@;
                let charge_current = nc.apply_charge_protection(charge);
                proof {
                    lemma_charge_keeps_steppable(start, *charge, before.sensors);
                    assert(before.sensors.len() == self.sensors@.len());
                }
                let report = nc.tick_drawn(&self.sensors, readings, draws);
                let disabled = if nc.is_enabled() {
                    None
                } else {
                    nc.disabled_reason()
                };
                self.native_controller = Some(nc);
                let r = NativeTick { charge_current, report, disabled };
                assert((self@, r@) == before.native_drawn(*charge, *readings, *draws));
                r
            },
            None => {
                assert(false);
                NativeTick {
                    charge_current: None,
                    report: TickReport {
                        acted: false,
                        writes: Vec::new(),
                        flush_due: false,
                        save_due: false,
                    },
                    disabled: None,
                }
            },
        }
    }

    /// One tick of the learning controller.
    pub fn tick_native(&mut self, charge: &ChargeReadings, readings: &TickReadings) -> (r:
        NativeTick)
        requires
            old(self)@.wf(),
            old(self)@.native is Some,
            all_steppable(old(self)@.native->Some_0.channels, old(self)@.sensors),
            old(self)@.native->Some_0.detector.profile_manager.last_check_ms
                <= readings.profile.now_ms,
        ensures
            exists|draws: GroupDraws|
                draws.valid() && (final(self)@, r@) == #[trigger] old(self)@.native_drawn(
                    *charge,
                    *readings,
                    draws,
                ),
            final(self)@.wf(),
            final(self)@.native is Some,
            final(self)@.native->Some_0.detector.profile_manager.last_check_ms
                <= readings.profile.now_ms,
    {
        let draws = GroupDraws::draw();
        self.tick_native_drawn(charge, readings, &draws)
    }

    /// Does a change of the configuration files matter?
    pub fn reloads_on_change(&self) -> (r: bool)
        ensures
            r == (self@.native is None),
    {
        self.native_controller.is_none()
    }

    /// Evaluates every virtual sensor that has inputs, in order.
    pub fn evaluate_virtual_sensors(&mut self)
        requires
            old(self)@.wf(),
        ensures
            final(self)@ == (DaemonView {
                sensors: virtuals_evaluated(
                    old(self)@.sensors,
                    old(self)@.sensors.len() as int,
                ),
                ..old(self)@
            }),
            final(self)@.wf(),
    {
        let ghost s0 = self@.sensors;
        let mut i: usize = 0;
        while i < self.sensors.len()
            invariant
                i <= self.sensors@.len(),
                self.sensors@.len() == s0.len(),
                s0 == old(self)@.sensors,
                old(self)@.wf(),
                self@ == (DaemonView { sensors: virtuals_evaluated(s0, i as int), ..old(self)@ }),
            decreases self.sensors@.len() - i,
        {
            proof {
                lemma_virtuals_frame(s0, i as int);
            }
            let ghost t = self@.sensors;
            assert(t[i as int] == self.sensors@[i as int]@);
            if self.sensors[i].type_ == SensorType::Virtual && self.sensors[i].inputs.len() > 0 {
                proof {
                    assert forall|k: int|
                        0 <= k < self.sensors@[i as int].inputs@.len() implies (
                    #[trigger] self.sensors@[i as int].inputs@[k]) < self.sensors@.len() by {
                        assert(s0[i as int].inputs[k] < s0.len());
                    }
                }
                let ghost before = self.sensors@;
                evaluate_virtual_sensor(&mut self.sensors, i);
                proof {
                    if !is_defined(t[i as int]) {
                        assert(self.sensors@ == before);
                    }
                }
            }
            proof {
                lemma_virtuals_frame(s0, i + 1);
                assert(self@.sensors == virtuals_evaluated(s0, i + 1));
                assert(self@.sensors.len() == self.sensors@.len());
            }
            i += 1;
        }
        proof {
            lemma_virtuals_frame(s0, s0.len() as int);
            let t = self@.sensors;
            assert forall|j: int, k: int|
                0 <= j < t.len() && 0 <= k < t[j].inputs.len() implies (#[trigger] t[j].inputs[k])
                < t.len() by {
                assert(s0[j].inputs[k] < s0.len());
            }
        }
    }

    /// Tests whether an instance can have its turn.
    pub fn instance_is_ready(&self, i: usize) -> (r: bool)
        requires
            self@.wf(),
            i < self@.instances.len(),
        ensures
            r == is_ready(self@.sensors, self@.instances[i as int]),
    {
        let inst = &self.instances[i];
        assert(self@.instances[i as int] == inst@);
        match inst.sensor_idx {
            Some(k) => {
                assert(self@.sensors[k as int] == self.sensors@[k as int]@);
                inst.algo == AlgoType::Virtual || is_evaluable(inst, self.sensors[k].last_temp_mc)
            },
            None => true,
        }
    }
}

/// Applies a level of an instance: the actions of the level, with the values that
/// they are to write.
pub fn apply_traditional_level(inst: &mut Instance, level: i32, defaults: &Vec<Vec<i32>>) -> (r:
    Applied)
    requires
        old(inst)@.threshold.trig.len() <= i32::MAX,
        0 <= level <= upper_of(old(inst)@.threshold.trig.len() as int, 1),
        defaults@.len() == old(inst)@.actions.len(),
    ensures
        (final(inst)@, r@) == level_applied(old(inst)@, level as int, defaults@),
{
    let ghost before = inst@;
    let n_levels: usize = inst.threshold.n_levels();
    let n: usize = inst.actions.len();
    proof {
        crate::ai::engine::lemma_level_range(n as int, n_levels as int, level as int);
    }
    let per_level: usize = n / (n_levels + 1);
    let start: usize = level as usize * per_level;
    if start >= n {
        let plans: Vec<WritePlan> = Vec::new();
        assert(plan_views(plans@) =~= Seq::empty());
        return Applied { plans, charge_target: None };
    }
    let end: usize = if per_level > n - start {
        n
    } else {
        start + per_level
    };
    let ghost target = settled_actions(before, level as int, defaults@);
    let sic: bool = inst.algo == AlgoType::Sic;
    let output: i32 = inst.current_value;
    let mut j: usize = start;
    while j < end
        invariant
            start <= j <= end <= n,
            n == inst.actions@.len(),
            defaults@.len() == n,
            before.actions.len() == n,
            (start as int, end as int) == level_range(
                n as int,
                before.threshold.trig.len() as int,
                level as int,
            ),
            target == settled_actions(before, level as int, defaults@),
            sic == (before.algo == AlgoType::Sic),
            output == before.current_value,
            inst@ == (InstanceView { actions: inst@.actions, ..before }),
            forall|k: int| start <= k < j ==> #[trigger] inst@.actions[k] == target[k],
            forall|k: int|
                0 <= k < n && !(start <= k < j) ==> #[trigger] inst@.actions[k]
                    == before.actions[k],
        decreases end - j,
    {
        let ghost old_actions = inst.actions@;
        let ghost old_views = inst@.actions;
        assert(old_views[j as int] == old_actions[j as int]@);
        if level == 0 {
            resolve_default_action_value(&mut inst.actions[j], &defaults[j]);
        }
        if sic {
            inst.actions[j].value = output;
        }
        proof {
            assert(inst.actions@ =~= old_actions.update(j as int, inst.actions@[j as int]));
            assert(inst@.actions =~= old_views.update(j as int, inst.actions@[j as int]@));
            assert(inst.actions@[j as int]@ == target[j as int]);
        }
        j += 1;
    }
    assert(inst@.actions =~= target);
    let slice = copy_actions(&inst.actions, start, end);
    let plans = action_apply_multi(&slice);
    Applied {
        plans,
        charge_target: if sic {
            Some(output)
        } else {
            None
        },
    }
}

proof fn lemma_instance_views_update(v: Seq<Instance>, i: int, x: Instance)
    requires
        0 <= i < v.len(),
    ensures
        instance_views(v.update(i, x)) == instance_views(v).update(i, x@),
{
    assert(instance_views(v.update(i, x)) =~= instance_views(v).update(i, x@));
}

proof fn lemma_level_kept(inst: InstanceView, temp: i32, state: SicState)
    requires
        level_in_range(inst),
        inst.threshold.trig.len() <= i32::MAX,
    ensures
        level_in_range(evaluated(inst, temp, state)),
        0 <= next_level(inst, temp) <= upper_of(inst.threshold.trig.len() as int, 1),
{
    lemma_level_at(inst.threshold.trig, temp, inst.reverse && inst.algo != AlgoType::Sic);
}

proof fn lemma_with_instance_wf(d: DaemonView, i: int, inst: InstanceView, state: SicState)
    requires
        d.wf(),
        0 <= i < d.instances.len(),
        inst.sensor_idx == d.instances[i].sensor_idx,
        level_in_range(inst),
    ensures
        d.with_instance(i, inst, state).wf(),
{
    let next = d.with_instance(i, inst, state);
    assert forall|k: int|
        0 <= k < next.instances.len() && (#[trigger] next.instances[k]).sensor_idx is Some implies
        next.instances[k].sensor_idx->Some_0 < next.sensors.len() by {
        assert(d.instances[k].sensor_idx is Some);
    }
    assert forall|k: int| 0 <= k < next.instances.len() implies level_in_range(
        #[trigger] next.instances[k],
    ) by {
        assert(level_in_range(d.instances[k]));
    }
}

proof fn lemma_decision_level(
    e: EngineView,
    inst: InstanceView,
    level: i32,
    s: Seq<SensorView>,
    r: InstanceReadings,
    proposal: u8,
)
    requires
        0 <= level <= upper_of(inst.threshold.trig.len() as int, 1),
        inst.threshold.trig.len() <= i32::MAX,
    ensures
        0 <= ai_decision(e, inst, level, s, r, proposal).1.level <= upper_of(
            inst.threshold.trig.len() as int,
            1,
        ),
{
    let n = inst.threshold.trig.len() as int;
    let state = e.extractor.state(s, n, level, r.device@);
    let seen = EngineView { extractor: e.extractor.after(s, level, r.device@), ..e };
    let o = seen.observed(state, r.decision);
    let ready = EngineView { q_table: o.q_table.ticked(), ..o };
    let action = ready.safe_action(proposal, s);
    crate::ai::engine::law_decided_level_in_range(action, level, n as i32);
}

impl Engine {
    /// Is the learning layer over the configured controllers active?
    pub fn ai_is_enabled(&self) -> (r: bool)
        ensures
            r == (self@.ai is Some && self@.ai->Some_0.enabled),
    {
        match &self.ai_engine {
            Some(e) => e.is_enabled(),
            None => false,
        }
    }

    /// The turn of an instance: it is evaluated at its temperature, the learning
    /// layer may replace its level, and the actions of the level are to be
    /// written.
    pub fn tick_instance_drawn(
        &mut self,
        i: usize,
        r: &InstanceReadings,
        ai_enabled: bool,
        draws: &Draws,
    ) -> (out: Applied)
        requires
            old(self)@.wf(),
            i < old(self)@.instances.len(),
            is_ready(old(self)@.sensors, old(self)@.instances[i as int]),
            r.defaults@.len() == old(self)@.instances[i as int].actions.len(),
            ai_enabled ==> {
                &&& old(self)@.ai is Some
                &&& r.direct@.len() == old(self)@.instances[i as int].actions.len()
                &&& readings_ordered(old(self)@.instances[i as int].actions, r.direct@)
                &&& old(self)@.ai->Some_0.detector.profile_manager.last_check_ms
                    <= r.decision.profile.now_ms
            },
            draws.valid(),
        ensures
            (final(self)@, out@) == old(self)@.instance_drawn(i as int, *r, ai_enabled, *draws),
            final(self)@.wf(),
            ai_enabled ==> final(self)@.ai is Some
                && final(self)@.ai->Some_0.detector.profile_manager.last_check_ms
                <= r.decision.profile.now_ms,
    {
        let ghost d = self@;
        let ghost inst = d.instances[i as int];
        let ghost proposal = d.instance_proposal(i as int, *r, *draws);
        assert(inst == self.instances@[i as int]@);
        let idle: bool = self.instances[i].algo == AlgoType::Virtual;
        let sensor = self.instances[i].sensor_idx;
        if idle || sensor.is_none() {
            let plans: Vec<WritePlan> = Vec::new();
            assert(plan_views(plans@) =~= Seq::empty());
            let out = Applied { plans, charge_target: None };
            assert((self@, out@) == d.instance_ticked(i as int, *r, ai_enabled, proposal));
            return out;
        }
        let sensor_idx: usize = match sensor {
            Some(k) => k,
            None => 0,
        };
        assert(d.sensors[sensor_idx as int] == self.sensors@[sensor_idx as int]@);
        let t: i32 = self.sensors[sensor_idx].last_temp_mc;
        proof {
            assert(level_in_range(inst));
            lemma_level_kept(inst, t, d.sic_states[i as int]);
        }
        let ghost before = self.instances@;
        let ghost states = self.sic_states@;
        let level: i32 = evaluate_instance(&mut self.instances[i], t, &mut self.sic_states[i]);
        let ghost mid = self.instances@[i as int]@;
        let ghost state = self.sic_states@[i as int];
        proof {
            lemma_instance_views_update(before, i as int, self.instances@[i as int]);
            assert(self.instances@ =~= before.update(i as int, self.instances@[i as int]));
            assert(self.sic_states@ =~= states.update(i as int, state));
            assert(self@ == d.with_instance(i as int, mid, state));
            lemma_with_instance_wf(d, i as int, mid, state);
        }
        let ghost placed = self.instances@;
        if ai_enabled {
            match self.ai_engine.take() {
                Some(e) => {
                    let mut ai = e;
                    let seen = ai.collect_state(
                        &self.sensors,
                        &self.instances[i],
                        level,
                        &r.device,
                    );
                    let directive = ai.decide_drawn(
                        &seen,
                        level,
                        &self.instances[i],
                        &self.sensors,
                        &r.decision,
                        &r.direct,
                        draws,
                    );
                    proof {
                        assert((ai@, directive@) == ai_decision(
                            d.ai->Some_0,
                            mid,
                            level,
                            d.sensors,
                            *r,
                            proposal,
                        ));
                        lemma_decision_level(d.ai->Some_0, mid, level, d.sensors, *r, proposal);
                    }
                    self.ai_engine = Some(ai);
                    if directive.level != level {
                        self.instances[i].current_level = directive.level;
                    }
                    proof {
                        let after = if directive.level != level {
                            InstanceView { current_level: directive.level, ..mid }
                        } else {
                            mid
                        };
                        lemma_instance_views_update(placed, i as int, self.instances@[i as int]);
                        assert(self.instances@ =~= placed.update(
                            i as int,
                            self.instances@[i as int],
                        ));
                        assert(self.instances@[i as int]@ == after);
                        assert(instance_views(self.instances@) =~= d.instances.update(
                            i as int,
                            after,
                        ));
                        assert(self@ == DaemonView { ai: self@.ai, ..d }.with_instance(
                            i as int,
                            after,
                            state,
                        ));
                        lemma_with_instance_wf(
                            DaemonView { ai: self@.ai, ..d },
                            i as int,
                            after,
                            state,
                        );
                    }
                    if self.instances[i].actions.len() == 0 {
                        let plans: Vec<WritePlan> = Vec::new();
                        assert(plan_views(plans@) =~= Seq::empty());
                        let out = Applied { plans, charge_target: None };
                        assert((self@, out@) == d.instance_ticked(
                            i as int,
                            *r,
                            ai_enabled,
                            proposal,
                        ));
                        return out;
                    }
                    let plans = action_apply_multi(&directive.actions);
                    let out = Applied { plans, charge_target: None };
                    assert((self@, out@) == d.instance_ticked(i as int, *r, ai_enabled, proposal));
                    return out;
                },
                None => {},
            }
        }
        let out = apply_traditional_level(&mut self.instances[i], level, &r.defaults);
        proof {
            let after = self.instances@[i as int]@;
            lemma_instance_views_update(placed, i as int, self.instances@[i as int]);
            assert(self.instances@ =~= placed.update(i as int, self.instances@[i as int]));
            assert(instance_views(self.instances@) =~= d.instances.update(i as int, after));
            assert(self@ == d.with_instance(i as int, after, state));
            lemma_with_instance_wf(d, i as int, after, state);
            assert((self@, out@) == d.instance_ticked(i as int, *r, ai_enabled, proposal));
        }
        out
    }

    /// The turn of an instance.
    pub fn tick_instance(&mut self, i: usize, r: &InstanceReadings, ai_enabled: bool) -> (out:
        Applied)
        requires
            old(self)@.wf(),
            i < old(self)@.instances.len(),
            is_ready(old(self)@.sensors, old(self)@.instances[i as int]),
            r.defaults@.len() == old(self)@.instances[i as int].actions.len(),
            ai_enabled ==> {
                &&& old(self)@.ai is Some
                &&& r.direct@.len() == old(self)@.instances[i as int].actions.len()
                &&& readings_ordered(old(self)@.instances[i as int].actions, r.direct@)
                &&& old(self)@.ai->Some_0.detector.profile_manager.last_check_ms
                    <= r.decision.profile.now_ms
            },
        ensures
            exists|draws: Draws|
                draws.valid() && (final(self)@, out@) == #[trigger] old(self)@.instance_drawn(
                    i as int,
                    *r,
                    ai_enabled,
                    draws,
                ),
            final(self)@.wf(),
            ai_enabled ==> final(self)@.ai is Some
                && final(self)@.ai->Some_0.detector.profile_manager.last_check_ms
                <= r.decision.profile.now_ms,
    {
        let draws = Draws::draw();
        self.tick_instance_drawn(i, r, ai_enabled, &draws)
    }

    /// Ends a tick of the configured controllers: the learning layer learns.
    pub fn end_tick(&mut self, device: &DeviceReadings) -> (r: TickOutcome)
        requires
            old(self)@.wf(),
        ensures
            final(self)@ == (DaemonView {
                ai: match old(self)@.ai {
                    Some(e) => Some(e.ended(old(self)@.sensors, device@)),
                    None => None,
                },
                ..old(self)@
            }),
            old(self)@.ai is None ==> r == (TickOutcome { flush_due: false, save_due: false }),
            old(self)@.ai matches Some(e) ==> r == (if e.enabled && e.has_decision() {
                TickOutcome {
                    flush_due: final(self)@.ai->Some_0.collector.full(),
                    save_due: final(self)@.ai->Some_0.tick_count
                        % crate::ai::engine::SAVE_INTERVAL_TICKS == 0,
                }
            } else {
                TickOutcome { flush_due: false, save_due: false }
            }),
            final(self)@.wf(),
    {
        match self.ai_engine.take() {
            Some(e) => {
                let mut ai = e;
                let r = ai.end_tick(&self.sensors, device);
                self.ai_engine = Some(ai);
                r
            },
            None => TickOutcome { flush_due: false, save_due: false },
        }
    }

    /// The text of a state dump.
    pub fn dump_state(&self) -> (r: String)
        ensures
            r@ == dump_text(self@),
    {
        let mut out = "# mi_thermald v2.1 dump\n".to_string();
        out.append("n_sensors=");
        push_len(&mut out, self.sensors.len());
        out.append(" n_instances=");
        push_len(&mut out, self.instances.len());
        out.append("\n");
        let ghost head = out@;
        let ghost d = self@;
        let mut i: usize = 0;
        assert(out@ =~= head + sensor_lines(d.sensors, 0));
        while i < self.sensors.len()
            invariant
                i <= self.sensors@.len(),
                d == self@,
                out@ == head + sensor_lines(d.sensors, i as int),
            decreases self.sensors@.len() - i,
        {
            assert(d.sensors[i as int] == self.sensors@[i as int]@);
            out.append("sensor ");
            out.append(self.sensors[i].name.as_str());
            out.append("=");
            push_int(&mut out, self.sensors[i].last_temp_mc as i64);
            out.append(" mC\n");
            assert(out@ =~= head + sensor_lines(d.sensors, i + 1));
            i += 1;
        }
        let ghost body = out@;
        let mut k: usize = 0;
        assert(out@ =~= body + instance_lines(d.instances, 0));
        while k < self.instances.len()
            invariant
                k <= self.instances@.len(),
                d == self@,
                out@ == body + instance_lines(d.instances, k as int),
            decreases self.instances@.len() - k,
        {
            assert(d.instances[k as int] == self.instances@[k as int]@);
            out.append("instance ");
            out.append(self.instances[k].name.as_str());
            out.append(" algo=");
            push_int(&mut out, self.instances[k].algo.code() as i64);
            out.append(" level=");
            push_int(&mut out, self.instances[k].current_level as i64);
            out.append(" actions=");
            push_len(&mut out, self.instances[k].actions.len());
            out.append("\n");
            assert(out@ =~= body + instance_lines(d.instances, k + 1));
            k += 1;
        }
        assert(out@ =~= dump_text(d));
        out
    }
}

fn push_len(out: &mut String, n: usize)
    ensures
        final(out)@ == old(out)@ + show(n as int),
{
    crate::text::push_decimal(out, n as u128);
}

/// The lines of the first `n` sensors.
pub open spec fn sensor_lines(s: Seq<SensorView>, n: int) -> Seq<char>
    decreases n,
{
    if n <= 0 {
        Seq::empty()
    } else {
        sensor_lines(s, n - 1) + "sensor "@ + s[n - 1].name + "="@ + show(
            s[n - 1].last_temp_mc as int,
        ) + " mC\n"@
    }
}

/// The lines of the first `n` instances.
pub open spec fn instance_lines(v: Seq<InstanceView>, n: int) -> Seq<char>
    decreases n,
{
    if n <= 0 {
        Seq::empty()
    } else {
        instance_lines(v, n - 1) + "instance "@ + v[n - 1].name + " algo="@ + show(
            v[n - 1].algo.spec_code(),
        ) + " level="@ + show(v[n - 1].current_level as int) + " actions="@ + show(
            v[n - 1].actions.len() as int,
        ) + "\n"@
    }
}

pub open spec fn dump_text(d: DaemonView) -> Seq<char> {
    "# mi_thermald v2.1 dump\n"@ + "n_sensors="@ + show(d.sensors.len() as int) + " n_instances="@
        + show(d.instances.len() as int) + "\n"@ + sensor_lines(d.sensors, d.sensors.len() as int)
        + instance_lines(d.instances, d.instances.len() as int)
}

// ---------------------------------------------------------------------------
// Laws
// ---------------------------------------------------------------------------

/// A level-0 action without a value never writes 0 to a frequency, a core or a
/// charge current: it takes a positive value.
pub proof fn law_defaults_are_positive(a: ActionView, readings: Seq<i32>)
    requires
        a.value == 0,
        a.type_ == ActionType::CpuFreq || a.type_ == ActionType::CpuHotplug || a.type_
            == ActionType::Bcl || a.type_ == ActionType::Fcc,
    ensures
        resolved_default(a, readings).value > 0,
{
    lemma_first_positive(readings, crate::action::fallback_value(a.type_));
}

proof fn lemma_first_positive(readings: Seq<i32>, fallback: int)
    requires
        0 < fallback <= i32::MAX,
    ensures
        0 < crate::action::first_positive(readings, fallback) <= i32::MAX,
    decreases readings.len(),
{
    if readings.len() > 0 && readings[0] <= 0 {
        lemma_first_positive(readings.skip(1), fallback);
    }
}

/// The turn of an instance leaves the sensors and all other instances alone.
pub proof fn law_instances_are_independent(
    d: DaemonView,
    i: int,
    r: InstanceReadings,
    ai_enabled: bool,
    proposal: u8,
    k: int,
)
    requires
        0 <= i < d.instances.len(),
        0 <= k < d.instances.len(),
        k != i,
        d.instances.len() == d.sic_states.len(),
    ensures
        ({
            let (next, _) = d.instance_ticked(i, r, ai_enabled, proposal);
            &&& next.sensors == d.sensors
            &&& next.instances[k] == d.instances[k]
            &&& next.sic_states[k] == d.sic_states[k]
        }),
{
}

/// Every tick of the learning controller protects the charge current in the same
/// way, whether or not the controller is enabled and whatever its tables propose.
pub proof fn law_every_tick_protects_charging(
    d: DaemonView,
    e: DaemonView,
    charge: ChargeReadings,
    r: TickReadings,
    proposals: GroupActions,
    others: GroupActions,
)
    requires
        d.native is Some,
        e.native is Some,
        d.native->Some_0.charge_max_val == e.native->Some_0.charge_max_val,
        d.native->Some_0.charge_rate == e.native->Some_0.charge_rate,
        d.native->Some_0.last_charge_temp == e.native->Some_0.last_charge_temp,
    ensures
        d.native_ticked(charge, r, proposals).1.charge_current == e.native_ticked(
            charge,
            r,
            others,
        ).1.charge_current,
        d.native_ticked(charge, r, proposals).1.charge_current
            == d.native->Some_0.charge_protected(charge).1,
{
    law_charge_protection_is_unconditional(d.native->Some_0, e.native->Some_0, charge);
}

/// Every tick of the learning controller counts, and leaves sensors and configured
/// instances alone.
pub proof fn law_native_tick_counts(
    d: DaemonView,
    charge: ChargeReadings,
    r: TickReadings,
    proposals: GroupActions,
)
    requires
        d.native is Some,
    ensures
        ({
            let (next, _) = d.native_ticked(charge, r, proposals);
            &&& next.native is Some
            &&& next.native->Some_0.global_tick_count == counted(
                d.native->Some_0.global_tick_count,
            )
            &&& next.sensors == d.sensors
            &&& next.instances == d.instances
        }),
{
    law_clock_always_advances(
        d.native->Some_0.charge_protected(charge).0,
        proposals,
        d.sensors,
        r,
    );
}

/// Evaluating the virtual sensors changes readings of virtual sensors alone.
pub proof fn law_only_virtual_readings_change(s: Seq<SensorView>, i: int)
    requires
        0 <= i < s.len(),
    ensures
        virtuals_evaluated(s, s.len() as int)[i] == (SensorView {
            last_temp_mc: virtuals_evaluated(s, s.len() as int)[i].last_temp_mc,
            ..s[i]
        }),
        s[i].type_ != SensorType::Virtual ==> virtuals_evaluated(s, s.len() as int)[i] == s[i],
{
    lemma_virtuals_frame(s, s.len() as int);
    if s[i].type_ != SensorType::Virtual {
        lemma_real_readings_kept(s, s.len() as int, i);
    }
}

proof fn lemma_real_readings_kept(s: Seq<SensorView>, n: int, i: int)
    requires
        0 <= n <= s.len(),
        0 <= i < s.len(),
        s[i].type_ != SensorType::Virtual,
    ensures
        virtuals_evaluated(s, n)[i] == s[i],
    decreases n,
{
    if n > 0 {
        lemma_virtuals_frame(s, n - 1);
        lemma_real_readings_kept(s, n - 1, i);
    }
}

/// Severities of the system log by priorities of the platform log: verbose and debug messages
/// are 7, warnings 4, errors and fatal ones 3, all others 6.
pub proof fn law_severities(priority: i32)
    ensures
        syslog_severity(priority) == 7 <==> priority == 2 || priority == 3,
        syslog_severity(priority) == 4 <==> priority == 5,
        syslog_severity(priority) == 3 <==> priority == 6 || priority == 7,
        syslog_severity(priority) == 6 <==> !(2 <= priority <= 3) && !(5 <= priority <= 7),
{
}

/// The mask up to a level has a bit for each level up to it and no other.
pub proof fn law_mask_has_the_bits_up_to(level: int)
    requires
        level >= -1,
    ensures
        log_mask(level) + 1 == vstd::arithmetic::power2::pow2((level + 1) as nat),
    decreases level + 1,
{
    if level < 0 {
        vstd::arithmetic::power2::lemma2_to64();
    } else {
        law_mask_has_the_bits_up_to(level - 1);
        vstd::arithmetic::power2::lemma_pow2_unfold((level + 1) as nat);
    }
}

/// The log level is the number behind the last `-l`; what is no number there counts as 6. An
/// `-l` at the very end, and every other argument, changes nothing.
pub proof fn law_log_level_of_arguments(args: Seq<Seq<char>>, from: int, level: i32, n: i32)
    requires
        0 <= from,
    ensures
        from >= args.len() ==> level_after(args, from, level) == level,
        from < args.len() && args[from] != "-l"@ ==> level_after(args, from, level) == level_after(
            args,
            from + 1,
            level,
        ),
        from == args.len() - 1 ==> level_after(args, from, level) == level,
        from + 1 < args.len() && args[from] == "-l"@ && crate::text::int_of(args[from + 1]) == Some(
            n,
        ) ==> level_after(args, from, level) == level_after(args, from + 2, n),
        from + 1 < args.len() && args[from] == "-l"@ && crate::text::int_of(args[from + 1]) is None
            ==> level_after(args, from, level) == level_after(args, from + 2, 6i32),
{
    reveal_with_fuel(level_after, 2);
}

/// Modes by the values of their property.
pub proof fn law_modes_by_property(p: Seq<char>)
    ensures
        mode_of(p) == ControlMode::Native <==> p == "true"@ || p == "1"@,
        mode_of(p) == ControlMode::Augmented <==> p == "engine"@,
        debug_value(p) <==> p == "true"@ || p == "1"@,
{
    reveal_strlit("true");
    reveal_strlit("1");
    reveal_strlit("engine");
    assert("true"@.len() == 4 && "1"@.len() == 1 && "engine"@.len() == 6);
}

/// A property has the value that was printed, without the whitespace around it; where nothing
/// else was printed, or nothing at all, it has its default.
pub proof fn law_property_values(
    a: Seq<char>,
    value: Seq<char>,
    b: Seq<char>,
    output: &str,
    default: Seq<char>,
)
    requires
        crate::text::all_ws(a),
        crate::text::all_ws(b),
        crate::text::is_trim(value),
        output@ == a + value + b,
    ensures
        value.len() > 0 ==> property_value(Some(output), default) == value,
        value.len() == 0 ==> property_value(Some(output), default) == default,
        property_value(None, default) == default,
{
    crate::text::law_trim_takes_the_ends_off(a, value, b);
}

/// Until the first tick each processor is held at three fifths of its greatest frequency.
pub proof fn law_boot_caps(k: int)
    requires
        0 <= k < 3,
    ensures
        boot_caps().len() == 3,
        k == 0 ==> boot_caps()[k].0 == 0 && 5 * boot_caps()[k].1 == 3 * 2_016_000,
        k == 1 ==> boot_caps()[k].0 == 3 && 5 * boot_caps()[k].1 == 3 * 2_803_200,
        k == 2 ==> boot_caps()[k].0 == 7 && 5 * boot_caps()[k].1 == 3 * 3_014_400,
{
}

/// Writers write positive targets alone, and that of the charge current only changes.
pub proof fn law_what_writers_write(target: i32, last: i32)
    ensures
        target <= 0 ==> written_frequency(target) is None && written_charge(target, last) is None,
        target > 0 ==> written_frequency(target) == Some(target),
        target > 0 && target != last ==> written_charge(target, last) == Some(target),
        target == last ==> written_charge(target, last) is None,
{
}

/// A daemon under the learning controller ticks with it; any other loads a scenario that was
/// announced and is not the current one, and evaluates in all other ticks.
pub proof fn law_kinds_of_ticks(d: DaemonView, new_idx: i32)
    ensures
        d.kind_of_tick(new_idx) == TickKind::Native <==> d.native is Some,
        d.native is None ==> (d.kind_of_tick(new_idx) == TickKind::Reload <==> new_idx >= 0
            && new_idx != d.scenario),
        d.native is None && new_idx < 0 ==> d.kind_of_tick(new_idx) == TickKind::Evaluate,
{
}

/// Loading a scenario takes its sensors, instances and histories, and the virtual sensors that
/// were there before it; without a map everything stays. It succeeds where the scenario has
/// blocks.
pub proof fn law_loading(d: DaemonView, input: MapInput, c: &str)
    ensures
        input.map_content is None ==> d.loaded(input) == d && !load_succeeds(input),
        input.target_config is None ==> !load_succeeds(input),
        input.map_content is Some && input.target_config == Some(c) ==> (load_succeeds(input)
            <==> crate::config::blocks_of(c@).len() > 0),
        input.map_content is Some ==> ({
            let st = after_map(d.sensors, input);
            let next = d.loaded(input);
            &&& next.sensors == st.sensors
            &&& next.instances == st.instances
            &&& next.sic_states == st.sic_states
            &&& next.virtual_sensors == virtual_positions(prepared_sensors(d.sensors, input))
            &&& next.scenario == d.scenario
            &&& next.ai == d.ai
            &&& next.native == d.native
        }),
{
}

/// The actions of a level are a row of all actions. At level 0 they take the live values of
/// the hardware, at any other they keep their own; those of a PID instance take its output.
/// The actions of other levels stay.
pub proof fn law_actions_of_a_level(
    inst: InstanceView,
    level: int,
    defaults: Seq<Vec<i32>>,
    per: int,
    j: int,
)
    requires
        0 <= level <= inst.threshold.trig.len(),
        0 <= per,
        inst.actions.len() == per * (inst.threshold.trig.len() + 1),
        0 <= j < inst.actions.len(),
    ensures
        ({
            let a = inst.actions[j];
            let b = settled_actions(inst, level, defaults)[j];
            let own = level * per <= j < (level + 1) * per;
            &&& settled_actions(inst, level, defaults).len() == inst.actions.len()
            &&& b.type_ == a.type_ && b.target == a.target
            &&& !own ==> b == a
            &&& own && inst.algo == AlgoType::Sic ==> b.value == inst.current_value
            &&& own && inst.algo != AlgoType::Sic && level > 0 ==> b == a
            &&& own && inst.algo != AlgoType::Sic && level == 0 ==> b == resolved_default(
                a,
                defaults[j]@,
            )
        }),
{
    let n = inst.threshold.trig.len() as int;
    crate::ai::engine::law_levels_share_the_actions(n, level, per, 0);
    assert(per * (n + 1) + 0 == inst.actions.len());
}

/// Applying a level writes its actions in their order, and a PID instance sets its output as
/// charge current.
pub proof fn law_level_is_written(
    inst: InstanceView,
    level: int,
    defaults: Seq<Vec<i32>>,
    per: int,
)
    requires
        0 <= level <= inst.threshold.trig.len(),
        0 < per,
        inst.actions.len() == per * (inst.threshold.trig.len() + 1),
    ensures
        ({
            let (next, applied) = level_applied(inst, level, defaults);
            &&& next.actions == settled_actions(inst, level, defaults)
            &&& applied.plans == plans_of(
                next.actions.subrange(level * per, (level + 1) * per),
            )
            &&& inst.algo == AlgoType::Sic ==> applied.charge_target == Some(inst.current_value)
            &&& inst.algo != AlgoType::Sic ==> applied.charge_target is None
            &&& next.current_level == inst.current_level
            &&& next.current_value == inst.current_value
        }),
{
    let n = inst.threshold.trig.len() as int;
    crate::ai::engine::law_levels_share_the_actions(n, level, per, 0);
    assert(per * (n + 1) + 0 == inst.actions.len());
    assert(level * per < per * (n + 1)) by (nonlinear_arith)
        requires
            level < n + 1,
            0 < per,
    ;
}

/// Virtual blocks and blocks without a sensor have no turn.
pub proof fn law_passive_instances_rest(
    d: DaemonView,
    i: int,
    r: InstanceReadings,
    ai_enabled: bool,
    proposal: u8,
)
    requires
        0 <= i < d.instances.len(),
        d.instances[i].algo == AlgoType::Virtual || d.instances[i].sensor_idx is None,
    ensures
        d.instance_ticked(i, r, ai_enabled, proposal).0 == d,
        d.instance_ticked(i, r, ai_enabled, proposal).1.plans.len() == 0,
        d.instance_ticked(i, r, ai_enabled, proposal).1.charge_target is None,
{
}

/// Without the learning layer, an instance is evaluated at the last temperature of its own
/// sensor, and the level that comes out is applied; the history of a PID instance moves on,
/// that of any other stays.
pub proof fn law_configured_turn(
    d: DaemonView,
    i: int,
    r: InstanceReadings,
    proposal: u8,
    temp: i32,
    level: int,
)
    requires
        0 <= i < d.instances.len(),
        d.instances.len() == d.sic_states.len(),
        d.instances[i].algo != AlgoType::Virtual,
        d.instances[i].sensor_idx is Some,
        temp == d.sensors[d.instances[i].sensor_idx->0 as int].last_temp_mc,
        level == next_level(d.instances[i], temp),
        i32::MIN <= level <= i32::MAX,
    ensures
        ({
            let (next, applied) = d.instance_ticked(i, r, false, proposal);
            let seen = evaluated(d.instances[i], temp, d.sic_states[i]);
            let (settled, written) = level_applied(seen, level, r.defaults@);
            &&& next.instances[i] == settled
            &&& applied == written
            &&& d.instances[i].algo == AlgoType::Sic ==> next.sic_states[i] == sic_next(
                d.instances[i].threshold,
                temp,
                d.sic_states[i],
            )
            &&& d.instances[i].algo != AlgoType::Sic ==> next.sic_states[i] == d.sic_states[i]
            &&& next.ai == d.ai
        }),
{
}

/// With the learning layer, an instance takes the level that is decided, and the actions of
/// the decision are written; an instance without actions writes nothing, and a disabled layer
/// leaves the level of the configuration.
pub proof fn law_learning_turn(
    d: DaemonView,
    i: int,
    r: InstanceReadings,
    proposal: u8,
    temp: i32,
    level: i32,
)
    requires
        0 <= i < d.instances.len(),
        d.instances.len() == d.sic_states.len(),
        d.ai is Some,
        d.instances[i].algo != AlgoType::Virtual,
        d.instances[i].sensor_idx is Some,
        temp == d.sensors[d.instances[i].sensor_idx->0 as int].last_temp_mc,
        level == next_level(d.instances[i], temp),
        d.instances[i].threshold.trig.len() > 0,
    ensures
        ({
            let (next, applied) = d.instance_ticked(i, r, true, proposal);
            let seen = evaluated(d.instances[i], temp, d.sic_states[i]);
            let (e, decision) = ai_decision(d.ai->0, seen, level, d.sensors, r, proposal);
            &&& next.ai == Some(e)
            &&& next.instances[i].current_level == decision.level
            &&& next.instances[i].actions == d.instances[i].actions
            &&& d.instances[i].actions.len() > 0 ==> applied.plans == plans_of(decision.actions)
            &&& d.instances[i].actions.len() == 0 ==> applied.plans.len() == 0
            &&& applied.charge_target is None
            &&& !d.ai->0.enabled ==> decision.level == level && decision.actions
                == d.instances[i].actions
        }),
{
}

/// The virtual sensors are evaluated in order, each from the readings that those before it
/// have already got; a sensor that is not virtual, or has no inputs, keeps its reading.
pub proof fn law_virtual_sensors_in_order(s: Seq<SensorView>, n: int)
    requires
        0 <= n < s.len(),
    ensures
        ({
            let before = virtuals_evaluated(s, n);
            let after = virtuals_evaluated(s, n + 1);
            &&& after.len() == s.len()
            &&& forall|k: int| 0 <= k < s.len() && k != n ==> #[trigger] after[k] == before[k]
            &&& before[n] == s[n]
            &&& s[n].type_ == SensorType::Virtual && is_defined(s[n]) ==> after[n].last_temp_mc
                == virtual_value(before, s[n])
            &&& s[n].type_ != SensorType::Virtual || !is_defined(s[n]) ==> after[n] == s[n]
        }),
{
    lemma_later_unchanged(s, n, n);
}

proof fn lemma_later_unchanged(s: Seq<SensorView>, n: int, k: int)
    requires
        0 <= n <= k < s.len(),
    ensures
        virtuals_evaluated(s, n).len() == s.len(),
        virtuals_evaluated(s, n)[k] == s[k],
    decreases n,
{
    if n > 0 {
        lemma_later_unchanged(s, n - 1, k);
        lemma_later_unchanged(s, n - 1, n - 1);
    }
}

/// A tick of the learning controller protects the charge first and then decides; it reports
/// why the controller is disabled, if it is.
pub proof fn law_native_tick_in_order(
    d: DaemonView,
    charge: ChargeReadings,
    r: TickReadings,
    proposals: GroupActions,
)
    requires
        d.native is Some,
    ensures
        ({
            let (next, out) = d.native_ticked(charge, r, proposals);
            let (guarded, current) = d.native->0.charge_protected(charge);
            &&& out.charge_current == current
            &&& out.report == guarded.ticked(proposals, d.sensors, r).1
            &&& next.native == Some(guarded.ticked(proposals, d.sensors, r).0)
            &&& next.native->0.enabled ==> out.disabled is None
            &&& !next.native->0.enabled ==> out.disabled == next.native->0.disabled_reason
            &&& next.ai == d.ai && next.scenario == d.scenario
        }),
{
}

/// A dump has a line for each sensor, with its name and temperature, and one for each
/// instance, with its algorithm, level and number of actions, in their order.
pub proof fn law_lines_of_a_dump(s: Seq<SensorView>, v: Seq<InstanceView>, n: int)
    requires
        0 <= n,
    ensures
        n < s.len() ==> sensor_lines(s, n + 1) == sensor_lines(s, n) + ("sensor "@ + s[n].name
            + "="@ + show(s[n].last_temp_mc as int) + " mC\n"@),
        n < v.len() ==> instance_lines(v, n + 1) == instance_lines(v, n) + ("instance "@
            + v[n].name + " algo="@ + show(v[n].algo.spec_code()) + " level="@ + show(
            v[n].current_level as int,
        ) + " actions="@ + show(v[n].actions.len() as int) + "\n"@),
        sensor_lines(s, 0).len() == 0,
        instance_lines(v, 0).len() == 0,
{
    if n < s.len() {
        assert(sensor_lines(s, n + 1) =~= sensor_lines(s, n) + ("sensor "@ + s[n].name + "="@
            + show(s[n].last_temp_mc as int) + " mC\n"@));
    }
    if n < v.len() {
        assert(instance_lines(v, n + 1) =~= instance_lines(v, n) + ("instance "@ + v[n].name
            + " algo="@ + show(v[n].algo.spec_code()) + " level="@ + show(
            v[n].current_level as int,
        ) + " actions="@ + show(v[n].actions.len() as int) + "\n"@));
    }
}

/// A turn with some draws is one with the action that the learning layer proposes of them, in
/// the state at the level of the configuration.
pub proof fn law_drawn_turns(
    d: DaemonView,
    i: int,
    r: InstanceReadings,
    ai_enabled: bool,
    draws: Draws,
    level: i32,
)
    requires
        0 <= i < d.instances.len(),
        d.instances[i].sensor_idx is Some,
        level == next_level(
            d.instances[i],
            d.sensors[d.instances[i].sensor_idx->0 as int].last_temp_mc,
        ),
    ensures
        ({
            let e = d.ai->0;
            let n = d.instances[i].threshold.trig.len() as int;
            let seen = EngineView {
                extractor: e.extractor.after(d.sensors, level, r.device@),
                ..e
            };
            let action = seen.proposal(
                e.extractor.state(d.sensors, n, level, r.device@),
                r.decision,
                draws,
            );
            d.instance_drawn(i, r, ai_enabled, draws) == d.instance_ticked(
                i,
                r,
                ai_enabled,
                action,
            )
        }),
{
}

/// A tick of the learning controller with some draws proposes after the charge is protected.
pub proof fn law_drawn_native_ticks(
    d: DaemonView,
    charge: ChargeReadings,
    r: TickReadings,
    draws: GroupDraws,
)
    requires
        d.native is Some,
    ensures
        d.native_drawn(charge, r, draws) == d.native_ticked(
            charge,
            r,
            d.native->0.charge_protected(charge).0.proposals(d.sensors, r, draws),
        ),
{
}

/// An instance can have its turn where it has none to have, or can be evaluated at the last
/// temperature of its sensor.
pub proof fn law_what_is_ready(s: Seq<SensorView>, inst: InstanceView)
    ensures
        inst.algo == AlgoType::Virtual || inst.sensor_idx is None ==> is_ready(s, inst),
        inst.algo != AlgoType::Virtual && inst.sensor_idx is Some ==> (is_ready(s, inst)
            <==> evaluable(inst, s[inst.sensor_idx->0 as int].last_temp_mc)),
{
}

/// A dump tells how many sensors and instances there are before it lists them.
pub proof fn law_dump_begins_with_the_counts(d: DaemonView)
    ensures
        ({
            let head = "# mi_thermald v2.1 dump\n"@ + "n_sensors="@ + show(
                d.sensors.len() as int,
            ) + " n_instances="@ + show(d.instances.len() as int) + "\n"@;
            &&& dump_text(d).take(head.len() as int) == head
            &&& dump_text(d).skip(head.len() as int) == sensor_lines(
                d.sensors,
                d.sensors.len() as int,
            ) + instance_lines(d.instances, d.instances.len() as int)
        }),
{
    let head = "# mi_thermald v2.1 dump\n"@ + "n_sensors="@ + show(d.sensors.len() as int)
        + " n_instances="@ + show(d.instances.len() as int) + "\n"@;
    let lines = sensor_lines(d.sensors, d.sensors.len() as int) + instance_lines(
        d.instances,
        d.instances.len() as int,
    );
    assert(dump_text(d) =~= head + lines);
    assert(dump_text(d).take(head.len() as int) =~= head);
    assert(dump_text(d).skip(head.len() as int) =~= lines);
}

} // verus!
