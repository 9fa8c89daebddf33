//! Core types of the daemon: sensors, cooling devices, thresholds, actions and
//! controller instances, with the ghost models that the contracts speak of.

use vstd::prelude::*;

use crate::text::{same_text, to_lower};
#[allow(unused_imports)]
use crate::text::lowercase;

verus! {

pub const MI_THERMALD_VERSION_STRING: &'static str = "thermald";
pub const MI_THERMALD_GLOBAL_MODE_FILE: &'static str = "/data/vendor/thermal/thermal-global-mode";
pub const MI_THERMALD_DUMP_FILE: &'static str = "/data/vendor/thermal/thermal.dump";
pub const MI_THERMALD_LAST_DUMP_FILE: &'static str = "/data/vendor/thermal/last_thermal.dump";
pub const MI_THERMALD_CONFIG_DIR: &'static str = "/data/vendor/thermal/config";
pub const MI_THERMALD_DECRYPT_DIR: &'static str = "/data/vendor/thermal/thermald_decrypt";

pub const MI_PROP_SOC_MODEL: &'static str = "ro.soc.model";
pub const MI_PROP_THERMAL_DATA_PATH: &'static str = "vendor.sys.thermal.data.path";

pub const MI_MAX_SENSORS: usize = 128;
pub const MI_MAX_CDEV: usize = 32;
pub const MI_MAX_VSNS: usize = 16;
pub const MI_MAX_CONFIGS: usize = 256;
pub const MI_MAX_LEVELS: usize = 16;
pub const MI_MAX_DEVICES_PER_BLOCK: usize = 16;
pub const MI_MAX_INPUTS_PER_VSN: usize = 8;
pub const MI_POLL_INTERVAL_MS_DEFAULT: i32 = 1000;
pub const MI_EPOLL_MAX_EVENTS: usize = 16;

pub const LOG_PID: i32 = 0x01;
pub const LOG_NDELAY: i32 = 0x08;
pub const LOG_DAEMON: i32 = 24;
pub const LOG_INFO: i32 = 6;
pub const LOG_WARNING: i32 = 4;
pub const LOG_ERR: i32 = 3;
pub const LOG_DEBUG: i32 = 7;

// ---------------------------------------------------------------------------
// Enumerations
// ---------------------------------------------------------------------------

#[derive(Debug, Clone, Copy, PartialEq, Eq, Structural)]
pub enum SensorType {
    ThermalZone,
    Virtual,
    Formula,
}

impl SensorType {
    pub open spec fn of_code(v: i32) -> SensorType {
        if v == 1 {
            SensorType::Virtual
        } else if v == 2 {
            SensorType::Formula
        } else {
            SensorType::ThermalZone
        }
    }

    /// The sensor type of a numeric code; unknown codes are thermal zones.
    pub fn from_i32(v: i32) -> (r: Self)
        ensures
            r == SensorType::of_code(v),
    {
        match v {
            0 => SensorType::ThermalZone,
            1 => SensorType::Virtual,
            2 => SensorType::Formula,
            _ => SensorType::ThermalZone,
        }
    }
}

#[derive(Debug, Clone, Copy, PartialEq, Eq, Structural)]
pub enum AlgoType {
    Simulated,
    Virtual,
    Monitor,
    Ss,
    Sic,
}

/// The algorithm that a configuration names, in any letter case. Unknown names
/// mean the monitor algorithm.
pub open spec fn algo_of(s: Seq<char>) -> AlgoType {
    let l = lowercase(s);
    if l == "simulated"@ {
        AlgoType::Simulated
    } else if l == "virtual"@ {
        AlgoType::Virtual
    } else if l == "ss"@ {
        AlgoType::Ss
    } else if l == "sic"@ {
        AlgoType::Sic
    } else {
        AlgoType::Monitor
    }
}

impl AlgoType {
    pub fn from_str(s: &str) -> (r: Self)
        ensures
            r == algo_of(s@),
    {
        let l = to_lower(s);
        AlgoType::from_lowercase(l.as_str())
    }

    /// The algorithm with exactly this lowercase name.
    pub fn from_lowercase(l: &str) -> (r: Self)
        ensures
            r == (if l@ == "simulated"@ {
                AlgoType::Simulated
            } else if l@ == "virtual"@ {
                AlgoType::Virtual
            } else if l@ == "ss"@ {
                AlgoType::Ss
            } else if l@ == "sic"@ {
                AlgoType::Sic
            } else {
                AlgoType::Monitor
            }),
    {
        if same_text(l, "simulated") {
            AlgoType::Simulated
        } else if same_text(l, "virtual") {
            AlgoType::Virtual
        } else if same_text(l, "ss") {
            AlgoType::Ss
        } else if same_text(l, "sic") {
            AlgoType::Sic
        } else {
            AlgoType::Monitor
        }
    }

    /// The numeric code of the algorithm.
    pub open spec fn spec_code(self) -> int {
        match self {
            AlgoType::Simulated => 0,
            AlgoType::Virtual => 1,
            AlgoType::Monitor => 2,
            AlgoType::Ss => 3,
            AlgoType::Sic => 4,
        }
    }

    pub fn code(&self) -> (r: i32)
        ensures
            r == self.spec_code(),
    {
        match self {
            AlgoType::Simulated => 0,
            AlgoType::Virtual => 1,
            AlgoType::Monitor => 2,
            AlgoType::Ss => 3,
            AlgoType::Sic => 4,
        }
    }

    /// The name of the variant.
    pub fn label(&self) -> (r: String)
        ensures
            r@ == (match *self {
                AlgoType::Simulated => "Simulated"@,
                AlgoType::Virtual => "Virtual"@,
                AlgoType::Monitor => "Monitor"@,
                AlgoType::Ss => "Ss"@,
                AlgoType::Sic => "Sic"@,
            }),
    {
        match self {
            AlgoType::Simulated => "Simulated".to_string(),
            AlgoType::Virtual => "Virtual".to_string(),
            AlgoType::Monitor => "Monitor".to_string(),
            AlgoType::Ss => "Ss".to_string(),
            AlgoType::Sic => "Sic".to_string(),
        }
    }
}

#[derive(Debug, Clone, Copy, PartialEq, Eq, Structural)]
pub enum ActionType {
    /// The device takes no write of its own.
    NoAction,
    CpuFreq,
    CpuHotplug,
    GpuBoost,
    IpaBoost,
    Bcl,
    TempAware,
    PowersaveBoost,
    Brightness,
    Shutdown,
    Fcc,
    BoostLimit,
    TempState,
    MaxBrightness,
    ModemLimit,
    ModemLevel,
    WifiLimit,
    VoiceLimit,
    TorchLevel,
    Cdsp,
    MarketLimit,
    ScreenState,
    Boost,
    SpecialCpuLimit,
    CpuLimits,
}

// ---------------------------------------------------------------------------
// Sensors
// ---------------------------------------------------------------------------

/// A sensor and its last reading. A virtual sensor combines the readings of
/// other sensors, named by their positions in the sensor list.
#[derive(Debug)]
pub struct Sensor {
    pub name: String,
    pub path: String,
    pub type_: SensorType,
    pub zone_id: i32,
    pub cdev_id: i32,
    pub poll_ms: i32,
    pub last_temp_mc: i32,
    pub inputs: Vec<usize>,
    pub weights: Vec<i32>,
    pub weight_sum: i32,
    pub compensation: i32,
}

pub struct SensorView {
    pub name: Seq<char>,
    pub path: Seq<char>,
    pub type_: SensorType,
    pub zone_id: i32,
    pub cdev_id: i32,
    pub poll_ms: i32,
    pub last_temp_mc: i32,
    pub inputs: Seq<usize>,
    pub weights: Seq<i32>,
    pub weight_sum: i32,
    pub compensation: i32,
}

impl View for Sensor {
    type V = SensorView;

    open spec fn view(&self) -> SensorView {
        SensorView {
            name: self.name@,
            path: self.path@,
            type_: self.type_,
            zone_id: self.zone_id,
            cdev_id: self.cdev_id,
            poll_ms: self.poll_ms,
            last_temp_mc: self.last_temp_mc,
            inputs: self.inputs@,
            weights: self.weights@,
            weight_sum: self.weight_sum,
            compensation: self.compensation,
        }
    }
}

/// A sensor of the given name with nothing else known of it.
pub open spec fn fresh_sensor(name: Seq<char>) -> SensorView {
    SensorView {
        name,
        path: Seq::empty(),
        type_: SensorType::ThermalZone,
        zone_id: (-1) as i32,
        cdev_id: (-1) as i32,
        poll_ms: MI_POLL_INTERVAL_MS_DEFAULT,
        last_temp_mc: 0,
        inputs: Seq::empty(),
        weights: Seq::empty(),
        weight_sum: 0,
        compensation: 0,
    }
}

impl Sensor {
    pub fn new(name: &str) -> (r: Self)
        ensures
            r@ == fresh_sensor(name@),
    {
        Sensor {
            name: name.to_string(),
            path: String::new(),
            type_: SensorType::ThermalZone,
            zone_id: -1,
            cdev_id: -1,
            poll_ms: MI_POLL_INTERVAL_MS_DEFAULT,
            last_temp_mc: 0,
            inputs: Vec::new(),
            weights: Vec::new(),
            weight_sum: 0,
            compensation: 0,
        }
    }
}

/// The models of a list of sensors.
pub open spec fn sensor_views(v: Seq<Sensor>) -> Seq<SensorView> {
    v.map_values(|s: Sensor| s@)
}

/// Every input of every sensor is a position in the list.
pub open spec fn inputs_in_range(s: Seq<SensorView>) -> bool {
    forall|i: int, k: int|
        0 <= i < s.len() && 0 <= k < s[i].inputs.len() ==> (#[trigger] s[i].inputs[k]) < s.len()
}

pub proof fn lemma_sensor_views_push(v: Seq<Sensor>, x: Sensor)
    ensures
        sensor_views(v.push(x)) == sensor_views(v).push(x@),
{
    assert(sensor_views(v.push(x)) =~= sensor_views(v).push(x@));
}

pub proof fn lemma_sensor_views_update(v: Seq<Sensor>, i: int, x: Sensor)
    requires
        0 <= i < v.len(),
    ensures
        sensor_views(v.update(i, x)) == sensor_views(v).update(i, x@),
{
    assert(sensor_views(v.update(i, x)) =~= sensor_views(v).update(i, x@));
}

#[derive(Debug)]
pub struct CoolingDevice {
    pub name: String,
    pub path: String,
    pub max_state: i32,
    pub cur_state: i32,
}

// ---------------------------------------------------------------------------
// Thresholds
// ---------------------------------------------------------------------------

#[derive(Debug)]
pub struct Threshold {
    pub trig: Vec<i32>,
    pub clr: Vec<i32>,
    pub target: Vec<i32>,
    pub ks: Vec<i32>,
    pub ki: Vec<i32>,
    pub kc: Vec<i32>,
    pub max_out: Vec<i32>,
    pub min_out: Vec<i32>,
    pub proportion: i32,
}

pub struct ThresholdView {
    pub trig: Seq<i32>,
    pub clr: Seq<i32>,
    pub target: Seq<i32>,
    pub ks: Seq<i32>,
    pub ki: Seq<i32>,
    pub kc: Seq<i32>,
    pub max_out: Seq<i32>,
    pub min_out: Seq<i32>,
    pub proportion: i32,
}

impl View for Threshold {
    type V = ThresholdView;

    open spec fn view(&self) -> ThresholdView {
        ThresholdView {
            trig: self.trig@,
            clr: self.clr@,
            target: self.target@,
            ks: self.ks@,
            ki: self.ki@,
            kc: self.kc@,
            max_out: self.max_out@,
            min_out: self.min_out@,
            proportion: self.proportion,
        }
    }
}

pub open spec fn empty_threshold() -> ThresholdView {
    ThresholdView {
        trig: Seq::empty(),
        clr: Seq::empty(),
        target: Seq::empty(),
        ks: Seq::empty(),
        ki: Seq::empty(),
        kc: Seq::empty(),
        max_out: Seq::empty(),
        min_out: Seq::empty(),
        proportion: 0,
    }
}

pub fn copy_ints(v: &Vec<i32>) -> (r: Vec<i32>)
    ensures
        r@ == v@,
{
    let r = v.clone();
    assert(r@ =~= v@);
    r
}

impl Default for Threshold {
    fn default() -> (r: Self)
        ensures
            r@ == empty_threshold(),
    {
        Threshold {
            trig: Vec::new(),
            clr: Vec::new(),
            target: Vec::new(),
            ks: Vec::new(),
            ki: Vec::new(),
            kc: Vec::new(),
            max_out: Vec::new(),
            min_out: Vec::new(),
            proportion: 0,
        }
    }
}

impl Clone for Threshold {
    fn clone(&self) -> (r: Self)
        ensures
            r@ == self@,
    {
        Threshold {
            trig: copy_ints(&self.trig),
            clr: copy_ints(&self.clr),
            target: copy_ints(&self.target),
            ks: copy_ints(&self.ks),
            ki: copy_ints(&self.ki),
            kc: copy_ints(&self.kc),
            max_out: copy_ints(&self.max_out),
            min_out: copy_ints(&self.min_out),
            proportion: self.proportion,
        }
    }
}

impl Threshold {
    pub fn n_levels(&self) -> (r: usize)
        ensures
            r == self@.trig.len(),
    {
        self.trig.len()
    }
}

// ---------------------------------------------------------------------------
// Actions
// ---------------------------------------------------------------------------

#[derive(Debug)]
pub struct Action {
    pub type_: ActionType,
    pub target: String,
    pub value: i32,
}

pub struct ActionView {
    pub type_: ActionType,
    pub target: Seq<char>,
    pub value: i32,
}

impl View for Action {
    type V = ActionView;

    open spec fn view(&self) -> ActionView {
        ActionView { type_: self.type_, target: self.target@, value: self.value }
    }
}

impl Clone for Action {
    fn clone(&self) -> (r: Self)
        ensures
            r@ == self@,
    {
        Action { type_: self.type_, target: self.target.clone(), value: self.value }
    }
}

pub open spec fn action_views(v: Seq<Action>) -> Seq<ActionView> {
    v.map_values(|a: Action| a@)
}

pub proof fn lemma_action_views_push(v: Seq<Action>, x: Action)
    ensures
        action_views(v.push(x)) == action_views(v).push(x@),
{
    assert(action_views(v.push(x)) =~= action_views(v).push(x@));
}

/// Copies of the actions `from..to`.
pub fn copy_actions(v: &Vec<Action>, from: usize, to: usize) -> (r: Vec<Action>)
    requires
        from <= to <= v.len(),
    ensures
        action_views(r@) == action_views(v@).subrange(from as int, to as int),
{
    let mut out: Vec<Action> = Vec::new();
    let mut i: usize = from;
    assert(action_views(out@) =~= action_views(v@).subrange(from as int, from as int));
    while i < to
        invariant
            from <= i <= to <= v.len(),
            action_views(out@) == action_views(v@).subrange(from as int, i as int),
        decreases to - i,
    {
        let a = v[i].clone();
        proof {
            lemma_action_views_push(out@, a);
            assert(action_views(v@).subrange(from as int, i + 1) =~= action_views(v@).subrange(
                from as int,
                i as int,
            ).push(a@));
        }
        out.push(a);
        i += 1;
    }
    out
}

// ---------------------------------------------------------------------------
// Controller state
// ---------------------------------------------------------------------------

/// The history that the incremental PID step needs.
#[derive(Debug, Clone, Copy, PartialEq, Eq, Structural)]
pub struct SicState {
    pub ek_1: i32,
    pub ek_2: i32,
    pub initialized: bool,
    pub initial_value: i32,
}

pub open spec fn fresh_sic_state() -> SicState {
    SicState { ek_1: 0, ek_2: 0, initialized: false, initial_value: 6000000 }
}

impl Default for SicState {
    fn default() -> (r: Self)
        ensures
            r == fresh_sic_state(),
    {
        SicState { ek_1: 0, ek_2: 0, initialized: false, initial_value: 6000000 }
    }
}

/// A configured controller: a sensor, an algorithm with its thresholds, and
/// the actions of each level.
#[derive(Debug)]
pub struct Instance {
    pub name: String,
    pub sensor_idx: Option<usize>,
    pub algo: AlgoType,
    pub sample_ms: i32,
    pub reverse: bool,
    pub threshold: Threshold,
    pub actions: Vec<Action>,
    pub current_level: i32,
    pub current_value: i32,
}

pub struct InstanceView {
    pub name: Seq<char>,
    pub sensor_idx: Option<usize>,
    pub algo: AlgoType,
    pub sample_ms: i32,
    pub reverse: bool,
    pub threshold: ThresholdView,
    pub actions: Seq<ActionView>,
    pub current_level: i32,
    pub current_value: i32,
}

impl View for Instance {
    type V = InstanceView;

    open spec fn view(&self) -> InstanceView {
        InstanceView {
            name: self.name@,
            sensor_idx: self.sensor_idx,
            algo: self.algo,
            sample_ms: self.sample_ms,
            reverse: self.reverse,
            threshold: self.threshold@,
            actions: action_views(self.actions@),
            current_level: self.current_level,
            current_value: self.current_value,
        }
    }
}

pub open spec fn instance_views(v: Seq<Instance>) -> Seq<InstanceView> {
    v.map_values(|x: Instance| x@)
}

pub proof fn lemma_instance_views_push(v: Seq<Instance>, x: Instance)
    ensures
        instance_views(v.push(x)) == instance_views(v).push(x@),
{
    assert(instance_views(v.push(x)) =~= instance_views(v).push(x@));
}

/// Algorithms by their names, in small letters; any other name means to monitor.
pub proof fn law_algorithms_by_name(s: Seq<char>)
    ensures
        lowercase(s) == "simulated"@ <==> algo_of(s) == AlgoType::Simulated,
        lowercase(s) == "virtual"@ <==> algo_of(s) == AlgoType::Virtual,
        lowercase(s) == "ss"@ <==> algo_of(s) == AlgoType::Ss,
        lowercase(s) == "sic"@ <==> algo_of(s) == AlgoType::Sic,
{
    reveal_strlit("simulated");
    reveal_strlit("virtual");
    reveal_strlit("ss");
    reveal_strlit("sic");
    assert("simulated"@.len() == 9 && "virtual"@.len() == 7);
    assert("ss"@.len() == 2 && "sic"@.len() == 3);
}

/// Every algorithm has a number of its own, in the order of their names in a dump.
pub proof fn law_algorithm_codes(a: AlgoType)
    ensures
        a.spec_code() == 0 <==> a == AlgoType::Simulated,
        a.spec_code() == 1 <==> a == AlgoType::Virtual,
        a.spec_code() == 2 <==> a == AlgoType::Monitor,
        a.spec_code() == 3 <==> a == AlgoType::Ss,
        a.spec_code() == 4 <==> a == AlgoType::Sic,
{
}

/// A sensor starts with its name alone: no path, zone, reading or inputs, and a reading every
/// second. A PID history starts with no errors and an initial value of six amperes.
pub proof fn law_fresh_values(name: Seq<char>)
    ensures
        ({
            let x = fresh_sensor(name);
            &&& x.name == name && x.path.len() == 0
            &&& x.type_ == SensorType::ThermalZone
            &&& x.zone_id == -1 && x.cdev_id == -1
            &&& x.poll_ms == 1000 && x.last_temp_mc == 0
            &&& x.inputs.len() == 0 && x.weights.len() == 0
            &&& x.weight_sum == 0 && x.compensation == 0
        }),
        ({
            let x = fresh_sic_state();
            x.ek_1 == 0 && x.ek_2 == 0 && !x.initialized && x.initial_value == 6_000_000
        }),
{
}

/// Sensor types by their codes: 1 is virtual, 2 a formula, everything else a thermal zone.
pub proof fn law_sensor_types(v: i32)
    ensures
        SensorType::of_code(v) == SensorType::Virtual <==> v == 1,
        SensorType::of_code(v) == SensorType::Formula <==> v == 2,
        SensorType::of_code(v) == SensorType::ThermalZone <==> v != 1 && v != 2,
{
}

} // verus!
