//! Cooling channels: what can be written, in which group it is, and what an
//! action means for it.

use vstd::prelude::*;

use crate::ai::lerp_by_action;
#[allow(unused_imports)]
use crate::ai::{law_lerp_monotone, lerp};
use crate::algorithm::{find_segment, increment, value_or};
#[allow(unused_imports)]
use crate::algorithm::{
    at_or, bounds_ordered, pid_sum, segment, sic_next, sic_output, started,
};
use crate::arith::{clamp_i128, div_round};
#[allow(unused_imports)]
use crate::arith::{clamped, lower_of, round_div, upper_of};
use crate::config::{parse_config_blocks, ConfigBlock};
#[allow(unused_imports)]
use crate::config::{block_views, blocks_of, BlockView};
use crate::sensor::EngineDiscovery;
#[allow(unused_imports)]
use crate::sensor::{lemma_named_at, sensor_named};
use crate::text::{chars_of, parse_int, same_text, starts_with, to_lower, words_of};
#[allow(unused_imports)]
use crate::text::{has_prefix, int_of, lowercase, texts, views, words};
use crate::types::{copy_ints, ActionType, Sensor, SicState};
#[allow(unused_imports)]
use crate::types::{fresh_sic_state, sensor_views, SensorView, ThresholdView};

verus! {

// ---------------------------------------------------------------------------
// Groups
// ---------------------------------------------------------------------------

/// The control domains. Each has action values of its own.
#[derive(Debug, Clone, Copy, PartialEq, Eq, Structural)]
pub enum ChannelGroup {
    Compute,
    Thermal,
    Charging,
    Display,
}

impl ChannelGroup {
    pub open spec fn label(self) -> Seq<char> {
        match self {
            ChannelGroup::Compute => "compute"@,
            ChannelGroup::Thermal => "thermal"@,
            ChannelGroup::Charging => "charging"@,
            ChannelGroup::Display => "display"@,
        }
    }

    pub fn name(&self) -> (r: String)
        ensures
            r@ == self.label(),
    {
        match self {
            ChannelGroup::Compute => "compute".to_string(),
            ChannelGroup::Thermal => "thermal".to_string(),
            ChannelGroup::Charging => "charging".to_string(),
            ChannelGroup::Display => "display".to_string(),
        }
    }

    /// The group with a name.
    pub open spec fn named(s: Seq<char>) -> Option<ChannelGroup> {
        if s == "compute"@ {
            Some(ChannelGroup::Compute)
        } else if s == "thermal"@ {
            Some(ChannelGroup::Thermal)
        } else if s == "charging"@ {
            Some(ChannelGroup::Charging)
        } else if s == "display"@ {
            Some(ChannelGroup::Display)
        } else {
            None
        }
    }

    pub fn from_name(s: &str) -> (r: Option<Self>)
        ensures
            r == ChannelGroup::named(s@),
    {
        if same_text(s, "compute") {
            Some(ChannelGroup::Compute)
        } else if same_text(s, "thermal") {
            Some(ChannelGroup::Thermal)
        } else if same_text(s, "charging") {
            Some(ChannelGroup::Charging)
        } else if same_text(s, "display") {
            Some(ChannelGroup::Display)
        } else {
            None
        }
    }
}

/// Every group is found again by its name.
pub proof fn law_group_names_round_trip(g: ChannelGroup)
    ensures
        ChannelGroup::named(g.label()) == Some(g),
{
    reveal_strlit("compute");
    reveal_strlit("thermal");
    reveal_strlit("charging");
    reveal_strlit("display");
    assert("compute"@[0] == 'c' && "compute"@[1] == 'o');
    assert("thermal"@[0] == 't');
    assert("charging"@[0] == 'c' && "charging"@[1] == 'h');
    assert("display"@[0] == 'd');
}

/// An action for each group.
#[derive(Debug, Clone, Copy, PartialEq, Eq, Structural)]
pub struct GroupActions {
    pub compute: u8,
    pub thermal: u8,
    pub charging: u8,
    pub display: u8,
}

impl GroupActions {
    pub open spec fn of(self, group: ChannelGroup) -> u8 {
        match group {
            ChannelGroup::Compute => self.compute,
            ChannelGroup::Thermal => self.thermal,
            ChannelGroup::Charging => self.charging,
            ChannelGroup::Display => self.display,
        }
    }

    pub fn get(&self, group: ChannelGroup) -> (r: u8)
        ensures
            r == self.of(group),
    {
        match group {
            ChannelGroup::Compute => self.compute,
            ChannelGroup::Thermal => self.thermal,
            ChannelGroup::Charging => self.charging,
            ChannelGroup::Display => self.display,
        }
    }
}

// ---------------------------------------------------------------------------
// Channels
// ---------------------------------------------------------------------------

/// The coefficients of a PID-controlled channel, per segment.
#[derive(Debug)]
pub struct PidConfig {
    pub ks: Vec<i32>,
    pub ki: Vec<i32>,
    pub kc: Vec<i32>,
    pub max_out: Vec<i32>,
    pub min_out: Vec<i32>,
    pub targets: Vec<i32>,
    pub triggers: Vec<i32>,
}

pub struct PidView {
    pub ks: Seq<i32>,
    pub ki: Seq<i32>,
    pub kc: Seq<i32>,
    pub max_out: Seq<i32>,
    pub min_out: Seq<i32>,
    pub targets: Seq<i32>,
    pub triggers: Seq<i32>,
}

impl View for PidConfig {
    type V = PidView;

    open spec fn view(&self) -> PidView {
        PidView {
            ks: self.ks@,
            ki: self.ki@,
            kc: self.kc@,
            max_out: self.max_out@,
            min_out: self.min_out@,
            targets: self.targets@,
            triggers: self.triggers@,
        }
    }
}

/// A writable node, with its last known value and its range.
#[derive(Debug)]
pub struct CoolingChannel {
    pub name: String,
    pub path: String,
    pub action_type: ActionType,
    pub group: ChannelGroup,
    pub value: i32,
    pub min_val: i32,
    pub max_val: i32,
    pub pid: Option<PidConfig>,
    pub pid_state: SicState,
    pub sensor_name: Option<String>,
}

pub struct ChannelView {
    pub name: Seq<char>,
    pub path: Seq<char>,
    pub action_type: ActionType,
    pub group: ChannelGroup,
    pub value: i32,
    pub min_val: i32,
    pub max_val: i32,
    pub pid: Option<PidView>,
    pub pid_state: SicState,
    pub sensor_name: Option<Seq<char>>,
}

pub open spec fn pid_view(p: Option<PidConfig>) -> Option<PidView> {
    match p {
        Some(p) => Some(p@),
        None => None,
    }
}

pub open spec fn name_view(n: Option<String>) -> Option<Seq<char>> {
    match n {
        Some(n) => Some(n@),
        None => None,
    }
}

impl View for CoolingChannel {
    type V = ChannelView;

    open spec fn view(&self) -> ChannelView {
        ChannelView {
            name: self.name@,
            path: self.path@,
            action_type: self.action_type,
            group: self.group,
            value: self.value,
            min_val: self.min_val,
            max_val: self.max_val,
            pid: pid_view(self.pid),
            pid_state: self.pid_state,
            sensor_name: name_view(self.sensor_name),
        }
    }
}

pub open spec fn channel_views(v: Seq<CoolingChannel>) -> Seq<ChannelView> {
    v.map_values(|c: CoolingChannel| c@)
}

proof fn lemma_channel_views_push(v: Seq<CoolingChannel>, c: CoolingChannel)
    ensures
        channel_views(v.push(c)) == channel_views(v).push(c@),
{
    assert(channel_views(v.push(c)) =~= channel_views(v).push(c@));
}

pub(crate) proof fn lemma_channel_views_update(v: Seq<CoolingChannel>, i: int, c: CoolingChannel)
    requires
        0 <= i < v.len(),
    ensures
        channel_views(v.update(i, c)) == channel_views(v).update(i, c@),
{
    assert(channel_views(v.update(i, c)) =~= channel_views(v).update(i, c@));
}

/// A channel that no PID controls.
pub open spec fn plain_channel(
    name: Seq<char>,
    path: Seq<char>,
    action_type: ActionType,
    group: ChannelGroup,
    value: int,
    min_val: int,
    max_val: int,
) -> ChannelView {
    ChannelView {
        name,
        path,
        action_type,
        group,
        value: value as i32,
        min_val: min_val as i32,
        max_val: max_val as i32,
        pid: None,
        pid_state: fresh_sic_state(),
        sensor_name: None,
    }
}

fn make_channel(
    name: &str,
    path: &str,
    action_type: ActionType,
    group: ChannelGroup,
    value: i32,
    min_val: i32,
    max_val: i32,
) -> (r: CoolingChannel)
    ensures
        r@ == plain_channel(
            name@,
            path@,
            action_type,
            group,
            value as int,
            min_val as int,
            max_val as int,
        ),
{
    CoolingChannel {
        name: name.to_string(),
        path: path.to_string(),
        action_type,
        group,
        value,
        min_val,
        max_val,
        pid: None,
        pid_state: SicState::default(),
        sensor_name: None,
    }
}

// ---------------------------------------------------------------------------
// Discovery
// ---------------------------------------------------------------------------

pub const BALANCE_MODE_NODE: &'static str = "/sys/class/thermal/thermal_message/balance_mode";
pub const BOOST_NODE: &'static str = "/sys/class/thermal/thermal_message/boost";
pub const CHARGE_CURRENT_NODE: &'static str =
    "/sys/class/power_supply/battery/constant_charge_current";
pub const CHARGE_CURRENT_MAX_NODE: &'static str =
    "/sys/class/power_supply/battery/constant_charge_current_max";
pub const POLICY0_NODE: &'static str = "/sys/devices/system/cpu/cpufreq/policy0/scaling_max_freq";
pub const POLICY3_NODE: &'static str = "/sys/devices/system/cpu/cpufreq/policy3/scaling_max_freq";
pub const POLICY7_NODE: &'static str = "/sys/devices/system/cpu/cpufreq/policy7/scaling_max_freq";
pub const GPU_NODE: &'static str = "/sys/class/kgsl/kgsl-3d0/devfreq/max_freq";
pub const GPU_FREQUENCIES_NODE: &'static str =
    "/sys/class/kgsl/kgsl-3d0/devfreq/available_frequencies";
pub const BACKLIGHT_NODE: &'static str = "/sys/class/backlight/panel0-backlight/brightness";
pub const MAX_BACKLIGHT_NODE: &'static str =
    "/sys/class/backlight/panel0-backlight/max_brightness";

/// The contents of the nodes that channels are made of; a node that does not
/// exist has none.
#[derive(Debug)]
pub struct HardwareReadings {
    pub balance_mode: Option<i32>,
    pub boost: Option<i32>,
    pub charge_current: Option<i32>,
    pub charge_current_max: i32,
    pub policy0: Option<i32>,
    pub policy3: Option<i32>,
    pub policy7: Option<i32>,
    pub gpu: Option<i32>,
    pub gpu_frequencies: Option<String>,
    pub backlight: Option<i32>,
    pub max_backlight: i32,
}

/// A reading, or a default where it is not positive.
pub open spec fn positive_or(v: i32, default: int) -> int {
    if v > 0 {
        v as int
    } else {
        default
    }
}

fn positive(v: i32, default: i32) -> (r: i32)
    ensures
        r == positive_or(v, default as int),
{
    if v > 0 {
        v
    } else {
        default
    }
}

/// The numbers among some words.
pub open spec fn numbers_in(w: Seq<Seq<char>>, n: int) -> Seq<i32>
    decreases n,
{
    if n <= 0 {
        Seq::empty()
    } else {
        match int_of(w[n - 1]) {
            Some(x) => numbers_in(w, n - 1).push(x),
            None => numbers_in(w, n - 1),
        }
    }
}

/// The frequencies in the content of a node.
pub open spec fn frequencies(content: Option<String>) -> Seq<i32> {
    match content {
        Some(c) => numbers_in(words(c@), words(c@).len() as int),
        None => Seq::empty(),
    }
}

pub open spec fn greatest(v: Seq<i32>) -> int
    decreases v.len(),
{
    if v.len() == 0 {
        0
    } else if v.len() == 1 {
        v[0] as int
    } else {
        upper_of(greatest(v.drop_last()), v.last() as int)
    }
}

pub open spec fn least(v: Seq<i32>) -> int
    decreases v.len(),
{
    if v.len() == 0 {
        0
    } else if v.len() == 1 {
        v[0] as int
    } else {
        lower_of(least(v.drop_last()), v.last() as int)
    }
}

/// The greatest charge current.
pub open spec fn charge_limit(hw: HardwareReadings) -> int {
    positive_or(hw.charge_current_max, 12_000_000)
}

/// The channel of a frequency policy: from 30% of the maximum to the maximum.
pub open spec fn policy_channel(
    name: Seq<char>,
    path: Seq<char>,
    reading: i32,
    hw_max: int,
) -> ChannelView {
    plain_channel(
        name,
        path,
        ActionType::CpuFreq,
        ChannelGroup::Compute,
        positive_or(reading, hw_max),
        hw_max * 3 / 10,
        hw_max,
    )
}

/// The channels that the hardware has, each in its place or missing.
pub open spec fn possible_channels(hw: HardwareReadings) -> Seq<Option<ChannelView>> {
    let freqs = frequencies(hw.gpu_frequencies);
    seq![
        match hw.balance_mode {
            Some(v) => Some(
                plain_channel(
                    "balance_mode"@,
                    BALANCE_MODE_NODE@,
                    ActionType::NoAction,
                    ChannelGroup::Compute,
                    clamped(v as int, 0, 9),
                    0,
                    9,
                ),
            ),
            None => None,
        },
        match hw.boost {
            Some(v) => Some(
                plain_channel(
                    "boost"@,
                    BOOST_NODE@,
                    ActionType::NoAction,
                    ChannelGroup::Compute,
                    upper_of(v as int, 0),
                    0,
                    1,
                ),
            ),
            None => None,
        },
        match hw.charge_current {
            Some(v) => Some(
                plain_channel(
                    "charge_current"@,
                    CHARGE_CURRENT_NODE@,
                    ActionType::NoAction,
                    ChannelGroup::Charging,
                    positive_or(v, charge_limit(hw)),
                    500_000,
                    charge_limit(hw),
                ),
            ),
            None => None,
        },
        match hw.policy0 {
            Some(v) => Some(policy_channel("cpu_freq0"@, POLICY0_NODE@, v, 2_016_000)),
            None => None,
        },
        match hw.policy3 {
            Some(v) => Some(policy_channel("cpu_freq3"@, POLICY3_NODE@, v, 2_803_200)),
            None => None,
        },
        match hw.policy7 {
            Some(v) => Some(policy_channel("cpu_freq7"@, POLICY7_NODE@, v, 3_014_400)),
            None => None,
        },
        match hw.gpu {
            Some(v) => if freqs.len() > 0 {
                Some(
                    plain_channel(
                        "gpu"@,
                        GPU_NODE@,
                        ActionType::GpuBoost,
                        ChannelGroup::Compute,
                        positive_or(v, greatest(freqs)),
                        least(freqs),
                        greatest(freqs),
                    ),
                )
            } else {
                None
            },
            None => None,
        },
        match hw.backlight {
            Some(v) => Some(
                plain_channel(
                    "backlight"@,
                    BACKLIGHT_NODE@,
                    ActionType::NoAction,
                    ChannelGroup::Display,
                    positive_or(v, positive_or(hw.max_backlight, 4095)),
                    0,
                    positive_or(hw.max_backlight, 4095),
                ),
            ),
            None => None,
        },
    ]
}

/// The channels among the first `n` places.
pub open spec fn present(v: Seq<Option<ChannelView>>, n: int) -> Seq<ChannelView>
    decreases n,
{
    if n <= 0 {
        Seq::empty()
    } else {
        match v[n - 1] {
            Some(c) => present(v, n - 1).push(c),
            None => present(v, n - 1),
        }
    }
}

/// The channels of the hardware, in order.
pub open spec fn hardware_channels(hw: HardwareReadings) -> Seq<ChannelView> {
    present(possible_channels(hw), 8)
}

fn parse_frequencies(content: &Option<String>) -> (r: Vec<i32>)
    ensures
        r@ == frequencies(*content),
{
    let mut out: Vec<i32> = Vec::new();
    match content {
        Some(c) => {
            let ws = words_of(&chars_of(c.as_str()));
            let ghost wv = words(c@);
            let mut i: usize = 0;
            assert(views(ws@).len() == ws@.len());
            while i < ws.len()
                invariant
                    i <= ws@.len(),
                    views(ws@) == wv,
                    ws@.len() == wv.len(),
                    out@ == numbers_in(wv, i as int),
                decreases ws@.len() - i,
            {
                assert(views(ws@)[i as int] == ws@[i as int]@);
                match parse_int(&ws[i]) {
                    Some(x) => {
                        out.push(x);
                    },
                    None => {},
                }
                i += 1;
            }
        },
        None => {},
    }
    out
}

fn extremes(v: &Vec<i32>) -> (r: (i32, i32))
    requires
        v@.len() > 0,
    ensures
        r.0 == least(v@),
        r.1 == greatest(v@),
{
    let mut lo: i32 = v[0];
    let mut hi: i32 = v[0];
    let mut i: usize = 1;
    assert(v@.take(1)[0] == v@[0]);
    while i < v.len()
        invariant
            1 <= i <= v@.len(),
            lo == least(v@.take(i as int)),
            hi == greatest(v@.take(i as int)),
        decreases v@.len() - i,
    {
        assert(v@.take(i + 1).drop_last() =~= v@.take(i as int));
        assert(v@.take(i + 1).last() == v@[i as int]);
        if v[i] < lo {
            lo = v[i];
        }
        if v[i] > hi {
            hi = v[i];
        }
        i += 1;
    }
    assert(v@.take(i as int) =~= v@);
    (lo, hi)
}

/// Adds a channel that the hardware has.
fn add_channel(
    channels: &mut Vec<CoolingChannel>,
    channel: Option<CoolingChannel>,
    Ghost(all): Ghost<Seq<Option<ChannelView>>>,
    Ghost(n): Ghost<int>,
)
    requires
        0 <= n < all.len(),
        channel is Some <==> all[n] is Some,
        channel is Some ==> channel->Some_0@ == all[n]->Some_0,
        channel_views(old(channels)@) == present(all, n),
    ensures
        channel_views(final(channels)@) == present(all, n + 1),
{
    match channel {
        Some(c) => {
            proof {
                lemma_channel_views_push(channels@, c);
            }
            channels.push(c);
        },
        None => {},
    }
}

fn policy(name: &str, path: &str, reading: Option<i32>, hw_max: i32) -> (r: Option<CoolingChannel>)
    requires
        0 <= hw_max <= 10_000_000,
    ensures
        r is Some <==> reading is Some,
        r is Some ==> r->Some_0@ == policy_channel(name@, path@, reading->Some_0, hw_max as int),
{
    match reading {
        Some(v) => Some(
            make_channel(
                name,
                path,
                ActionType::CpuFreq,
                ChannelGroup::Compute,
                positive(v, hw_max),
                hw_max * 3 / 10,
                hw_max,
            ),
        ),
        None => None,
    }
}

/// The channels that the hardware has, from the contents of its nodes.
pub fn discover_hardware_channels(hw: &HardwareReadings) -> (r: Vec<CoolingChannel>)
    ensures
        channel_views(r@) == hardware_channels(*hw),
{
    let ghost all = possible_channels(*hw);
    let mut channels: Vec<CoolingChannel> = Vec::new();
    assert(channel_views(channels@) =~= present(all, 0));

    let balance = match hw.balance_mode {
        Some(v) => {
            let cur: i32 = if v < 0 {
                0
            } else if v > 9 {
                9
            } else {
                v
            };
            Some(
                make_channel(
                    "balance_mode",
                    BALANCE_MODE_NODE,
                    ActionType::NoAction,
                    ChannelGroup::Compute,
                    cur,
                    0,
                    9,
                ),
            )
        },
        None => None,
    };
    add_channel(&mut channels, balance, Ghost(all), Ghost(0));

    let boost = match hw.boost {
        Some(v) => {
            let cur: i32 = if v > 0 {
                v
            } else {
                0
            };
            Some(
                make_channel(
                    "boost",
                    BOOST_NODE,
                    ActionType::NoAction,
                    ChannelGroup::Compute,
                    cur,
                    0,
                    1,
                ),
            )
        },
        None => None,
    };
    add_channel(&mut channels, boost, Ghost(all), Ghost(1));

    let charge = match hw.charge_current {
        Some(v) => {
            let max_val: i32 = positive(hw.charge_current_max, 12_000_000);
            Some(
                make_channel(
                    "charge_current",
                    CHARGE_CURRENT_NODE,
                    ActionType::NoAction,
                    ChannelGroup::Charging,
                    positive(v, max_val),
                    500_000,
                    max_val,
                ),
            )
        },
        None => None,
    };
    add_channel(&mut channels, charge, Ghost(all), Ghost(2));

    add_channel(
        &mut channels,
        policy("cpu_freq0", POLICY0_NODE, hw.policy0, 2_016_000),
        Ghost(all),
        Ghost(3),
    );
    add_channel(
        &mut channels,
        policy("cpu_freq3", POLICY3_NODE, hw.policy3, 2_803_200),
        Ghost(all),
        Ghost(4),
    );
    add_channel(
        &mut channels,
        policy("cpu_freq7", POLICY7_NODE, hw.policy7, 3_014_400),
        Ghost(all),
        Ghost(5),
    );

    let gpu = match hw.gpu {
        Some(v) => {
            let freqs = parse_frequencies(&hw.gpu_frequencies);
            if freqs.len() > 0 {
                let (lo, hi) = extremes(&freqs);
                Some(
                    make_channel(
                        "gpu",
                        GPU_NODE,
                        ActionType::GpuBoost,
                        ChannelGroup::Compute,
                        positive(v, hi),
                        lo,
                        hi,
                    ),
                )
            } else {
                None
            }
        },
        None => None,
    };
    add_channel(&mut channels, gpu, Ghost(all), Ghost(6));

    let backlight = match hw.backlight {
        Some(v) => {
            let max_val: i32 = positive(hw.max_backlight, 4095);
            Some(
                make_channel(
                    "backlight",
                    BACKLIGHT_NODE,
                    ActionType::NoAction,
                    ChannelGroup::Display,
                    positive(v, max_val),
                    0,
                    max_val,
                ),
            )
        },
        None => None,
    };
    add_channel(&mut channels, backlight, Ghost(all), Ghost(7));
    channels
}

// ---------------------------------------------------------------------------
// PID channels from the configuration
// ---------------------------------------------------------------------------

/// The position of the first channel with a name, or the number of channels.
pub open spec fn channel_at(c: Seq<ChannelView>, name: Seq<char>) -> int
    decreases c.len(),
{
    if c.len() == 0 || c[0].name == name {
        0
    } else {
        1 + channel_at(c.skip(1), name)
    }
}

pub proof fn lemma_channel_at(c: Seq<ChannelView>, name: Seq<char>)
    ensures
        0 <= channel_at(c, name) <= c.len(),
        channel_at(c, name) < c.len() ==> c[channel_at(c, name)].name == name,
        forall|i: int| 0 <= i < channel_at(c, name) ==> (#[trigger] c[i]).name != name,
    decreases c.len(),
{
    if c.len() > 0 && c[0].name != name {
        let t = c.skip(1);
        lemma_channel_at(t, name);
        assert forall|i: int| 0 <= i < channel_at(c, name) implies (#[trigger] c[i]).name
            != name by {
            if i > 0 {
                assert(t[i - 1] == c[i]);
            }
        }
    }
}

pub(crate) fn find_channel(channels: &Vec<CoolingChannel>, name: &str) -> (r: Option<usize>)
    ensures
        match r {
            Some(i) => i < channels@.len() && i == channel_at(channel_views(channels@), name@),
            None => channel_at(channel_views(channels@), name@) == channels@.len(),
        },
{
    let ghost cv = channel_views(channels@);
    proof {
        lemma_channel_at(cv, name@);
    }
    let mut i: usize = 0;
    while i < channels.len()
        invariant
            i <= channels@.len(),
            cv == channel_views(channels@),
            forall|k: int| 0 <= k < i ==> (#[trigger] cv[k]).name != name@,
            0 <= channel_at(cv, name@) <= cv.len(),
            channel_at(cv, name@) < cv.len() ==> cv[channel_at(cv, name@)].name == name@,
            forall|k: int| 0 <= k < channel_at(cv, name@) ==> (#[trigger] cv[k]).name != name@,
        decreases channels@.len() - i,
    {
        assert(cv[i as int] == channels@[i as int]@);
        if same_text(channels[i].name.as_str(), name) {
            return Some(i);
        }
        i += 1;
    }
    None
}

/// The PID coefficients that a block defines.
pub open spec fn block_pid(b: BlockView) -> PidView {
    PidView {
        ks: b.threshold.ks,
        ki: b.threshold.ki,
        kc: b.threshold.kc,
        max_out: b.threshold.max_out,
        min_out: b.threshold.min_out,
        targets: b.threshold.target,
        triggers: b.threshold.trig,
    }
}

/// Does a block define a PID controller for its first device?
pub open spec fn defines_pid(b: BlockView) -> bool {
    lowercase(b.algo_str) == "sic"@ && b.devices.len() > 0 && b.threshold.trig.len() > 0
}

/// A channel under the PID controller of a block. It moves from the compute to
/// the thermal group, except for the graphics processor.
pub open spec fn under_pid(c: ChannelView, b: BlockView) -> ChannelView {
    ChannelView {
        pid: Some(block_pid(b)),
        sensor_name: Some(b.sensor_name),
        group: if c.group == ChannelGroup::Compute && c.name != "gpu"@ {
            ChannelGroup::Thermal
        } else {
            c.group
        },
        ..c
    }
}

/// The channels after a block.
pub open spec fn enriched_by(c: Seq<ChannelView>, b: BlockView) -> Seq<ChannelView> {
    if defines_pid(b) && channel_at(c, b.devices[0]) < c.len() {
        let i = channel_at(c, b.devices[0]);
        c.update(i, under_pid(c[i], b))
    } else {
        c
    }
}

/// The channels after some blocks.
pub open spec fn enriched(c: Seq<ChannelView>, b: Seq<BlockView>) -> Seq<ChannelView>
    decreases b.len(),
{
    if b.len() == 0 {
        c
    } else {
        enriched_by(enriched(c, b.drop_last()), b.last())
    }
}

fn enrich_by(channels: &mut Vec<CoolingChannel>, b: &ConfigBlock)
    ensures
        channel_views(final(channels)@) == enriched_by(channel_views(old(channels)@), b@),
{
    let ghost cv = channel_views(channels@);
    let algo = to_lower(b.algo_str.as_str());
    if !same_text(algo.as_str(), "sic") || b.devices.len() == 0 || b.threshold.trig.len() == 0 {
        return;
    }
    assert(texts(b.devices@)[0] == b.devices@[0]@);
    match find_channel(channels, b.devices[0].as_str()) {
        Some(i) => {
            let ghost before = channels@;
            let pid = PidConfig {
                ks: copy_ints(&b.threshold.ks),
                ki: copy_ints(&b.threshold.ki),
                kc: copy_ints(&b.threshold.kc),
                max_out: copy_ints(&b.threshold.max_out),
                min_out: copy_ints(&b.threshold.min_out),
                targets: copy_ints(&b.threshold.target),
                triggers: copy_ints(&b.threshold.trig),
            };
            let gpu: bool = same_text(channels[i].name.as_str(), "gpu");
            let sensor_name = b.sensor_name.clone();
            channels[i].pid = Some(pid);
            channels[i].sensor_name = Some(sensor_name);
            if channels[i].group == ChannelGroup::Compute && !gpu {
                channels[i].group = ChannelGroup::Thermal;
            }
            proof {
                lemma_channel_views_update(before, i as int, channels@[i as int]);
                assert(channels@ =~= before.update(i as int, channels@[i as int]));
                assert(channels@[i as int]@ == under_pid(before[i as int]@, b@));
            }
        },
        None => {},
    }
}

/// Puts channels under the PID controllers that a configuration defines.
pub fn enrich_from_config(channels: &mut Vec<CoolingChannel>, content: &str)
    ensures
        channel_views(final(channels)@) == enriched(
            channel_views(old(channels)@),
            blocks_of(content@),
        ),
{
    let blocks = parse_config_blocks(content);
    let ghost bv = block_views(blocks@);
    let ghost c0 = channel_views(channels@);
    let mut i: usize = 0;
    assert(bv.take(0) =~= Seq::empty());
    while i < blocks.len()
        invariant
            i <= blocks@.len(),
            bv == block_views(blocks@),
            channel_views(channels@) == enriched(c0, bv.take(i as int)),
        decreases blocks@.len() - i,
    {
        proof {
            assert(bv.take(i + 1).drop_last() =~= bv.take(i as int));
            assert(bv.take(i + 1).last() == blocks@[i as int]@);
        }
        enrich_by(channels, &blocks[i]);
        i += 1;
    }
    assert(bv.take(blocks@.len() as int) =~= bv);
}

// ---------------------------------------------------------------------------
// What an action means for a channel
// ---------------------------------------------------------------------------

/// The setpoint that an action selects among the targets.
pub open spec fn setpoint(action: u8, p: PidView) -> int {
    if p.targets.len() == 0 {
        0
    } else {
        p.targets[lower_of(action * p.targets.len() / 10, p.targets.len() - 1)] as int
    }
}

pub open spec fn pid_upper(p: PidView, seg: int) -> int {
    at_or(p.max_out, seg, i32::MAX as int) * 1000
}

pub open spec fn pid_lower(p: PidView, seg: int) -> int {
    at_or(p.min_out, seg, 0) * 1000
}

/// Are the output bounds of the segment that a temperature falls into in order?
pub open spec fn pid_ordered(p: PidView, temp: i32) -> bool {
    pid_lower(p, segment(p.triggers, temp)) <= pid_upper(p, segment(p.triggers, temp))
}

/// The error of a channel, reduced to 32 bits.
pub open spec fn channel_error(target: int, temp: i32) -> i32 {
    (target - temp) as i32
}

/// The output of the PID step of a channel, before it is bounded.
pub open spec fn pid_unbounded(
    target: int,
    temp: i32,
    p: PidView,
    state: SicState,
    current: i32,
) -> int {
    let ek = channel_error(target, temp);
    let seg = segment(p.triggers, temp);
    let h = started(state, ek);
    let from = if state.initialized {
        current
    } else {
        state.initial_value
    };
    from + round_div(
        pid_sum(
            at_or(p.ks, seg, 0),
            at_or(p.kc, seg, 0),
            at_or(p.ki, seg, 0),
            ek as int,
            h.ek_1 as int,
            h.ek_2 as int,
        ),
        1000,
    )
}

/// The output of the PID step of a channel.
pub open spec fn pid_output(
    target: int,
    temp: i32,
    p: PidView,
    state: SicState,
    current: i32,
) -> i32 {
    let seg = segment(p.triggers, temp);
    clamped(
        pid_unbounded(target, temp, p, state, current),
        pid_lower(p, seg),
        pid_upper(p, seg),
    ) as i32
}

/// The history of a channel after its PID step.
pub open spec fn pid_next(target: int, temp: i32, state: SicState) -> SicState {
    let ek = channel_error(target, temp);
    let h = started(state, ek);
    SicState { ek_1: ek, ek_2: h.ek_1, ..h }
}

/// The value that an action stands for on a channel without PID.
pub open spec fn channel_value(c: ChannelView, action: u8) -> i32 {
    if c.name == "balance_mode"@ {
        lower_of(action * 7 / 9, 7) as i32
    } else if c.name == "boost"@ {
        1
    } else if action > 9 {
        c.value
    } else {
        lerp(action, c.min_val, upper_of(c.max_val - c.min_val, 1) as i32, true)
    }
}

/// The temperature that a channel is controlled by.
pub open spec fn channel_temp(c: ChannelView, s: Seq<SensorView>) -> i32 {
    match c.sensor_name {
        Some(n) => match sensor_named(s, n) {
            Some(i) => s[i as int].last_temp_mc,
            None => 0,
        },
        None => 0,
    }
}

/// The channel after the decision of a tick, and the value to be written to it,
/// if any. The charge current is never written here, nor the backlight without a
/// PID; boost and processor frequencies are written every time, other channels
/// when their value changes.
pub open spec fn stepped(c: ChannelView, action: u8, s: Seq<SensorView>) -> (
    ChannelView,
    Option<i32>,
) {
    if c.name == "charge_current"@ {
        (c, None)
    } else {
        match c.pid {
            Some(p) => {
                let target = setpoint(action, p);
                let temp = channel_temp(c, s);
                let output = pid_output(target, temp, p, c.pid_state, c.value);
                (
                    ChannelView { pid_state: pid_next(target, temp, c.pid_state), ..c },
                    if output != c.value {
                        Some(output)
                    } else {
                        None
                    },
                )
            },
            None => {
                let value = channel_value(c, action);
                (
                    c,
                    if c.name == "backlight"@ {
                        None
                    } else if c.name == "boost"@ || has_prefix(c.name, "cpu_freq"@) || value
                        != c.value {
                        Some(value)
                    } else {
                        None
                    },
                )
            },
        }
    }
}

/// Is the value of a channel taken as written even where the write fails?
pub open spec fn is_assumed(c: ChannelView) -> bool {
    c.pid is None && c.name == "boost"@
}

fn action_to_setpoint(action: u8, pid: &PidConfig) -> (r: i32)
    requires
        pid.targets@.len() <= 0xff_ffff,
    ensures
        r == setpoint(action, pid@),
{
    let n: usize = pid.targets.len();
    if n == 0 {
        return 0;
    }
    proof {
        assert(0 <= action * n <= 0xff * 0xff_ffff) by (nonlinear_arith)
            requires
                0 <= action <= 0xff,
                0 <= n <= 0xff_ffff,
        ;
    }
    let k: usize = (action as usize * n) / 10;
    if k < n {
        pid.targets[k]
    } else {
        pid.targets[n - 1]
    }
}

/// A channel and a configured instance are controlled by one algorithm. With the
/// same parameters, history and value, a channel whose setpoint is the target of the
/// segment gets the same output and is left with the same history. Where the segment
/// has no upper bound, that holds of outputs that fit into 32 bits.
pub proof fn law_channel_steps_like_an_instance(
    p: PidView,
    t: ThresholdView,
    temp: i32,
    current: i32,
    state: SicState,
)
    requires
        p.triggers == t.trig,
        p.ks == t.ks,
        p.kc == t.kc,
        p.ki == t.ki,
        p.max_out == t.max_out,
        p.min_out == t.min_out,
        t.trig.len() > 0,
        bounds_ordered(t, temp),
        segment(t.trig, temp) < t.max_out.len() || pid_unbounded(
            at_or(t.target, segment(t.trig, temp), 0),
            temp,
            p,
            state,
            current,
        ) <= i32::MAX,
    ensures
        ({
            let target = at_or(t.target, segment(t.trig, temp), 0);
            &&& pid_output(target, temp, p, state, current) == sic_output(t, current, temp, state)
            &&& pid_next(target, temp, state) == sic_next(t, temp, state)
        }),
{
}

/// The PID step of a channel towards a setpoint.
pub fn algo_sic_channel(
    target: i32,
    sensor_temp: i32,
    pid: &PidConfig,
    state: &mut SicState,
    current_val: i32,
) -> (r: i32)
    requires
        pid_ordered(pid@, sensor_temp),
    ensures
        r == pid_output(target as int, sensor_temp, pid@, *old(state), current_val),
        *final(state) == pid_next(target as int, sensor_temp, *old(state)),
{
    let error: i64 = target as i64 - sensor_temp as i64;
    let ek: i32 = #[verifier::truncate] (error as i32);
    let output_now: i32 = if !state.initialized {
        state.ek_1 = ek;
        state.ek_2 = ek;
        state.initialized = true;
        state.initial_value
    } else {
        current_val
    };
    let seg: usize = find_segment(&pid.triggers, sensor_temp);
    let step: i128 = increment(
        value_or(&pid.ks, seg, 0),
        value_or(&pid.kc, seg, 0),
        value_or(&pid.ki, seg, 0),
        ek,
        state.ek_1,
        state.ek_2,
    );
    let delta: i128 = div_round(step, 1000);
    state.ek_2 = state.ek_1;
    state.ek_1 = ek;
    let hi: i128 = value_or(&pid.max_out, seg, i32::MAX) as i128 * 1000;
    let lo: i128 = value_or(&pid.min_out, seg, 0) as i128 * 1000;
    let output: i128 = clamp_i128(output_now as i128 + delta, lo, hi);
    #[verifier::truncate]
    (output as i32)
}

fn action_to_channel_value(action: u8, ch: &CoolingChannel) -> (r: i32)
    ensures
        r == channel_value(ch@, action),
{
    if same_text(ch.name.as_str(), "balance_mode") {
        let v: i32 = action as i32 * 7 / 9;
        if v < 7 {
            v
        } else {
            7
        }
    } else if same_text(ch.name.as_str(), "boost") {
        1
    } else if action > 9 {
        ch.value
    } else {
        let span: i64 = ch.max_val as i64 - ch.min_val as i64;
        let span: i64 = if span > 1 {
            span
        } else {
            1
        };
        lerp_by_action(action, ch.min_val, #[verifier::truncate] (span as i32), true)
    }
}

/// Can a channel be stepped at these temperatures? Its PID bounds must be in order,
/// and its targets countable.
pub open spec fn steppable(c: ChannelView, s: Seq<SensorView>) -> bool {
    match c.pid {
        Some(p) => c.name == "charge_current"@ || (pid_ordered(p, channel_temp(c, s))
            && p.targets.len() <= 0xff_ffff),
        None => true,
    }
}

pub open spec fn all_steppable(c: Seq<ChannelView>, s: Seq<SensorView>) -> bool {
    forall|i: int| 0 <= i < c.len() ==> steppable(#[trigger] c[i], s)
}

/// The temperature that the PID of a channel looks at.
fn temp_of(ch: &CoolingChannel, sensors: &Vec<Sensor>) -> (r: i32)
    ensures
        r == channel_temp(ch@, sensor_views(sensors@)),
{
    match &ch.sensor_name {
        Some(n) => {
            let none: Vec<usize> = Vec::new();
            proof {
                lemma_named_at(sensor_views(sensors@), n@);
            }
            match EngineDiscovery::find_sensor(sensors, &none, n.as_str()) {
                Some(i) => sensors[i].last_temp_mc,
                None => 0,
            }
        },
        None => 0,
    }
}

/// Tests whether every channel can be stepped at these temperatures.
pub fn are_steppable(channels: &Vec<CoolingChannel>, sensors: &Vec<Sensor>) -> (r: bool)
    ensures
        r == all_steppable(channel_views(channels@), sensor_views(sensors@)),
{
    let ghost cv = channel_views(channels@);
    let ghost s = sensor_views(sensors@);
    let mut i: usize = 0;
    while i < channels.len()
        invariant
            i <= channels@.len(),
            cv == channel_views(channels@),
            s == sensor_views(sensors@),
            forall|k: int| 0 <= k < i ==> steppable(#[trigger] cv[k], s),
        decreases channels@.len() - i,
    {
        assert(cv[i as int] == channels@[i as int]@);
        match &channels[i].pid {
            Some(p) => {
                let seg: usize = find_segment(&p.triggers, temp_of(&channels[i], sensors));
                let lo: i32 = value_or(&p.min_out, seg, 0);
                let hi: i32 = value_or(&p.max_out, seg, i32::MAX);
                if !same_text(channels[i].name.as_str(), "charge_current") && (lo > hi
                    || p.targets.len() > 0xff_ffff) {
                    assert(!steppable(cv[i as int], s));
                    return false;
                }
            },
            None => {},
        }
        assert(steppable(cv[i as int], s));
        i += 1;
    }
    true
}

fn step_channel(ch: &mut CoolingChannel, action: u8, sensors: &Vec<Sensor>) -> (r: Option<i32>)
    requires
        steppable(old(ch)@, sensor_views(sensors@)),
    ensures
        (final(ch)@, r) == stepped(old(ch)@, action, sensor_views(sensors@)),
{
    let ghost before = ch@;
    let ghost s = sensor_views(sensors@);
    if same_text(ch.name.as_str(), "charge_current") {
        return None;
    }
    let name = chars_of(ch.name.as_str());
    match &ch.pid {
        Some(pid) => {
            let target: i32 = action_to_setpoint(action, pid);
            let temp: i32 = temp_of(ch, sensors);
            let mut state = ch.pid_state;
            let output: i32 = algo_sic_channel(target, temp, pid, &mut state, ch.value);
            ch.pid_state = state;
            if output != ch.value {
                Some(output)
            } else {
                None
            }
        },
        None => {
            if same_text(ch.name.as_str(), "backlight") {
                return None;
            }
            let value: i32 = action_to_channel_value(action, ch);
            if same_text(ch.name.as_str(), "boost") || starts_with(&name, "cpu_freq") || value
                != ch.value {
                Some(value)
            } else {
                None
            }
        },
    }
}

// ---------------------------------------------------------------------------
// The writes of a tick
// ---------------------------------------------------------------------------

/// A value to write to a channel. The channel takes it over when the write
/// succeeds, or in any case where it is `assumed`.
#[derive(Debug)]
pub struct ChannelWrite {
    pub channel: usize,
    pub path: String,
    pub value: i32,
    pub assumed: bool,
    /// The frequency policy that the value is the target of.
    pub policy: Option<u32>,
}

pub struct WriteView {
    pub channel: int,
    pub path: Seq<char>,
    pub value: i32,
    pub assumed: bool,
    pub policy: Option<u32>,
}

impl View for ChannelWrite {
    type V = WriteView;

    open spec fn view(&self) -> WriteView {
        WriteView {
            channel: self.channel as int,
            path: self.path@,
            value: self.value,
            assumed: self.assumed,
            policy: self.policy,
        }
    }
}

pub open spec fn write_views(v: Seq<ChannelWrite>) -> Seq<WriteView> {
    v.map_values(|w: ChannelWrite| w@)
}

/// The frequency policy of a channel.
pub open spec fn policy_of(name: Seq<char>) -> Option<u32> {
    if name == "cpu_freq0"@ {
        Some(0)
    } else if name == "cpu_freq3"@ {
        Some(3)
    } else if name == "cpu_freq7"@ {
        Some(7)
    } else {
        None
    }
}

/// The policy whose writer is told a new target: that of a frequency channel
/// without PID.
pub open spec fn target_policy(c: ChannelView) -> Option<u32> {
    if c.pid is None {
        policy_of(c.name)
    } else {
        None
    }
}

/// The frequency policy of a channel name.
pub fn cpu_freq_policy(name: &str) -> (r: Option<u32>)
    ensures
        r == policy_of(name@),
{
    if same_text(name, "cpu_freq0") {
        Some(0)
    } else if same_text(name, "cpu_freq3") {
        Some(3)
    } else if same_text(name, "cpu_freq7") {
        Some(7)
    } else {
        None
    }
}

/// The first `n` channels after the decision of a tick, the others as before.
pub open spec fn channels_after(
    c: Seq<ChannelView>,
    actions: GroupActions,
    s: Seq<SensorView>,
    n: int,
) -> Seq<ChannelView> {
    Seq::new(
        c.len(),
        |i: int|
            if i < n {
                stepped(c[i], actions.of(c[i].group), s).0
            } else {
                c[i]
            },
    )
}

/// The writes to the first `n` channels, in order.
pub open spec fn writes_for(
    c: Seq<ChannelView>,
    actions: GroupActions,
    s: Seq<SensorView>,
    n: int,
) -> Seq<WriteView>
    decreases n,
{
    if n <= 0 {
        Seq::empty()
    } else {
        let ch = c[n - 1];
        match stepped(ch, actions.of(ch.group), s).1 {
            Some(value) => writes_for(c, actions, s, n - 1).push(
                WriteView {
                    channel: n - 1,
                    path: ch.path,
                    value,
                    assumed: is_assumed(ch),
                    policy: target_policy(ch),
                },
            ),
            None => writes_for(c, actions, s, n - 1),
        }
    }
}

/// Decides what is written to the channels. A channel follows the action of its
/// group.
pub fn apply_grouped_actions(
    channels: &mut Vec<CoolingChannel>,
    actions: &GroupActions,
    sensors: &Vec<Sensor>,
) -> (r: Vec<ChannelWrite>)
    requires
        all_steppable(channel_views(old(channels)@), sensor_views(sensors@)),
    ensures
        ({
            let c = channel_views(old(channels)@);
            let s = sensor_views(sensors@);
            &&& channel_views(final(channels)@) == channels_after(c, *actions, s, c.len() as int)
            &&& write_views(r@) == writes_for(c, *actions, s, c.len() as int)
        }),
        final(channels)@.len() == old(channels)@.len(),
{
    let ghost c = channel_views(channels@);
    let ghost s = sensor_views(sensors@);
    let mut writes: Vec<ChannelWrite> = Vec::new();
    let mut i: usize = 0;
    assert(channel_views(channels@) =~= channels_after(c, *actions, s, 0));
    assert(write_views(writes@) =~= Seq::empty());
    while i < channels.len()
        invariant
            i <= channels@.len(),
            channels@.len() == c.len(),
            channels@.len() == old(channels)@.len(),
            s == sensor_views(sensors@),
            all_steppable(c, s),
            channel_views(channels@) == channels_after(c, *actions, s, i as int),
            write_views(writes@) == writes_for(c, *actions, s, i as int),
        decreases channels@.len() - i,
    {
        let ghost before = channels@;
        proof {
            assert(channel_views(channels@)[i as int] == channels@[i as int]@);
            assert(channels_after(c, *actions, s, i as int)[i as int] == c[i as int]);
            assert(steppable(c[i as int], s));
        }
        let action: u8 = actions.get(channels[i].group);
        let path = channels[i].path.clone();
        let assumed: bool = channels[i].pid.is_none() && same_text(
            channels[i].name.as_str(),
            "boost",
        );
        let policy = if channels[i].pid.is_none() {
            cpu_freq_policy(channels[i].name.as_str())
        } else {
            None
        };
        let value = step_channel(&mut channels[i], action, sensors);
        proof {
            lemma_channel_views_update(before, i as int, channels@[i as int]);
            assert(channels@ =~= before.update(i as int, channels@[i as int]));
            assert(channel_views(channels@) =~= channels_after(c, *actions, s, i + 1));
        }
        match value {
            Some(value) => {
                let w = ChannelWrite { channel: i, path, value, assumed, policy };
                let ghost ws = writes@;
                writes.push(w);
                assert(write_views(writes@) =~= write_views(ws).push(w@));
            },
            None => {},
        }
        i += 1;
    }
    writes
}

/// The channels after a write has been carried out.
pub open spec fn confirmed(c: Seq<ChannelView>, w: WriteView, ok: bool) -> Seq<ChannelView> {
    if ok || w.assumed {
        c.update(w.channel, ChannelView { value: w.value, ..c[w.channel] })
    } else {
        c
    }
}

/// Takes over the value of a write that was carried out.
pub fn confirm_write(channels: &mut Vec<CoolingChannel>, w: &ChannelWrite, ok: bool)
    requires
        w.channel < old(channels)@.len(),
    ensures
        channel_views(final(channels)@) == confirmed(channel_views(old(channels)@), w@, ok),
        final(channels)@.len() == old(channels)@.len(),
{
    if ok || w.assumed {
        let ghost before = channels@;
        channels[w.channel].value = w.value;
        proof {
            lemma_channel_views_update(before, w.channel as int, channels@[w.channel as int]);
            assert(channels@ =~= before.update(
                w.channel as int,
                channels@[w.channel as int],
            ));
        }
    }
}

// ---------------------------------------------------------------------------
// Laws
// ---------------------------------------------------------------------------

/// The charge current is never written by the decision of a tick.
pub proof fn law_charge_current_is_not_written(c: ChannelView, action: u8, s: Seq<SensorView>)
    requires
        c.name == "charge_current"@,
    ensures
        stepped(c, action, s) == (c, None::<i32>),
{
}

/// The value of an action lies within the range of its channel, and action 9
/// gives its maximum, action 0 its minimum.
pub proof fn law_channel_value_in_range(c: ChannelView, action: u8)
    requires
        c.name != "balance_mode"@,
        c.name != "boost"@,
        c.min_val < c.max_val,
        c.max_val - c.min_val <= i32::MAX,
        action <= 9,
    ensures
        c.min_val <= channel_value(c, action) <= c.max_val,
        action == 0 ==> channel_value(c, action) == c.min_val,
        action == 9 ==> channel_value(c, action) == c.max_val,
{
    law_lerp_monotone(action, action, c.min_val, (c.max_val - c.min_val) as i32);
    crate::ai::law_lerp_ends(c.min_val, (c.max_val - c.min_val) as i32);
}

/// A setpoint is one of the targets, the first for action 0; with ten targets,
/// action and target correspond one to one.
pub proof fn law_setpoint_is_a_target(action: u8, p: PidView)
    requires
        p.targets.len() > 0,
        action <= 9,
    ensures
        exists|i: int| 0 <= i < p.targets.len() && setpoint(action, p) == #[trigger] p.targets[i],
        action == 0 ==> setpoint(action, p) == p.targets[0],
        p.targets.len() == 10 ==> setpoint(action, p) == p.targets[action as int],
{
    let n = p.targets.len() as int;
    let k = action * n / 10;
    assert(0 <= k < n) by (nonlinear_arith)
        requires
            k == action * n / 10,
            0 <= action <= 9,
            n > 0,
    ;
    assert(setpoint(action, p) == p.targets[k]);
    if action == 0 {
        assert(0 * n == 0);
    }
    if n == 10 {
        assert(action * n == action * 10);
    }
}

/// A channel keeps everything but its PID history in the decision of a tick, so
/// its range and its group do not change.
pub proof fn law_step_keeps_channel(c: ChannelView, action: u8, s: Seq<SensorView>)
    ensures
        stepped(c, action, s).0 == (ChannelView {
            pid_state: stepped(c, action, s).0.pid_state,
            ..c
        }),
{
}

proof fn lemma_present(v: Seq<Option<ChannelView>>, n: int, k: int)
    requires
        0 <= k < n <= v.len(),
        v[k] is Some,
    ensures
        present(v, n).contains(v[k]->0),
    decreases n,
{
    if k == n - 1 {
        assert(present(v, n).last() == v[k]->0);
    } else {
        lemma_present(v, n - 1, k);
        let p = present(v, n - 1);
        let i = choose|i: int| 0 <= i < p.len() && p[i] == v[k]->0;
        assert(present(v, n)[i] == v[k]->0);
    }
}

/// A processor whose frequency node can be read has a compute channel for that node, from
/// three tenths of the greatest frequency of its cluster to all of it; a reading that is
/// not positive counts as the greatest frequency.
pub proof fn law_processor_channels(hw: HardwareReadings, v: i32)
    requires
        v > 0,
    ensures
        hw.policy0 == Some(v) ==> hardware_channels(hw).contains(ChannelView {
            name: "cpu_freq0"@,
            path: "/sys/devices/system/cpu/cpufreq/policy0/scaling_max_freq"@,
            action_type: ActionType::CpuFreq,
            group: ChannelGroup::Compute,
            value: v,
            min_val: 604_800,
            max_val: 2_016_000,
            pid: None,
            pid_state: fresh_sic_state(),
            sensor_name: None,
        }),
        hw.policy3 == Some(v) ==> hardware_channels(hw).contains(ChannelView {
            name: "cpu_freq3"@,
            path: "/sys/devices/system/cpu/cpufreq/policy3/scaling_max_freq"@,
            action_type: ActionType::CpuFreq,
            group: ChannelGroup::Compute,
            value: v,
            min_val: 840_960,
            max_val: 2_803_200,
            pid: None,
            pid_state: fresh_sic_state(),
            sensor_name: None,
        }),
        hw.policy7 == Some(v) ==> hardware_channels(hw).contains(ChannelView {
            name: "cpu_freq7"@,
            path: "/sys/devices/system/cpu/cpufreq/policy7/scaling_max_freq"@,
            action_type: ActionType::CpuFreq,
            group: ChannelGroup::Compute,
            value: v,
            min_val: 904_320,
            max_val: 3_014_400,
            pid: None,
            pid_state: fresh_sic_state(),
            sensor_name: None,
        }),
        hw.policy0 == Some((-v) as i32) ==> hardware_channels(hw).contains(ChannelView {
            name: "cpu_freq0"@,
            path: "/sys/devices/system/cpu/cpufreq/policy0/scaling_max_freq"@,
            action_type: ActionType::CpuFreq,
            group: ChannelGroup::Compute,
            value: 2_016_000,
            min_val: 604_800,
            max_val: 2_016_000,
            pid: None,
            pid_state: fresh_sic_state(),
            sensor_name: None,
        }),
        hw.policy3 == Some((-v) as i32) ==> hardware_channels(hw).contains(ChannelView {
            name: "cpu_freq3"@,
            path: "/sys/devices/system/cpu/cpufreq/policy3/scaling_max_freq"@,
            action_type: ActionType::CpuFreq,
            group: ChannelGroup::Compute,
            value: 2_803_200,
            min_val: 840_960,
            max_val: 2_803_200,
            pid: None,
            pid_state: fresh_sic_state(),
            sensor_name: None,
        }),
        hw.policy7 == Some((-v) as i32) ==> hardware_channels(hw).contains(ChannelView {
            name: "cpu_freq7"@,
            path: "/sys/devices/system/cpu/cpufreq/policy7/scaling_max_freq"@,
            action_type: ActionType::CpuFreq,
            group: ChannelGroup::Compute,
            value: 3_014_400,
            min_val: 904_320,
            max_val: 3_014_400,
            pid: None,
            pid_state: fresh_sic_state(),
            sensor_name: None,
        }),
{
    let all = possible_channels(hw);
    if hw.policy0 is Some {
        lemma_present(all, 8, 3);
    }
    if hw.policy3 is Some {
        lemma_present(all, 8, 4);
    }
    if hw.policy7 is Some {
        lemma_present(all, 8, 5);
    }
}

/// The mode and boost switches of the thermal driver are compute channels: the mode from 0
/// to 9, the boost 0 or 1.
pub proof fn law_switch_channels(hw: HardwareReadings, v: i32)
    requires
        0 <= v <= 9,
    ensures
        hw.balance_mode == Some(v) ==> hardware_channels(hw).contains(ChannelView {
            name: "balance_mode"@,
            path: "/sys/class/thermal/thermal_message/balance_mode"@,
            action_type: ActionType::NoAction,
            group: ChannelGroup::Compute,
            value: v,
            min_val: 0,
            max_val: 9,
            pid: None,
            pid_state: fresh_sic_state(),
            sensor_name: None,
        }),
        hw.boost == Some(v) ==> hardware_channels(hw).contains(ChannelView {
            name: "boost"@,
            path: "/sys/class/thermal/thermal_message/boost"@,
            action_type: ActionType::NoAction,
            group: ChannelGroup::Compute,
            value: v,
            min_val: 0,
            max_val: 1,
            pid: None,
            pid_state: fresh_sic_state(),
            sensor_name: None,
        }),
{
    let all = possible_channels(hw);
    if hw.balance_mode is Some {
        lemma_present(all, 8, 0);
    }
    if hw.boost is Some {
        lemma_present(all, 8, 1);
    }
}

/// A mode outside 0 to 9 is brought to the nearer end, and a negative boost counts as none.
pub proof fn law_switch_readings_are_bounded(hw: HardwareReadings, v: i32)
    requires
        v < 0,
    ensures
        hw.balance_mode == Some(v) ==> hardware_channels(hw).contains(ChannelView {
            name: "balance_mode"@,
            path: "/sys/class/thermal/thermal_message/balance_mode"@,
            action_type: ActionType::NoAction,
            group: ChannelGroup::Compute,
            value: 0,
            min_val: 0,
            max_val: 9,
            pid: None,
            pid_state: fresh_sic_state(),
            sensor_name: None,
        }),
        hw.balance_mode == Some((9 - v) as i32) && v > -1000 ==> hardware_channels(hw).contains(ChannelView {
            name: "balance_mode"@,
            path: "/sys/class/thermal/thermal_message/balance_mode"@,
            action_type: ActionType::NoAction,
            group: ChannelGroup::Compute,
            value: 9,
            min_val: 0,
            max_val: 9,
            pid: None,
            pid_state: fresh_sic_state(),
            sensor_name: None,
        }),
        hw.boost == Some(v) ==> hardware_channels(hw).contains(ChannelView {
            name: "boost"@,
            path: "/sys/class/thermal/thermal_message/boost"@,
            action_type: ActionType::NoAction,
            group: ChannelGroup::Compute,
            value: 0,
            min_val: 0,
            max_val: 1,
            pid: None,
            pid_state: fresh_sic_state(),
            sensor_name: None,
        }),
{
    let all = possible_channels(hw);
    if hw.balance_mode is Some {
        lemma_present(all, 8, 0);
    }
    if hw.boost is Some {
        lemma_present(all, 8, 1);
    }
}

/// The charge current is a channel of the charging group, from half an ampere to the limit
/// of the charger, which is twelve amperes where none is given; the backlight is the
/// channel of the display group, up to its maximum, which is 4095 where none is given.
pub proof fn law_charge_and_display_channels(hw: HardwareReadings, v: i32, max: i32)
    requires
        v > 0,
        max > 0,
    ensures
        hw.charge_current == Some(v) && (hw.charge_current_max == max || (
        hw.charge_current_max <= 0 && max == 12_000_000)) ==> hardware_channels(hw).contains(ChannelView {
            name: "charge_current"@,
            path: "/sys/class/power_supply/battery/constant_charge_current"@,
            action_type: ActionType::NoAction,
            group: ChannelGroup::Charging,
            value: v,
            min_val: 500_000,
            max_val: max,
            pid: None,
            pid_state: fresh_sic_state(),
            sensor_name: None,
        }),
        hw.charge_current == Some(0i32) && hw.charge_current_max == max
            ==> hardware_channels(hw).contains(ChannelView {
            name: "charge_current"@,
            path: "/sys/class/power_supply/battery/constant_charge_current"@,
            action_type: ActionType::NoAction,
            group: ChannelGroup::Charging,
            value: max,
            min_val: 500_000,
            max_val: max,
            pid: None,
            pid_state: fresh_sic_state(),
            sensor_name: None,
        }),
        hw.backlight == Some(v) && (hw.max_backlight == max || (hw.max_backlight <= 0 && max
            == 4095)) ==> hardware_channels(hw).contains(ChannelView {
            name: "backlight"@,
            path: "/sys/class/backlight/panel0-backlight/brightness"@,
            action_type: ActionType::NoAction,
            group: ChannelGroup::Display,
            value: v,
            min_val: 0,
            max_val: max,
            pid: None,
            pid_state: fresh_sic_state(),
            sensor_name: None,
        }),
        hw.backlight == Some(0i32) && hw.max_backlight == max
            ==> hardware_channels(hw).contains(ChannelView {
            name: "backlight"@,
            path: "/sys/class/backlight/panel0-backlight/brightness"@,
            action_type: ActionType::NoAction,
            group: ChannelGroup::Display,
            value: max,
            min_val: 0,
            max_val: max,
            pid: None,
            pid_state: fresh_sic_state(),
            sensor_name: None,
        }),
{
    let all = possible_channels(hw);
    if hw.charge_current is Some {
        lemma_present(all, 8, 2);
    }
    if hw.backlight is Some {
        lemma_present(all, 8, 7);
    }
}

/// The greatest and the least of some numbers are among them and bound them all.
pub proof fn law_extremes_bound_and_occur(v: Seq<i32>)
    requires
        v.len() > 0,
    ensures
        forall|i: int| 0 <= i < v.len() ==> least(v) <= #[trigger] v[i] <= greatest(v),
        exists|i: int| 0 <= i < v.len() && #[trigger] v[i] == greatest(v),
        exists|i: int| 0 <= i < v.len() && #[trigger] v[i] == least(v),
    decreases v.len(),
{
    if v.len() == 1 {
        assert(v[0] == greatest(v) && v[0] == least(v));
    } else {
        let d = v.drop_last();
        law_extremes_bound_and_occur(d);
        assert forall|i: int| 0 <= i < v.len() implies least(v) <= #[trigger] v[i]
            <= greatest(v) by {
            if i < d.len() {
                assert(d[i] == v[i]);
            }
        }
        let g = choose|i: int| 0 <= i < d.len() && #[trigger] d[i] == greatest(d);
        let l = choose|i: int| 0 <= i < d.len() && #[trigger] d[i] == least(d);
        assert(v[g] == d[g] && v[l] == d[l]);
        assert(v[v.len() - 1] == v.last());
    }
}

/// The graphics processor is a compute channel that ranges over the frequencies it
/// lists; one that lists none is no channel, and neither is any other missing node.
pub proof fn law_graphics_channel(hw: HardwareReadings, v: i32, lo: i32, hi: i32)
    requires
        v > 0,
        lo == least(frequencies(hw.gpu_frequencies)),
        hi == greatest(frequencies(hw.gpu_frequencies)),
        frequencies(hw.gpu_frequencies).len() > 0,
    ensures
        hw.gpu == Some(v) ==> hardware_channels(hw).contains(ChannelView {
            name: "gpu"@,
            path: "/sys/class/kgsl/kgsl-3d0/devfreq/max_freq"@,
            action_type: ActionType::GpuBoost,
            group: ChannelGroup::Compute,
            value: v,
            min_val: lo,
            max_val: hi,
            pid: None,
            pid_state: fresh_sic_state(),
            sensor_name: None,
        }),
        hw.gpu == Some(0i32) && hi > 0 ==> hardware_channels(hw).contains(ChannelView {
            name: "gpu"@,
            path: "/sys/class/kgsl/kgsl-3d0/devfreq/max_freq"@,
            action_type: ActionType::GpuBoost,
            group: ChannelGroup::Compute,
            value: hi,
            min_val: lo,
            max_val: hi,
            pid: None,
            pid_state: fresh_sic_state(),
            sensor_name: None,
        }),
{
    if hw.gpu is Some {
        lemma_present(possible_channels(hw), 8, 6);
    }
}

pub open spec fn one_if(present: bool) -> nat {
    if present {
        1
    } else {
        0
    }
}

/// There are as many channels as there are nodes to make them of.
pub proof fn law_one_channel_per_node(hw: HardwareReadings)
    ensures
        hardware_channels(hw).len() == one_if(hw.balance_mode is Some) + one_if(hw.boost is Some)
            + one_if(hw.charge_current is Some) + one_if(hw.policy0 is Some) + one_if(
            hw.policy3 is Some,
        ) + one_if(hw.policy7 is Some) + one_if(
            hw.gpu is Some && frequencies(hw.gpu_frequencies).len() > 0,
        ) + one_if(hw.backlight is Some),
{
    reveal_with_fuel(present, 9);
}

/// Of the words of a content those count that are numbers, in their order.
pub proof fn law_numbers_are_kept_in_order(w: Seq<Seq<char>>, n: int)
    requires
        0 <= n < w.len(),
    ensures
        numbers_in(w, 0) == Seq::<i32>::empty(),
        int_of(w[n]) is Some ==> numbers_in(w, n + 1) == numbers_in(w, n) + seq![
            int_of(w[n])->0,
        ],
        int_of(w[n]) is None ==> numbers_in(w, n + 1) == numbers_in(w, n),
{
}

/// A block with the algorithm `sic`, a device and triggers puts the first channel with the
/// name of its first device under its own PID: the coefficients, bounds, targets and
/// triggers are those of the block, and the sensor is its sensor. A compute channel other
/// than the graphics processor comes to the thermal group. All else stays.
pub proof fn law_block_takes_its_channel(c: Seq<ChannelView>, b: BlockView, i: int)
    requires
        lowercase(b.algo_str) == "sic"@,
        b.devices.len() > 0,
        b.threshold.trig.len() > 0,
        0 <= i < c.len(),
        c[i].name == b.devices[0],
        forall|k: int| 0 <= k < i ==> (#[trigger] c[k]).name != b.devices[0],
    ensures
        enriched_by(c, b).len() == c.len(),
        forall|k: int| 0 <= k < c.len() && k != i ==> #[trigger] enriched_by(c, b)[k] == c[k],
        ({
            let e = enriched_by(c, b)[i];
            &&& e.pid is Some
            &&& e.pid->0.ks == b.threshold.ks
            &&& e.pid->0.ki == b.threshold.ki
            &&& e.pid->0.kc == b.threshold.kc
            &&& e.pid->0.max_out == b.threshold.max_out
            &&& e.pid->0.min_out == b.threshold.min_out
            &&& e.pid->0.targets == b.threshold.target
            &&& e.pid->0.triggers == b.threshold.trig
            &&& e.sensor_name == Some(b.sensor_name)
            &&& e.group == (if c[i].group == ChannelGroup::Compute && c[i].name != "gpu"@ {
                ChannelGroup::Thermal
            } else {
                c[i].group
            })
            &&& e.name == c[i].name && e.path == c[i].path && e.value == c[i].value
            &&& e.min_val == c[i].min_val && e.max_val == c[i].max_val
            &&& e.action_type == c[i].action_type && e.pid_state == c[i].pid_state
        }),
{
    lemma_channel_at(c, b.devices[0]);
}

/// A block with another algorithm, without a device or triggers, or whose first device is
/// no channel, changes no channel.
pub proof fn law_other_blocks_take_none(c: Seq<ChannelView>, b: BlockView)
    requires
        lowercase(b.algo_str) != "sic"@ || b.devices.len() == 0 || b.threshold.trig.len() == 0
            || (forall|k: int| 0 <= k < c.len() ==> (#[trigger] c[k]).name != b.devices[0]),
    ensures
        enriched_by(c, b) == c,
{
    if b.devices.len() > 0 {
        lemma_channel_at(c, b.devices[0]);
    }
}

/// Blocks are applied one after the other.
pub proof fn law_blocks_apply_in_order(c: Seq<ChannelView>, a: Seq<BlockView>, b: Seq<BlockView>)
    ensures
        enriched(c, a + b) == enriched(enriched(c, a), b),
        enriched(c, Seq::empty()) == c,
        a.len() == 1 ==> enriched(c, a) == enriched_by(c, a[0]),
    decreases b.len(),
{
    if b.len() == 0 {
        assert(a + b =~= a);
    } else {
        law_blocks_apply_in_order(c, a, b.drop_last());
        assert((a + b).drop_last() =~= a + b.drop_last());
        assert((a + b).last() == b.last());
    }
    if a.len() == 1 {
        assert(a.drop_last() =~= Seq::<BlockView>::empty());
        assert(enriched(c, a.drop_last()) == c);
    }
}

/// Actions divide the targets evenly: an action selects the target that lies as far into
/// the targets as the action lies into ten.
pub proof fn law_setpoint_divides_the_targets(action: u8, p: PidView, k: int)
    requires
        action <= 9,
        0 <= k < p.targets.len(),
        10 * k <= action * p.targets.len() < 10 * k + 10,
    ensures
        setpoint(action, p) == p.targets[k],
{
    let n = p.targets.len() as int;
    let m = action * n;
    assert(m / 10 == k);
    assert(m == action * p.targets.len());
}

/// Without targets the setpoint is 0, and an action beyond 9 selects the last target.
pub proof fn law_setpoint_ends(action: u8, p: PidView)
    ensures
        p.targets.len() == 0 ==> setpoint(action, p) == 0,
        p.targets.len() > 0 && action > 9 ==> setpoint(action, p) == p.targets[p.targets.len()
            - 1],
{
    if p.targets.len() > 0 && action > 9 {
        let n = p.targets.len() as int;
        assert(action * n / 10 >= n) by (nonlinear_arith)
            requires
                action >= 10,
                n > 0,
        ;
    }
}

/// What the PID of a channel reads of its parameters at a temperature: the coefficients of
/// the segment `g`, absent ones counting 0, and the bounds in thousands.
pub open spec fn channel_parameters(
    p: PidView,
    temp: i32,
    g: int,
    ks: i32,
    kc: i32,
    ki: i32,
    lo: int,
    hi: int,
) -> bool {
    &&& crate::algorithm::governs(p.triggers, temp, g)
    &&& if g < p.ks.len() {
        p.ks[g] == ks
    } else {
        ks == 0
    }
    &&& if g < p.kc.len() {
        p.kc[g] == kc
    } else {
        kc == 0
    }
    &&& if g < p.ki.len() {
        p.ki[g] == ki
    } else {
        ki == 0
    }
    &&& if g < p.min_out.len() {
        lo == p.min_out[g] * 1000
    } else {
        lo == 0
    }
    &&& if g < p.max_out.len() {
        hi == p.max_out[g] * 1000
    } else {
        hi == 0x7fff_ffff * 1000
    }
}

/// The output of a channel under PID moves by the sum, in thousandths, of the second
/// difference of its errors times `ks`, their difference times `kc` and the last one times
/// `ki`, where the bounds of its segment allow it; the move is rounded to the nearest.
pub proof fn law_channel_pid_moves(
    target: int,
    temp: i32,
    p: PidView,
    state: SicState,
    current: i32,
    g: int,
    ks: i32,
    kc: i32,
    ki: i32,
    lo: int,
    hi: int,
)
    requires
        channel_parameters(p, temp, g, ks, kc, ki, lo, hi),
        state.initialized,
        i32::MIN <= target - temp <= i32::MAX,
        i32::MIN <= lo <= hi,
        i32::MIN <= pid_unbounded(target, temp, p, state, current) <= i32::MAX,
    ensures
        ({
            let e = target - temp;
            let steps = ks * (e - state.ek_1 - (state.ek_1 - state.ek_2)) + kc * (e - state.ek_1)
                + ki * e;
            let out = pid_output(target, temp, p, state, current);
            &&& lo < out < hi ==> -500 <= 1000 * (out - current) - steps <= 500
            &&& out <= lo && lo < hi ==> 1000 * (lo - current) - steps >= -500
            &&& out >= hi && lo < hi ==> 1000 * (hi - current) - steps <= 500
            &&& lo <= i32::MAX ==> out >= lo
            &&& out <= hi
        }),
{
    let e = target - temp;
    crate::algorithm::lemma_segment_unique(p.triggers, temp, g);
    let sum = pid_sum(ks as int, kc as int, ki as int, e, state.ek_1 as int, state.ek_2 as int);
    assert(e - 2 * state.ek_1 + state.ek_2 == e - state.ek_1 - (state.ek_1 - state.ek_2));
    crate::arith::law_rounding(sum, 1000);
}

/// The first step of a channel under PID sets out from the initial value of its history
/// and moves by the error times `ki` alone; each step remembers the last two errors.
pub proof fn law_channel_pid_starts(
    target: int,
    temp: i32,
    p: PidView,
    state: SicState,
    current: i32,
    g: int,
    ks: i32,
    kc: i32,
    ki: i32,
    lo: int,
    hi: int,
    d: int,
)
    requires
        channel_parameters(p, temp, g, ks, kc, ki, lo, hi),
        !state.initialized,
        i32::MIN <= target - temp <= i32::MAX,
        ki * (target - temp) == 1000 * d,
        lo <= state.initial_value + d <= hi,
        i32::MIN <= state.initial_value + d <= i32::MAX,
    ensures
        pid_output(target, temp, p, state, current) == state.initial_value + d,
        pid_next(target, temp, state) == (SicState {
            ek_1: (target - temp) as i32,
            ek_2: (target - temp) as i32,
            initialized: true,
            initial_value: state.initial_value,
        }),
{
    let e = target - temp;
    crate::algorithm::lemma_segment_unique(p.triggers, temp, g);
    assert(e - 2 * e + e == 0 && e - e == 0);
    assert(ks * 0 == 0 && kc * 0 == 0);
    assert(pid_sum(ks as int, kc as int, ki as int, e, e, e) == 1000 * d);
    assert(round_div(1000 * d, 1000) == d);
}

/// Once started, a channel remembers its last two errors.
pub proof fn law_channel_pid_remembers(target: int, temp: i32, state: SicState)
    requires
        state.initialized,
        i32::MIN <= target - temp <= i32::MAX,
    ensures
        pid_next(target, temp, state) == (SicState {
            ek_1: (target - temp) as i32,
            ek_2: state.ek_1,
            initialized: true,
            initial_value: state.initial_value,
        }),
{
}

/// The mode switch covers 0 to 7 with the actions 0 to 9, rounding down; the boost is always
/// on; an action beyond 9 leaves any other channel as it is.
pub proof fn law_switch_values(c: ChannelView, action: u8)
    ensures
        c.name == "balance_mode"@ && action <= 9 ==> 9 * channel_value(c, action) <= 7 * action
            < 9 * channel_value(c, action) + 9,
        c.name == "balance_mode"@ && action > 9 ==> channel_value(c, action) == 7,
        c.name == "boost"@ ==> channel_value(c, action) == 1,
        c.name != "boost"@ && c.name != "balance_mode"@ && action > 9 ==> channel_value(c, action)
            == c.value,
{
    reveal_strlit("balance_mode");
    reveal_strlit("boost");
    assert("balance_mode"@.len() == 12 && "boost"@.len() == 5);
}

/// A channel without PID takes the value that lies as far into its range as the action lies
/// into nine, rounded down.
pub proof fn law_channel_value_divides_the_range(c: ChannelView, action: u8)
    requires
        c.name != "balance_mode"@,
        c.name != "boost"@,
        c.min_val < c.max_val,
        c.max_val - c.min_val <= i32::MAX,
        action <= 9,
    ensures
        ({
            let above = channel_value(c, action) - c.min_val;
            9 * above <= (c.max_val - c.min_val) * action < 9 * above + 9
        }),
{
    crate::ai::law_lerp_steps(action, c.min_val, (c.max_val - c.min_val) as i32);
}

/// A channel is controlled by the temperature of the first sensor with the name of its
/// sensor, and by 0 where there is none.
pub proof fn law_channel_reads_its_sensor(c: ChannelView, s: Seq<SensorView>, i: int)
    requires
        s.len() <= usize::MAX,
    ensures
        c.sensor_name is Some && 0 <= i < s.len() && s[i].name == c.sensor_name->0 && (forall|k: int|
            0 <= k < i ==> (#[trigger] s[k]).name != c.sensor_name->0) ==> channel_temp(c, s)
            == s[i].last_temp_mc,
        c.sensor_name is None ==> channel_temp(c, s) == 0,
        c.sensor_name is Some && (forall|k: int|
            0 <= k < s.len() ==> (#[trigger] s[k]).name != c.sensor_name->0) ==> channel_temp(c, s)
            == 0,
{
    if c.sensor_name is Some {
        lemma_named_at(s, c.sensor_name->0);
    }
}

/// What is written to a channel without PID: nothing to the backlight, every time to the
/// boost and the processors, and to any other channel its value when it is a new one.
pub proof fn law_plain_channels_are_written(c: ChannelView, action: u8, s: Seq<SensorView>)
    requires
        c.pid is None,
        c.name != "charge_current"@,
    ensures
        stepped(c, action, s).0 == c,
        c.name == "backlight"@ ==> stepped(c, action, s).1 is None,
        c.name == "boost"@ || c.name == "cpu_freq0"@ || c.name == "cpu_freq3"@ || c.name
            == "cpu_freq7"@ ==> stepped(c, action, s).1 == Some(channel_value(c, action)),
        c.name == "gpu"@ || c.name == "balance_mode"@ ==> stepped(c, action, s).1 == (if c.value
            == channel_value(c, action) {
            None
        } else {
            Some(channel_value(c, action))
        }),
{
    reveal_strlit("backlight");
    reveal_strlit("boost");
    reveal_strlit("cpu_freq");
    reveal_strlit("cpu_freq0");
    reveal_strlit("cpu_freq3");
    reveal_strlit("cpu_freq7");
    reveal_strlit("gpu");
    reveal_strlit("balance_mode");
    assert("backlight"@.len() == 9 && "backlight"@[0] == 'b');
    assert("boost"@.len() == 5 && "gpu"@.len() == 3 && "balance_mode"@.len() == 12);
    assert("balance_mode"@[0] == 'b' && "cpu_freq"@[0] == 'c' && "cpu_freq"@.len() == 8);
    assert("cpu_freq0"@[0] == 'c' && "cpu_freq3"@[0] == 'c' && "cpu_freq7"@[0] == 'c');
    assert("cpu_freq0"@.take(8) =~= "cpu_freq"@);
    assert("cpu_freq3"@.take(8) =~= "cpu_freq"@);
    assert("cpu_freq7"@.take(8) =~= "cpu_freq"@);
}

/// A channel under PID is stepped towards the setpoint of its action, at the temperature of
/// its sensor, from its value, and written when its output is a new value.
pub proof fn law_pid_channels_are_stepped(
    c: ChannelView,
    p: PidView,
    action: u8,
    s: Seq<SensorView>,
    target: int,
    temp: i32,
)
    requires
        c.pid == Some(p),
        c.name != "charge_current"@,
        target == setpoint(action, p),
        temp == channel_temp(c, s),
    ensures
        ({
            let out = pid_output(target, temp, p, c.pid_state, c.value);
            &&& stepped(c, action, s).1 is Some <==> out != c.value
            &&& stepped(c, action, s).1 is Some ==> stepped(c, action, s).1->0 == out
            &&& stepped(c, action, s).0.pid_state == pid_next(target, temp, c.pid_state)
            &&& stepped(c, action, s).0.value == c.value
        }),
{
}

/// Each channel is stepped with the action of its own group; the writes name the channel,
/// its path, its value and the policy of a processor without PID, and follow the order of
/// the channels.
pub proof fn law_writes_follow_the_channels(
    c: Seq<ChannelView>,
    actions: GroupActions,
    s: Seq<SensorView>,
    n: int,
)
    requires
        0 <= n < c.len(),
    ensures
        ({
            let action = match c[n].group {
                ChannelGroup::Compute => actions.compute,
                ChannelGroup::Thermal => actions.thermal,
                ChannelGroup::Charging => actions.charging,
                ChannelGroup::Display => actions.display,
            };
            let before = writes_for(c, actions, s, n);
            let after = writes_for(c, actions, s, n + 1);
            &&& channels_after(c, actions, s, c.len() as int)[n] == stepped(c[n], action, s).0
            &&& match stepped(c[n], action, s).1 {
                None => after == before,
                Some(v) => {
                    &&& after.len() == before.len() + 1
                    &&& after.take(before.len() as int) == before
                    &&& after.last().channel == n
                    &&& after.last().path == c[n].path
                    &&& after.last().value == v
                    &&& after.last().assumed == (c[n].pid is None && c[n].name == "boost"@)
                    &&& after.last().policy == (if c[n].pid is Some {
                        None
                    } else if c[n].name == "cpu_freq0"@ {
                        Some(0u32)
                    } else if c[n].name == "cpu_freq3"@ {
                        Some(3)
                    } else if c[n].name == "cpu_freq7"@ {
                        Some(7)
                    } else {
                        None
                    })
                },
            }
        }),
{
    let before = writes_for(c, actions, s, n);
    let after = writes_for(c, actions, s, n + 1);
    if after.len() > before.len() {
        assert(after.take(before.len() as int) =~= before);
    }
}

/// Each processor channel belongs to the policy of its own number, and no other channel to
/// any.
pub proof fn law_policies_by_name(name: Seq<char>)
    ensures
        policy_of("cpu_freq0"@) == Some(0u32),
        policy_of("cpu_freq3"@) == Some(3u32),
        policy_of("cpu_freq7"@) == Some(7u32),
        name != "cpu_freq0"@ && name != "cpu_freq3"@ && name != "cpu_freq7"@ ==> policy_of(name)
            is None,
{
    reveal_strlit("cpu_freq0");
    reveal_strlit("cpu_freq3");
    reveal_strlit("cpu_freq7");
    assert("cpu_freq0"@[8] == '0' && "cpu_freq3"@[8] == '3' && "cpu_freq7"@[8] == '7');
}

/// A write that was carried out sets the value of its channel alone; one that failed does
/// so only where its value is taken as written.
pub proof fn law_confirmed_writes_set_values(c: Seq<ChannelView>, w: WriteView, ok: bool)
    requires
        0 <= w.channel < c.len(),
    ensures
        confirmed(c, w, ok).len() == c.len(),
        forall|i: int| 0 <= i < c.len() && i != w.channel ==> #[trigger] confirmed(c, w, ok)[i]
            == c[i],
        ok || w.assumed ==> confirmed(c, w, ok)[w.channel].value == w.value,
        !ok && !w.assumed ==> confirmed(c, w, ok)[w.channel].value == c[w.channel].value,
        confirmed(c, w, ok)[w.channel].name == c[w.channel].name,
        confirmed(c, w, ok)[w.channel].pid == c[w.channel].pid,
        confirmed(c, w, ok)[w.channel].pid_state == c[w.channel].pid_state,
        confirmed(c, w, ok)[w.channel].min_val == c[w.channel].min_val,
        confirmed(c, w, ok)[w.channel].max_val == c[w.channel].max_val,
        confirmed(c, w, ok)[w.channel].group == c[w.channel].group,
{
}

/// What can be stepped: channels without a PID, the charge current, and channels whose PID has
/// the bounds of the segment that governs in order and a countable number of targets.
pub proof fn law_what_can_be_stepped(
    c: ChannelView,
    s: Seq<SensorView>,
    p: PidView,
    g: int,
    ks: i32,
    kc: i32,
    ki: i32,
    lo: int,
    hi: int,
)
    requires
        p.targets.len() <= 0xff_ffff,
    ensures
        c.pid is None || c.name == "charge_current"@ ==> steppable(c, s),
        c.pid == Some(p) && c.name != "charge_current"@ && channel_parameters(
            p,
            channel_temp(c, s),
            g,
            ks,
            kc,
            ki,
            lo,
            hi,
        ) ==> (steppable(c, s) <==> lo <= hi),
{
    if channel_parameters(p, channel_temp(c, s), g, ks, kc, ki, lo, hi) {
        crate::algorithm::lemma_segment_unique(p.triggers, channel_temp(c, s), g);
    }
}

} // verus!
