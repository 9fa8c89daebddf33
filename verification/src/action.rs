//! Actions on the hardware. An action becomes a write plan: a value and the
//! nodes that take it, tried in order until one accepts the write.

use vstd::prelude::*;

use crate::text::{chars_of, join, piece, starts_with, string_of, text_after_last};
#[allow(unused_imports)]
use crate::text::{after_last, has_prefix, lemma_after_last_of, texts};
use crate::types::{Action, ActionType};
#[allow(unused_imports)]
use crate::types::{action_views, ActionView};

verus! {

// ---------------------------------------------------------------------------
// Write plans
// ---------------------------------------------------------------------------

/// A value to write to the first of some nodes that accepts it.
#[derive(Debug)]
pub struct WritePlan {
    pub paths: Vec<String>,
    pub value: i32,
}

pub struct PlanView {
    pub paths: Seq<Seq<char>>,
    pub value: int,
}

impl View for WritePlan {
    type V = PlanView;

    open spec fn view(&self) -> PlanView {
        PlanView { paths: texts(self.paths@), value: self.value as int }
    }
}

pub open spec fn plan_views(v: Seq<WritePlan>) -> Seq<PlanView> {
    v.map_values(|p: WritePlan| p@)
}

/// The position of the node that takes the value when `accepts` tells which
/// nodes would, or the number of nodes when none does.
pub open spec fn taker(accepts: Seq<bool>) -> int
    decreases accepts.len(),
{
    if accepts.len() == 0 || accepts[0] {
        0
    } else {
        1 + taker(accepts.skip(1))
    }
}

/// The status of a plan after `failures` failed writes: 0 when a node was left
/// to accept the value, -1 when every one refused it.
pub open spec fn status_after(p: PlanView, failures: int) -> int {
    if failures < p.paths.len() {
        0
    } else {
        -1
    }
}

impl WritePlan {
    /// The node to try after `failures` failed writes.
    pub fn attempt(&self, failures: usize) -> (r: Option<String>)
        ensures
            match r {
                Some(p) => failures < self@.paths.len() && p@ == self@.paths[failures as int],
                None => failures >= self@.paths.len(),
            },
    {
        if failures < self.paths.len() {
            Some(self.paths[failures].clone())
        } else {
            None
        }
    }

    pub fn status(&self, failures: usize) -> (r: i32)
        ensures
            r == status_after(self@, failures as int),
    {
        if failures < self.paths.len() {
            0
        } else {
            -1
        }
    }
}

/// Trying the nodes in order, the first that accepts the value takes it, and the
/// plan succeeds exactly when some node accepts.
pub proof fn law_first_acceptor_takes(p: PlanView, accepts: Seq<bool>)
    requires
        accepts.len() == p.paths.len(),
    ensures
        forall|i: int| 0 <= i < taker(accepts) ==> !#[trigger] accepts[i],
        taker(accepts) < accepts.len() ==> accepts[taker(accepts)],
        status_after(p, taker(accepts)) == 0 <==> accepts.contains(true),
{
    lemma_taker(accepts);
    let k = taker(accepts);
    if k < accepts.len() {
        assert(accepts[k]);
    }
}

proof fn lemma_taker(accepts: Seq<bool>)
    ensures
        0 <= taker(accepts) <= accepts.len(),
        forall|i: int| 0 <= i < taker(accepts) ==> !#[trigger] accepts[i],
        taker(accepts) < accepts.len() ==> accepts[taker(accepts)],
    decreases accepts.len(),
{
    if accepts.len() > 0 && !accepts[0] {
        lemma_taker(accepts.skip(1));
        let k = taker(accepts.skip(1));
        assert forall|i: int| 0 <= i < 1 + k implies !#[trigger] accepts[i] by {
            if i > 0 {
                assert(accepts.skip(1)[i - 1] == accepts[i]);
            }
        }
    }
}

pub open spec fn bit(on: bool) -> int {
    if on {
        1
    } else {
        0
    }
}

fn bit_of(on: bool) -> (r: i32)
    ensures
        r == bit(on),
{
    if on {
        1
    } else {
        0
    }
}

fn one_node(a: &str, value: i32) -> (r: WritePlan)
    ensures
        r@ == (PlanView { paths: seq![a@], value: value as int }),
{
    let mut paths: Vec<String> = Vec::new();
    paths.push(a.to_string());
    assert(texts(paths@) =~= seq![a@]);
    WritePlan { paths, value }
}

fn two_nodes(a: &str, b: &str, value: i32) -> (r: WritePlan)
    ensures
        r@ == (PlanView { paths: seq![a@, b@], value: value as int }),
{
    let mut paths: Vec<String> = Vec::new();
    paths.push(a.to_string());
    paths.push(b.to_string());
    assert(texts(paths@) =~= seq![a@, b@]);
    WritePlan { paths, value }
}

fn three_nodes(a: &str, b: &str, c: &str, value: i32) -> (r: WritePlan)
    ensures
        r@ == (PlanView { paths: seq![a@, b@, c@], value: value as int }),
{
    let mut paths: Vec<String> = Vec::new();
    paths.push(a.to_string());
    paths.push(b.to_string());
    paths.push(c.to_string());
    assert(texts(paths@) =~= seq![a@, b@, c@]);
    WritePlan { paths, value }
}

// ---------------------------------------------------------------------------
// Processor nodes
// ---------------------------------------------------------------------------

/// Does the name stand for a frequency policy rather than a single core?
pub open spec fn names_policy(cpu: Seq<char>) -> bool {
    has_prefix(cpu, "policy"@) || has_prefix(cpu, "cpu-cluster"@)
}

/// The number in a policy name: what follows its last hyphen, or the word `policy`.
pub open spec fn policy_number(cpu: Seq<char>) -> Seq<char> {
    match after_last(cpu, '-') {
        Some(t) => t,
        None => cpu.skip("policy"@.len() as int),
    }
}

/// The cpufreq node of a policy or core.
pub open spec fn cpufreq_path(cpu: Seq<char>, leaf: Seq<char>) -> Seq<char> {
    if names_policy(cpu) {
        "/sys/devices/system/cpu/cpufreq/policy"@ + policy_number(cpu) + "/"@ + leaf
    } else {
        "/sys/devices/system/cpu/"@ + cpu + "/cpufreq/"@ + leaf
    }
}

proof fn lemma_cluster_has_hyphen(cpu: Seq<char>)
    requires
        has_prefix(cpu, "cpu-cluster"@),
    ensures
        after_last(cpu, '-') is Some,
{
    reveal_strlit("cpu-cluster");
    assert(cpu.take("cpu-cluster"@.len() as int)[3] == '-');
    lemma_after_last_of(cpu, '-', 3);
}

fn cpu_cpufreq_path(cpu: &str, leaf: &str) -> (r: String)
    ensures
        r@ == cpufreq_path(cpu@, leaf@),
{
    let v = chars_of(cpu);
    if starts_with(&v, "policy") || starts_with(&v, "cpu-cluster") {
        let number = match text_after_last(&v, '-') {
            Some(t) => string_of(&t),
            None => {
                proof {
                    if has_prefix(cpu@, "cpu-cluster"@) {
                        lemma_cluster_has_hyphen(cpu@);
                    }
                }
                without_prefix(&v, "policy")
            },
        };
        let dir = join("/sys/devices/system/cpu/cpufreq/policy", number.as_str());
        let dir = join(dir.as_str(), "/");
        join(dir.as_str(), leaf)
    } else {
        let dir = join("/sys/devices/system/cpu/", cpu);
        let dir = join(dir.as_str(), "/cpufreq/");
        join(dir.as_str(), leaf)
    }
}

pub fn cpuinfo_max_path(cpu: &str) -> (r: String)
    ensures
        r@ == cpufreq_path(cpu@, "cpuinfo_max_freq"@),
{
    cpu_cpufreq_path(cpu, "cpuinfo_max_freq")
}

pub fn cpuinfo_min_path(cpu: &str) -> (r: String)
    ensures
        r@ == cpufreq_path(cpu@, "cpuinfo_min_freq"@),
{
    cpu_cpufreq_path(cpu, "cpuinfo_min_freq")
}

/// The core number in a hotplug or core name; other names stand for themselves.
pub open spec fn core_number(cpu: Seq<char>) -> Seq<char> {
    if has_prefix(cpu, "hotplug_cpu"@) {
        cpu.skip("hotplug_cpu"@.len() as int)
    } else if has_prefix(cpu, "cpu"@) {
        cpu.skip("cpu"@.len() as int)
    } else {
        cpu
    }
}

pub open spec fn online_path(cpu: Seq<char>) -> Seq<char> {
    "/sys/devices/system/cpu/cpu"@ + core_number(cpu) + "/online"@
}

fn without_prefix(v: &Vec<char>, p: &str) -> (r: String)
    requires
        has_prefix(v@, p@),
    ensures
        r@ == v@.skip(p@.len() as int),
{
    let n: usize = p.unicode_len();
    let rest = piece(v, n, v.len());
    assert(rest@ =~= v@.skip(p@.len() as int));
    string_of(&rest)
}

pub fn cpu_online_path(cpu: &str) -> (r: String)
    ensures
        r@ == online_path(cpu@),
{
    let v = chars_of(cpu);
    let n = if starts_with(&v, "hotplug_cpu") {
        without_prefix(&v, "hotplug_cpu")
    } else if starts_with(&v, "cpu") {
        without_prefix(&v, "cpu")
    } else {
        cpu.to_string()
    };
    let path = join("/sys/devices/system/cpu/cpu", n.as_str());
    join(path.as_str(), "/online")
}

pub fn set_cpu_freq(cpu: &str, freq_khz: i32) -> (r: WritePlan)
    ensures
        r@ == (PlanView {
            paths: seq![cpufreq_path(cpu@, "scaling_max_freq"@)],
            value: freq_khz as int,
        }),
{
    let path = cpu_cpufreq_path(cpu, "scaling_max_freq");
    one_node(path.as_str(), freq_khz)
}

pub fn set_cpu_hotplug(cpu: &str, online: bool) -> (r: WritePlan)
    ensures
        r@ == (PlanView { paths: seq![online_path(cpu@)], value: bit(online) }),
{
    let path = cpu_online_path(cpu);
    one_node(path.as_str(), bit_of(online))
}

// ---------------------------------------------------------------------------
// Other nodes
// ---------------------------------------------------------------------------

pub fn set_ipa_boost(level: i32) -> (r: WritePlan)
    ensures
        r@ == (PlanView {
            paths: seq![
                "/sys/class/thermal/thermal_message/ipa_cdev_limits"@,
            ],
            value: level as int,
        }),
{
    one_node(
        "/sys/class/thermal/thermal_message/ipa_cdev_limits",
        level,
    )
}

/// Caps the graphics frequency.
pub fn set_gpu_boost(freq_hz: i32) -> (r: WritePlan)
    ensures
        r@ == (PlanView {
            paths: seq!["/sys/class/kgsl/kgsl-3d0/devfreq/max_freq"@],
            value: freq_hz as int,
        }),
{
    one_node("/sys/class/kgsl/kgsl-3d0/devfreq/max_freq", freq_hz)
}

pub fn set_bcl(ma: i32) -> (r: WritePlan)
    ensures
        r@ == (PlanView {
            paths: seq![
                "/sys/class/power_supply/battery/constant_charge_current"@,
                "/sys/class/power_supply/battery/current_max"@,
            ],
            value: ma as int,
        }),
{
    two_nodes(
        "/sys/class/power_supply/battery/constant_charge_current",
        "/sys/class/power_supply/battery/current_max",
        ma,
    )
}

pub fn set_fcc(ma: i32) -> (r: WritePlan)
    ensures
        r@ == (PlanView {
            paths: seq![
                "/sys/class/power_supply/battery/constant_charge_current"@,
            ],
            value: ma as int,
        }),
{
    one_node(
        "/sys/class/power_supply/battery/constant_charge_current",
        ma,
    )
}

pub fn set_boost_limit(on: bool) -> (r: WritePlan)
    ensures
        r@ == (PlanView {
            paths: seq![
                "/sys/devices/system/cpu/cpufreq/boost"@,
            ],
            value: bit(on),
        }),
{
    one_node(
        "/sys/devices/system/cpu/cpufreq/boost",
        bit_of(on),
    )
}

pub fn set_temp_state(state: i32) -> (r: WritePlan)
    ensures
        r@ == (PlanView {
            paths: seq![
                "/sys/class/thermal/thermal_message/temp_state"@,
                "/sys/kernel/thermal/temp_state"@,
            ],
            value: state as int,
        }),
{
    two_nodes(
        "/sys/class/thermal/thermal_message/temp_state",
        "/sys/kernel/thermal/temp_state",
        state,
    )
}

pub fn set_brightness(level: i32) -> (r: WritePlan)
    ensures
        r@ == (PlanView {
            paths: seq![
                "/sys/class/backlight/panel0-backlight/brightness"@,
                "/sys/class/leds/lcd-backlight/brightness"@,
                "/sys/class/mi_display/disp-DSI-0/brightness_clone"@,
            ],
            value: level as int,
        }),
{
    three_nodes(
        "/sys/class/backlight/panel0-backlight/brightness",
        "/sys/class/leds/lcd-backlight/brightness",
        "/sys/class/mi_display/disp-DSI-0/brightness_clone",
        level,
    )
}

pub fn set_max_brightness(level: i32) -> (r: WritePlan)
    ensures
        r@ == (PlanView {
            paths: seq![
                "/sys/class/backlight/panel0-backlight/max_brightness"@,
                "/sys/class/thermal/thermal_message/thermal_max_brightness"@,
            ],
            value: level as int,
        }),
{
    two_nodes(
        "/sys/class/backlight/panel0-backlight/max_brightness",
        "/sys/class/thermal/thermal_message/thermal_max_brightness",
        level,
    )
}

pub fn set_modem_limit(on: bool) -> (r: WritePlan)
    ensures
        r@ == (PlanView {
            paths: seq![
                "/sys/class/thermal/thermal_message/modem_limit"@,
            ],
            value: bit(on),
        }),
{
    one_node(
        "/sys/class/thermal/thermal_message/modem_limit",
        bit_of(on),
    )
}

pub fn set_modem_level(level: i32) -> (r: WritePlan)
    ensures
        r@ == (PlanView {
            paths: seq![
                "/sys/class/thermal/thermal_message/modem_level"@,
            ],
            value: level as int,
        }),
{
    one_node(
        "/sys/class/thermal/thermal_message/modem_level",
        level,
    )
}

pub fn set_wifi_limit(limit: i32) -> (r: WritePlan)
    ensures
        r@ == (PlanView {
            paths: seq![
                "/sys/class/thermal/thermal_message/wifi_limit"@,
            ],
            value: limit as int,
        }),
{
    one_node(
        "/sys/class/thermal/thermal_message/wifi_limit",
        limit,
    )
}

pub fn set_voice_limit(on: bool) -> (r: WritePlan)
    ensures
        r@ == (PlanView {
            paths: seq![
                "/sys/class/thermal/thermal_message/voice_limit"@,
            ],
            value: bit(on),
        }),
{
    one_node(
        "/sys/class/thermal/thermal_message/voice_limit",
        bit_of(on),
    )
}

pub fn set_torch_level(level: i32) -> (r: WritePlan)
    ensures
        r@ == (PlanView {
            paths: seq![
                "/sys/class/thermal/thermal_message/torch_level"@,
            ],
            value: level as int,
        }),
{
    one_node(
        "/sys/class/thermal/thermal_message/torch_level",
        level,
    )
}

pub fn set_cdsp(level: i32) -> (r: WritePlan)
    ensures
        r@ == (PlanView {
            paths: seq![
                "/sys/class/thermal/thermal_message/cdsp"@,
            ],
            value: level as int,
        }),
{
    one_node(
        "/sys/class/thermal/thermal_message/cdsp",
        level,
    )
}

pub fn set_market_limit(on: bool) -> (r: WritePlan)
    ensures
        r@ == (PlanView {
            paths: seq![
                "/sys/class/thermal/thermal_message/market_download_limit"@,
            ],
            value: bit(on),
        }),
{
    one_node(
        "/sys/class/thermal/thermal_message/market_download_limit",
        bit_of(on),
    )
}

pub fn set_temp_aware(on: bool) -> (r: WritePlan)
    ensures
        r@ == (PlanView {
            paths: seq![
                "/sys/class/power_debug/temp_aware"@,
                "/sys/class/thermal/thermal_message/temp_aware"@,
            ],
            value: bit(on),
        }),
{
    two_nodes(
        "/sys/class/power_debug/temp_aware",
        "/sys/class/thermal/thermal_message/temp_aware",
        bit_of(on),
    )
}

pub fn set_powersave_boost(on: bool) -> (r: WritePlan)
    ensures
        r@ == (PlanView {
            paths: seq![
                "/sys/powersave/boost"@,
                "/sys/class/thermal/power_save/powersave_mode"@,
            ],
            value: bit(on),
        }),
{
    two_nodes(
        "/sys/powersave/boost",
        "/sys/class/thermal/power_save/powersave_mode",
        bit_of(on),
    )
}

pub fn set_shutdown_policy(on: bool) -> (r: WritePlan)
    ensures
        r@ == (PlanView {
            paths: seq![
                "/data/vendor/thermal/shutdown_policy0"@,
            ],
            value: bit(on),
        }),
{
    one_node(
        "/data/vendor/thermal/shutdown_policy0",
        bit_of(on),
    )
}

pub fn set_screen_state(state: i32) -> (r: WritePlan)
    ensures
        r@ == (PlanView {
            paths: seq![
                "/sys/class/thermal/thermal_message/screen_state"@,
            ],
            value: state as int,
        }),
{
    one_node(
        "/sys/class/thermal/thermal_message/screen_state",
        state,
    )
}

pub fn set_boost_state(level: i32) -> (r: WritePlan)
    ensures
        r@ == (PlanView {
            paths: seq![
                "/sys/class/thermal/thermal_message/boost"@,
            ],
            value: level as int,
        }),
{
    one_node(
        "/sys/class/thermal/thermal_message/boost",
        level,
    )
}

pub fn set_special_cpu_limit(limit: i32) -> (r: WritePlan)
    ensures
        r@ == (PlanView {
            paths: seq![
                "/sys/class/thermal/thermal_message/special_cpu_limit"@,
            ],
            value: limit as int,
        }),
{
    one_node(
        "/sys/class/thermal/thermal_message/special_cpu_limit",
        limit,
    )
}

pub fn set_cpu_limits(limit: i32) -> (r: WritePlan)
    ensures
        r@ == (PlanView {
            paths: seq![
                "/sys/class/thermal/thermal_message/cpu_limits"@,
            ],
            value: limit as int,
        }),
{
    one_node(
        "/sys/class/thermal/thermal_message/cpu_limits",
        limit,
    )
}

// ---------------------------------------------------------------------------
// Dispatch
// ---------------------------------------------------------------------------

/// The nodes of an action, in the order in which they are tried.
pub open spec fn action_paths(a: ActionView) -> Seq<Seq<char>> {
    match a.type_ {
        ActionType::CpuFreq => seq![cpufreq_path(a.target, "scaling_max_freq"@)],
        ActionType::CpuHotplug => seq![online_path(a.target)],
        ActionType::GpuBoost => seq!["/sys/class/kgsl/kgsl-3d0/devfreq/max_freq"@],
        ActionType::IpaBoost => seq!["/sys/class/thermal/thermal_message/ipa_cdev_limits"@],
        ActionType::Bcl => seq![
            "/sys/class/power_supply/battery/constant_charge_current"@,
            "/sys/class/power_supply/battery/current_max"@,
        ],
        ActionType::TempAware => seq![
            "/sys/class/power_debug/temp_aware"@,
            "/sys/class/thermal/thermal_message/temp_aware"@,
        ],
        ActionType::PowersaveBoost => seq![
            "/sys/powersave/boost"@,
            "/sys/class/thermal/power_save/powersave_mode"@,
        ],
        ActionType::Brightness => seq![
            "/sys/class/backlight/panel0-backlight/brightness"@,
            "/sys/class/leds/lcd-backlight/brightness"@,
            "/sys/class/mi_display/disp-DSI-0/brightness_clone"@,
        ],
        ActionType::MaxBrightness => seq![
            "/sys/class/backlight/panel0-backlight/max_brightness"@,
            "/sys/class/thermal/thermal_message/thermal_max_brightness"@,
        ],
        ActionType::Shutdown => seq!["/data/vendor/thermal/shutdown_policy0"@],
        ActionType::Fcc => seq!["/sys/class/power_supply/battery/constant_charge_current"@],
        ActionType::BoostLimit => seq!["/sys/devices/system/cpu/cpufreq/boost"@],
        ActionType::TempState => seq![
            "/sys/class/thermal/thermal_message/temp_state"@,
            "/sys/kernel/thermal/temp_state"@,
        ],
        ActionType::ModemLimit => seq!["/sys/class/thermal/thermal_message/modem_limit"@],
        ActionType::ModemLevel => seq!["/sys/class/thermal/thermal_message/modem_level"@],
        ActionType::WifiLimit => seq!["/sys/class/thermal/thermal_message/wifi_limit"@],
        ActionType::VoiceLimit => seq!["/sys/class/thermal/thermal_message/voice_limit"@],
        ActionType::TorchLevel => seq!["/sys/class/thermal/thermal_message/torch_level"@],
        ActionType::Cdsp => seq!["/sys/class/thermal/thermal_message/cdsp"@],
        ActionType::MarketLimit => seq!["/sys/class/thermal/thermal_message/market_download_limit"@],
        ActionType::ScreenState => seq!["/sys/class/thermal/thermal_message/screen_state"@],
        ActionType::Boost => seq!["/sys/class/thermal/thermal_message/boost"@],
        ActionType::SpecialCpuLimit => seq!["/sys/class/thermal/thermal_message/special_cpu_limit"@],
        ActionType::CpuLimits => seq!["/sys/class/thermal/thermal_message/cpu_limits"@],
        _ => Seq::empty(),
    }
}

/// Does the action switch something on or off?
pub open spec fn is_switch(t: ActionType) -> bool {
    match t {
        ActionType::CpuHotplug
        | ActionType::TempAware
        | ActionType::PowersaveBoost
        | ActionType::Shutdown
        | ActionType::BoostLimit
        | ActionType::ModemLimit
        | ActionType::VoiceLimit
        | ActionType::MarketLimit => true,
        _ => false,
    }
}

/// The write plan of an action; there is none for an action without nodes.
pub open spec fn plan_of(a: ActionView) -> Option<PlanView> {
    if action_paths(a).len() == 0 {
        None
    } else {
        Some(
            PlanView {
                paths: action_paths(a),
                value: if is_switch(a.type_) {
                    bit(a.value != 0)
                } else {
                    a.value as int
                },
            },
        )
    }
}

pub open spec fn plan_view(p: Option<WritePlan>) -> Option<PlanView> {
    match p {
        Some(p) => Some(p@),
        None => None,
    }
}

pub fn action_apply(a: &Action) -> (r: Option<WritePlan>)
    ensures
        plan_view(r) == plan_of(a@),
{
    match a.type_ {
        ActionType::CpuFreq => Some(set_cpu_freq(a.target.as_str(), a.value)),
        ActionType::CpuHotplug => Some(set_cpu_hotplug(a.target.as_str(), a.value != 0)),
        ActionType::GpuBoost => Some(set_gpu_boost(a.value)),
        ActionType::IpaBoost => Some(set_ipa_boost(a.value)),
        ActionType::Bcl => Some(set_bcl(a.value)),
        ActionType::TempAware => Some(set_temp_aware(a.value != 0)),
        ActionType::PowersaveBoost => Some(set_powersave_boost(a.value != 0)),
        ActionType::Brightness => Some(set_brightness(a.value)),
        ActionType::MaxBrightness => Some(set_max_brightness(a.value)),
        ActionType::Shutdown => Some(set_shutdown_policy(a.value != 0)),
        ActionType::Fcc => Some(set_fcc(a.value)),
        ActionType::BoostLimit => Some(set_boost_limit(a.value != 0)),
        ActionType::TempState => Some(set_temp_state(a.value)),
        ActionType::ModemLimit => Some(set_modem_limit(a.value != 0)),
        ActionType::ModemLevel => Some(set_modem_level(a.value)),
        ActionType::WifiLimit => Some(set_wifi_limit(a.value)),
        ActionType::VoiceLimit => Some(set_voice_limit(a.value != 0)),
        ActionType::TorchLevel => Some(set_torch_level(a.value)),
        ActionType::Cdsp => Some(set_cdsp(a.value)),
        ActionType::MarketLimit => Some(set_market_limit(a.value != 0)),
        ActionType::ScreenState => Some(set_screen_state(a.value)),
        ActionType::Boost => Some(set_boost_state(a.value)),
        ActionType::SpecialCpuLimit => Some(set_special_cpu_limit(a.value)),
        ActionType::CpuLimits => Some(set_cpu_limits(a.value)),
        _ => None,
    }
}

/// The write plans of some actions, in order.
pub open spec fn plans_of(a: Seq<ActionView>) -> Seq<PlanView>
    decreases a.len(),
{
    if a.len() == 0 {
        Seq::empty()
    } else {
        match plan_of(a.last()) {
            Some(p) => plans_of(a.drop_last()).push(p),
            None => plans_of(a.drop_last()),
        }
    }
}

pub fn action_apply_multi(actions: &Vec<Action>) -> (r: Vec<WritePlan>)
    ensures
        plan_views(r@) == plans_of(action_views(actions@)),
{
    let ghost av = action_views(actions@);
    let mut out: Vec<WritePlan> = Vec::new();
    let mut i: usize = 0;
    assert(av.take(0) =~= Seq::empty());
    assert(plan_views(out@) =~= Seq::empty());
    while i < actions.len()
        invariant
            i <= actions@.len(),
            av == action_views(actions@),
            plan_views(out@) == plans_of(av.take(i as int)),
        decreases actions@.len() - i,
    {
        proof {
            assert(av.take(i + 1).drop_last() =~= av.take(i as int));
            assert(av.take(i + 1).last() == actions@[i as int]@);
        }
        match action_apply(&actions[i]) {
            Some(p) => {
                let ghost before = out@;
                out.push(p);
                assert(plan_views(out@) =~= plan_views(before).push(p@));
            },
            None => {},
        }
        i += 1;
    }
    assert(av.take(actions@.len() as int) =~= av);
    out
}

// ---------------------------------------------------------------------------
// Default values
// ---------------------------------------------------------------------------

/// The nodes that tell the live value of an action that leaves the hardware
/// alone. An action with a value of its own has none.
pub open spec fn default_probes(a: ActionView) -> Seq<Seq<char>> {
    if a.value != 0 {
        Seq::empty()
    } else {
        match a.type_ {
            ActionType::CpuFreq => seq![cpufreq_path(a.target, "cpuinfo_max_freq"@)],
            ActionType::CpuHotplug => seq![online_path(a.target)],
            ActionType::Bcl => seq!["/sys/class/power_supply/battery/constant_charge_current"@],
            ActionType::Fcc => seq![
                "/sys/class/power_supply/battery/constant_charge_current_max"@,
                "/sys/class/power_supply/battery/constant_charge_current"@,
            ],
            _ => Seq::empty(),
        }
    }
}

/// The value that stands in when no probe gives one.
pub open spec fn fallback_value(t: ActionType) -> int {
    match t {
        ActionType::CpuFreq => 3000000,
        ActionType::CpuHotplug => 1,
        ActionType::Bcl => 5000000,
        ActionType::Fcc => 6000000,
        _ => 0,
    }
}

/// The first positive reading, or the fallback.
pub open spec fn first_positive(readings: Seq<i32>, fallback: int) -> int
    decreases readings.len(),
{
    if readings.len() == 0 {
        fallback
    } else if readings[0] > 0 {
        readings[0] as int
    } else {
        first_positive(readings.skip(1), fallback)
    }
}

/// The action with its default value resolved from the readings of its probes.
pub open spec fn resolved_default(a: ActionView, readings: Seq<i32>) -> ActionView {
    if default_probes(a).len() == 0 {
        a
    } else {
        ActionView { value: first_positive(readings, fallback_value(a.type_)) as i32, ..a }
    }
}

/// The nodes to read before the default value of an action is resolved.
pub fn default_probe_paths(a: &Action) -> (r: Vec<String>)
    ensures
        texts(r@) == default_probes(a@),
{
    let mut out: Vec<String> = Vec::new();
    if a.value == 0 {
        match a.type_ {
            ActionType::CpuFreq => {
                out.push(cpuinfo_max_path(a.target.as_str()));
            },
            ActionType::CpuHotplug => {
                out.push(cpu_online_path(a.target.as_str()));
            },
            ActionType::Bcl => {
                out.push("/sys/class/power_supply/battery/constant_charge_current".to_string());
            },
            ActionType::Fcc => {
                out.push("/sys/class/power_supply/battery/constant_charge_current_max".to_string());
                out.push("/sys/class/power_supply/battery/constant_charge_current".to_string());
            },
            _ => {},
        }
    }
    assert(texts(out@) =~= default_probes(a@));
    out
}

/// Gives an action without a value the live value of the hardware, so that the
/// state is asserted again instead of being overwritten with 0.
pub fn resolve_default_action_value(action: &mut Action, readings: &Vec<i32>)
    ensures
        final(action)@ == resolved_default(old(action)@, readings@),
{
    if action.value != 0 {
        return;
    }
    let fallback: i32 = match action.type_ {
        ActionType::CpuFreq => 3000000,
        ActionType::CpuHotplug => 1,
        ActionType::Bcl => 5000000,
        ActionType::Fcc => 6000000,
        _ => {
            return;
        },
    };
    let mut i: usize = 0;
    let ghost a = action@;
    assert(readings@.skip(0) =~= readings@);
    while i < readings.len()
        invariant
            i <= readings@.len(),
            action@ == a,
            a == old(action)@,
            default_probes(a).len() > 0,
            fallback == fallback_value(a.type_),
            first_positive(readings@, fallback as int) == first_positive(
                readings@.skip(i as int),
                fallback as int,
            ),
        decreases readings@.len() - i,
    {
        assert(readings@.skip(i as int).skip(1) =~= readings@.skip(i + 1));
        if readings[i] > 0 {
            action.value = readings[i];
            return;
        }
        i += 1;
    }
    action.value = fallback;
}

/// The message node of the thermal driver that an action writes to, for those that have
/// one node there and no other.
pub open spec fn message_leaf(t: ActionType) -> Option<Seq<char>> {
    match t {
        ActionType::IpaBoost => Some("ipa_cdev_limits"@),
        ActionType::ModemLimit => Some("modem_limit"@),
        ActionType::ModemLevel => Some("modem_level"@),
        ActionType::WifiLimit => Some("wifi_limit"@),
        ActionType::VoiceLimit => Some("voice_limit"@),
        ActionType::TorchLevel => Some("torch_level"@),
        ActionType::Cdsp => Some("cdsp"@),
        ActionType::MarketLimit => Some("market_download_limit"@),
        ActionType::ScreenState => Some("screen_state"@),
        ActionType::Boost => Some("boost"@),
        ActionType::SpecialCpuLimit => Some("special_cpu_limit"@),
        ActionType::CpuLimits => Some("cpu_limits"@),
        _ => None,
    }
}

/// Actions on the thermal driver write to the message node of their own name.
pub proof fn law_message_actions(a: ActionView, leaf: Seq<char>)
    requires
        message_leaf(a.type_) == Some(leaf),
    ensures
        action_paths(a) == seq!["/sys/class/thermal/thermal_message/"@ + leaf],
{
    reveal_strlit("/sys/class/thermal/thermal_message/");
    if a.type_ == ActionType::IpaBoost {
        reveal_strlit("ipa_cdev_limits");
        reveal_strlit("/sys/class/thermal/thermal_message/ipa_cdev_limits");
        assert("/sys/class/thermal/thermal_message/"@ + "ipa_cdev_limits"@
            =~= "/sys/class/thermal/thermal_message/ipa_cdev_limits"@);
    }
    if a.type_ == ActionType::ModemLimit {
        reveal_strlit("modem_limit");
        reveal_strlit("/sys/class/thermal/thermal_message/modem_limit");
        assert("/sys/class/thermal/thermal_message/"@ + "modem_limit"@
            =~= "/sys/class/thermal/thermal_message/modem_limit"@);
    }
    if a.type_ == ActionType::ModemLevel {
        reveal_strlit("modem_level");
        reveal_strlit("/sys/class/thermal/thermal_message/modem_level");
        assert("/sys/class/thermal/thermal_message/"@ + "modem_level"@
            =~= "/sys/class/thermal/thermal_message/modem_level"@);
    }
    if a.type_ == ActionType::WifiLimit {
        reveal_strlit("wifi_limit");
        reveal_strlit("/sys/class/thermal/thermal_message/wifi_limit");
        assert("/sys/class/thermal/thermal_message/"@ + "wifi_limit"@
            =~= "/sys/class/thermal/thermal_message/wifi_limit"@);
    }
    if a.type_ == ActionType::VoiceLimit {
        reveal_strlit("voice_limit");
        reveal_strlit("/sys/class/thermal/thermal_message/voice_limit");
        assert("/sys/class/thermal/thermal_message/"@ + "voice_limit"@
            =~= "/sys/class/thermal/thermal_message/voice_limit"@);
    }
    if a.type_ == ActionType::TorchLevel {
        reveal_strlit("torch_level");
        reveal_strlit("/sys/class/thermal/thermal_message/torch_level");
        assert("/sys/class/thermal/thermal_message/"@ + "torch_level"@
            =~= "/sys/class/thermal/thermal_message/torch_level"@);
    }
    if a.type_ == ActionType::Cdsp {
        reveal_strlit("cdsp");
        reveal_strlit("/sys/class/thermal/thermal_message/cdsp");
        assert("/sys/class/thermal/thermal_message/"@ + "cdsp"@
            =~= "/sys/class/thermal/thermal_message/cdsp"@);
    }
    if a.type_ == ActionType::MarketLimit {
        reveal_strlit("market_download_limit");
        reveal_strlit("/sys/class/thermal/thermal_message/market_download_limit");
        assert("/sys/class/thermal/thermal_message/"@ + "market_download_limit"@
            =~= "/sys/class/thermal/thermal_message/market_download_limit"@);
    }
    if a.type_ == ActionType::ScreenState {
        reveal_strlit("screen_state");
        reveal_strlit("/sys/class/thermal/thermal_message/screen_state");
        assert("/sys/class/thermal/thermal_message/"@ + "screen_state"@
            =~= "/sys/class/thermal/thermal_message/screen_state"@);
    }
    if a.type_ == ActionType::Boost {
        reveal_strlit("boost");
        reveal_strlit("/sys/class/thermal/thermal_message/boost");
        assert("/sys/class/thermal/thermal_message/"@ + "boost"@
            =~= "/sys/class/thermal/thermal_message/boost"@);
    }
    if a.type_ == ActionType::SpecialCpuLimit {
        reveal_strlit("special_cpu_limit");
        reveal_strlit("/sys/class/thermal/thermal_message/special_cpu_limit");
        assert("/sys/class/thermal/thermal_message/"@ + "special_cpu_limit"@
            =~= "/sys/class/thermal/thermal_message/special_cpu_limit"@);
    }
    if a.type_ == ActionType::CpuLimits {
        reveal_strlit("cpu_limits");
        reveal_strlit("/sys/class/thermal/thermal_message/cpu_limits");
        assert("/sys/class/thermal/thermal_message/"@ + "cpu_limits"@
            =~= "/sys/class/thermal/thermal_message/cpu_limits"@);
    }
}

/// Actions on the hardware write to the nodes of their kind; where there are several, the
/// first that takes the value counts.
pub proof fn law_hardware_actions(a: ActionView)
    ensures
        a.type_ == ActionType::GpuBoost ==> action_paths(a) == seq![
            "/sys/class/kgsl/kgsl-3d0/devfreq/max_freq"@,
        ],
        a.type_ == ActionType::Bcl ==> action_paths(a).len() == 2 && action_paths(a)[0]
            == "/sys/class/power_supply/battery/constant_charge_current"@ && action_paths(a)[1]
            == "/sys/class/power_supply/battery/current_max"@,
        a.type_ == ActionType::Fcc ==> action_paths(a) == seq![
            "/sys/class/power_supply/battery/constant_charge_current"@,
        ],
        a.type_ == ActionType::Brightness ==> action_paths(a).len() == 3 && action_paths(a)[0]
            == "/sys/class/backlight/panel0-backlight/brightness"@ && action_paths(a)[1]
            == "/sys/class/leds/lcd-backlight/brightness"@ && action_paths(a)[2]
            == "/sys/class/mi_display/disp-DSI-0/brightness_clone"@,
        a.type_ == ActionType::MaxBrightness ==> action_paths(a).len() == 2 && action_paths(a)[0]
            == "/sys/class/backlight/panel0-backlight/max_brightness"@ && action_paths(a)[1]
            == "/sys/class/thermal/thermal_message/thermal_max_brightness"@,
        a.type_ == ActionType::TempAware ==> action_paths(a).len() == 2 && action_paths(a)[0]
            == "/sys/class/power_debug/temp_aware"@ && action_paths(a)[1]
            == "/sys/class/thermal/thermal_message/temp_aware"@,
        a.type_ == ActionType::PowersaveBoost ==> action_paths(a).len() == 2 && action_paths(a)[0]
            == "/sys/powersave/boost"@ && action_paths(a)[1]
            == "/sys/class/thermal/power_save/powersave_mode"@,
        a.type_ == ActionType::TempState ==> action_paths(a).len() == 2 && action_paths(a)[0]
            == "/sys/class/thermal/thermal_message/temp_state"@ && action_paths(a)[1]
            == "/sys/kernel/thermal/temp_state"@,
        a.type_ == ActionType::Shutdown ==> action_paths(a) == seq![
            "/data/vendor/thermal/shutdown_policy0"@,
        ],
        a.type_ == ActionType::BoostLimit ==> action_paths(a) == seq![
            "/sys/devices/system/cpu/cpufreq/boost"@,
        ],
        a.type_ == ActionType::NoAction ==> action_paths(a).len() == 0,
{
}

/// Frequencies are limited, and cores switched, by the nodes of the target of the action.
pub proof fn law_processor_actions(a: ActionView)
    ensures
        a.type_ == ActionType::CpuFreq ==> action_paths(a) == seq![
            cpufreq_path(a.target, "scaling_max_freq"@),
        ],
        a.type_ == ActionType::CpuHotplug ==> action_paths(a) == seq![online_path(a.target)],
{
}

/// A policy is found by its number: what follows the last hyphen of a cluster, or the word
/// `policy`.
pub proof fn law_policy_paths(front: Seq<char>, number: Seq<char>, leaf: Seq<char>)
    requires
        forall|i: int| 0 <= i < number.len() ==> number[i] != '-',
    ensures
        cpufreq_path("policy"@ + number, leaf) == "/sys/devices/system/cpu/cpufreq/policy"@
            + number + "/"@ + leaf,
        cpufreq_path(("cpu-cluster"@ + front).push('-') + number, leaf)
            == "/sys/devices/system/cpu/cpufreq/policy"@ + number + "/"@ + leaf,
{
    reveal_strlit("policy");
    let p = "policy"@ + number;
    assert(p.take(6) =~= "policy"@);
    assert(p.skip(6) =~= number);
    assert forall|i: int| 0 <= i < p.len() implies p[i] != '-' by {
        if i >= 6 {
            assert(p[i] == number[i - 6]);
        }
    }
    crate::text::law_text_after_the_last(Seq::empty(), '-', p);
    let c = ("cpu-cluster"@ + front).push('-') + number;
    crate::text::law_text_after_the_last("cpu-cluster"@ + front, '-', number);
    assert(c.take("cpu-cluster"@.len() as int) =~= "cpu-cluster"@);
}

/// A core is found by its own name, and switched by its number: what follows `hotplug_cpu`
/// or `cpu`.
pub proof fn law_core_paths(cpu: Seq<char>, number: Seq<char>, leaf: Seq<char>)
    ensures
        !has_prefix(cpu, "policy"@) && !has_prefix(cpu, "cpu-cluster"@) ==> cpufreq_path(cpu, leaf)
            == "/sys/devices/system/cpu/"@ + cpu + "/cpufreq/"@ + leaf,
        online_path("hotplug_cpu"@ + number) == "/sys/devices/system/cpu/cpu"@ + number
            + "/online"@,
        online_path("cpu"@ + number) == "/sys/devices/system/cpu/cpu"@ + number + "/online"@,
        !has_prefix(cpu, "hotplug_cpu"@) && !has_prefix(cpu, "cpu"@) ==> online_path(cpu)
            == "/sys/devices/system/cpu/cpu"@ + cpu + "/online"@,
{
    reveal_strlit("hotplug_cpu");
    reveal_strlit("cpu");
    let h = "hotplug_cpu"@ + number;
    assert(h.take("hotplug_cpu"@.len() as int) =~= "hotplug_cpu"@);
    assert(h.skip("hotplug_cpu"@.len() as int) =~= number);
    let c = "cpu"@ + number;
    assert(c.take(3) =~= "cpu"@);
    assert(c.skip(3) =~= number);
    assert(!has_prefix(c, "hotplug_cpu"@)) by {
        if has_prefix(c, "hotplug_cpu"@) {
            assert(c.take(11)[0] == 'h');
            assert(c[0] == 'c');
        }
    }
}

/// Switches are written as 1 or 0, everything else as its value; an action without nodes has
/// no plan.
pub proof fn law_plan_values(a: ActionView)
    ensures
        plan_of(a) is Some <==> action_paths(a).len() > 0,
        plan_of(a) is Some ==> plan_of(a)->0.paths == action_paths(a),
        plan_of(a) is Some && (a.type_ == ActionType::CpuHotplug || a.type_
            == ActionType::TempAware || a.type_ == ActionType::PowersaveBoost || a.type_
            == ActionType::Shutdown || a.type_ == ActionType::BoostLimit || a.type_
            == ActionType::ModemLimit || a.type_ == ActionType::VoiceLimit || a.type_
            == ActionType::MarketLimit) ==> plan_of(a)->0.value == (if a.value == 0 {
            0int
        } else {
            1
        }),
        plan_of(a) is Some && (a.type_ == ActionType::CpuFreq || a.type_ == ActionType::GpuBoost
            || a.type_ == ActionType::IpaBoost || a.type_ == ActionType::Bcl || a.type_
            == ActionType::Fcc || a.type_ == ActionType::Brightness || a.type_
            == ActionType::MaxBrightness || a.type_ == ActionType::TempState || a.type_
            == ActionType::ModemLevel || a.type_ == ActionType::WifiLimit || a.type_
            == ActionType::TorchLevel || a.type_ == ActionType::Cdsp || a.type_
            == ActionType::ScreenState || a.type_ == ActionType::Boost || a.type_
            == ActionType::SpecialCpuLimit || a.type_ == ActionType::CpuLimits)
            ==> plan_of(a)->0.value == a.value,
{
}

/// Two lists of actions are planned one after the other, and a single action as it is.
pub proof fn law_plans_follow_each_other(a: Seq<ActionView>, b: Seq<ActionView>)
    ensures
        plans_of(a + b) == plans_of(a) + plans_of(b),
        a.len() == 1 ==> plans_of(a) == (match plan_of(a[0]) {
            Some(p) => seq![p],
            None => Seq::empty(),
        }),
    decreases b.len(),
{
    if b.len() == 0 {
        assert(a + b =~= a);
        assert(plans_of(a) + plans_of(b) =~= plans_of(a));
    } else {
        law_plans_follow_each_other(a, b.drop_last());
        assert((a + b).drop_last() =~= a + b.drop_last());
        assert((a + b).last() == b.last());
        assert(plans_of(a + b) =~= plans_of(a) + plans_of(b));
    }
    if a.len() == 1 {
        assert(a.drop_last() =~= Seq::<ActionView>::empty());
        assert(plans_of(a.drop_last()) =~= Seq::<PlanView>::empty());
        assert(a.last() == a[0]);
    }
}

/// The first positive reading counts, whatever follows it.
pub proof fn law_first_positive_counts(readings: Seq<i32>, fallback: int, k: int)
    ensures
        0 <= k < readings.len() && readings[k] > 0 && (forall|i: int|
            0 <= i < k ==> #[trigger] readings[i] <= 0) ==> first_positive(readings, fallback)
            == readings[k],
        (forall|i: int| 0 <= i < readings.len() ==> #[trigger] readings[i] <= 0)
            ==> first_positive(readings, fallback) == fallback,
    decreases readings.len(),
{
    if readings.len() > 0 && readings[0] <= 0 {
        law_first_positive_counts(readings.skip(1), fallback, k - 1);
        if 0 < k < readings.len() {
            assert(readings.skip(1)[k - 1] == readings[k]);
        }
    }
}

/// An action without a value of its own takes what its probes read: the highest frequency
/// of its processor, the state of its core, the charge currents. Without a reading, it is 3
/// GHz, an online core, 5 or 6 amperes. All other actions stay as they are.
pub proof fn law_defaults_by_type(a: ActionView, readings: Seq<i32>)
    ensures
        ({
            let r = resolved_default(a, readings);
            &&& r.type_ == a.type_ && r.target == a.target
            &&& a.value != 0 ==> r == a && default_probes(a).len() == 0
            &&& a.value == 0 && a.type_ == ActionType::CpuFreq ==> default_probes(a) == seq![
                cpufreq_path(a.target, "cpuinfo_max_freq"@),
            ]
            &&& a.value == 0 && a.type_ == ActionType::CpuHotplug ==> default_probes(a) == seq![
                online_path(a.target),
            ]
            &&& a.value == 0 && a.type_ == ActionType::Bcl ==> default_probes(a) == seq![
                "/sys/class/power_supply/battery/constant_charge_current"@,
            ]
            &&& a.value == 0 && a.type_ == ActionType::Fcc ==> default_probes(a).len() == 2
                && default_probes(a)[0]
                == "/sys/class/power_supply/battery/constant_charge_current_max"@
                && default_probes(a)[1]
                == "/sys/class/power_supply/battery/constant_charge_current"@
            &&& a.value == 0 && (a.type_ == ActionType::CpuFreq || a.type_ == ActionType::CpuHotplug
                || a.type_ == ActionType::Bcl || a.type_ == ActionType::Fcc) && readings.len() > 0
                && readings[0] > 0 ==> r.value == readings[0]
            &&& readings.len() == 0 && a.value == 0 ==> r.value == (if a.type_
                == ActionType::CpuFreq {
                3_000_000int
            } else if a.type_ == ActionType::CpuHotplug {
                1
            } else if a.type_ == ActionType::Bcl {
                5_000_000
            } else if a.type_ == ActionType::Fcc {
                6_000_000
            } else {
                0
            })
        }),
{
}

} // verus!
