//! The state of the daemon as its web page shows it, and the routes of the web
//! server. Temperatures are integers in the unit of their sensor, ratios
//! millionths.

use vstd::prelude::*;

use crate::ai::channels::{ChannelGroup, CoolingChannel};
#[allow(unused_imports)]
use crate::ai::channels::{channel_views, ChannelView};
use crate::ai::charging::status_charges;
#[allow(unused_imports)]
use crate::ai::charging::is_charging;
#[allow(unused_imports)]
use crate::ai::engine::text_view;
use crate::ai::features::{load_of, parse_cpu_times, CpuTimes};
#[allow(unused_imports)]
use crate::ai::features::{cpu_times, is_temperature, load_between};
use crate::arith::{clamp_i128, div_trunc};
#[allow(unused_imports)]
use crate::arith::{clamped, magnitude, trunc_div, upper_of};
use crate::engine::Engine;
#[allow(unused_imports)]
use crate::engine::DaemonView;
use crate::text::{chars_of, contains, parse_unsigned, same_text, spells, to_lower};
#[allow(unused_imports)]
use crate::text::{has_part, lowercase, unsigned_of};
use crate::types::{AlgoType, Instance, Sensor};
#[allow(unused_imports)]
use crate::types::{instance_views, sensor_views, InstanceView, SensorView};

verus! {

// ---------------------------------------------------------------------------
// Routes
// ---------------------------------------------------------------------------

#[derive(Debug, Clone, Copy, PartialEq, Eq, Structural)]
pub enum Route {
    Snapshot,
    Dashboard,
    NotFound,
}

/// What an address stands for.
pub open spec fn route_of(url: Seq<char>) -> Route {
    if url == "/api/snapshot"@ {
        Route::Snapshot
    } else if url == "/"@ || url == "/index.html"@ {
        Route::Dashboard
    } else {
        Route::NotFound
    }
}

/// What a request asks for.
pub fn route(url: &str) -> (r: Route)
    ensures
        r == route_of(url@),
{
    if same_text(url, "/api/snapshot") {
        Route::Snapshot
    } else if same_text(url, "/") || same_text(url, "/index.html") {
        Route::Dashboard
    } else {
        Route::NotFound
    }
}

/// The port that a setting asks for.
pub open spec fn port_of(setting: Option<&str>) -> int {
    match setting {
        Some(s) => match unsigned_of(s@, u16::MAX as int) {
            Some(n) => n,
            None => 8080,
        },
        None => 8080,
    }
}

/// The port that the server listens on: the configured one where it is a port
/// number.
pub fn web_port(setting: Option<&str>) -> (r: u16)
    ensures
        r == port_of(setting),
{
    match setting {
        Some(s) => match parse_unsigned(&chars_of(s), u16::MAX as u64) {
            Some(n) => n as u16,
            None => 8080,
        },
        None => 8080,
    }
}

// ---------------------------------------------------------------------------
// Sensors
// ---------------------------------------------------------------------------

/// The group that a sensor is shown in.
pub open spec fn sensor_group(name: Seq<char>) -> Option<Seq<char>> {
    let low = lowercase(name);
    if has_part(low, "cpu"@) || has_part(low, "tsens"@) {
        Some("CPU"@)
    } else if has_part(low, "gpu"@) || has_part(low, "kgsl"@) {
        Some("GPU"@)
    } else if has_part(low, "battery_temp"@) {
        Some("Battery"@)
    } else if has_part(low, "board"@) || has_part(low, "skin"@) {
        Some("Board"@)
    } else if has_part(low, "charger"@) || has_part(low, "connector"@) {
        Some("Charger"@)
    } else {
        None
    }
}

/// A sensor, with its temperature in thousandths of a degree.
#[derive(Debug)]
pub struct SensorInfo {
    pub name: String,
    pub mc: i32,
    pub grp: Option<String>,
}

pub struct SensorInfoView {
    pub name: Seq<char>,
    pub mc: i32,
    pub grp: Option<Seq<char>>,
}

impl View for SensorInfo {
    type V = SensorInfoView;

    open spec fn view(&self) -> SensorInfoView {
        SensorInfoView { name: self.name@, mc: self.mc, grp: text_view(self.grp) }
    }
}

/// The first `n` sensors that are shown: those that measure a temperature.
pub open spec fn shown_sensors(s: Seq<SensorView>, n: int) -> Seq<SensorInfoView>
    decreases n,
{
    if n <= 0 {
        Seq::empty()
    } else if is_temperature(s[n - 1].name) {
        shown_sensors(s, n - 1).push(
            SensorInfoView {
                name: s[n - 1].name,
                mc: s[n - 1].last_temp_mc,
                grp: sensor_group(s[n - 1].name),
            },
        )
    } else {
        shown_sensors(s, n - 1)
    }
}

pub open spec fn sensor_info_views(v: Seq<SensorInfo>) -> Seq<SensorInfoView> {
    v.map_values(|i: SensorInfo| i@)
}

fn group_of(name: &str) -> (r: Option<String>)
    ensures
        text_view(r) == sensor_group(name@),
{
    let low = to_lower(name);
    let v = chars_of(low.as_str());
    if contains(&v, "cpu") || contains(&v, "tsens") {
        Some("CPU".to_string())
    } else if contains(&v, "gpu") || contains(&v, "kgsl") {
        Some("GPU".to_string())
    } else if contains(&v, "battery_temp") {
        Some("Battery".to_string())
    } else if contains(&v, "board") || contains(&v, "skin") {
        Some("Board".to_string())
    } else if contains(&v, "charger") || contains(&v, "connector") {
        Some("Charger".to_string())
    } else {
        None
    }
}

fn show_sensors(sensors: &Vec<Sensor>) -> (r: Vec<SensorInfo>)
    ensures
        sensor_info_views(r@) == shown_sensors(sensor_views(sensors@), sensors@.len() as int),
{
    let ghost s = sensor_views(sensors@);
    let mut out: Vec<SensorInfo> = Vec::new();
    let mut i: usize = 0;
    assert(sensor_info_views(out@) =~= Seq::empty());
    while i < sensors.len()
        invariant
            i <= sensors@.len(),
            s == sensor_views(sensors@),
            sensor_info_views(out@) == shown_sensors(s, i as int),
        decreases sensors@.len() - i,
    {
        assert(s[i as int] == sensors@[i as int]@);
        let name = chars_of(sensors[i].name.as_str());
        if !spells(&name, "BAT_SOC") && !spells(&name, "battery_current") && !spells(
            &name,
            "battery_voltage",
        ) {
            let info = SensorInfo {
                name: sensors[i].name.clone(),
                mc: sensors[i].last_temp_mc,
                grp: group_of(sensors[i].name.as_str()),
            };
            let ghost before = out@;
            out.push(info);
            assert(sensor_info_views(out@) =~= sensor_info_views(before).push(info@));
        }
        i += 1;
    }
    out
}

// ---------------------------------------------------------------------------
// Instances
// ---------------------------------------------------------------------------

#[derive(Debug)]
pub struct InstanceInfo {
    pub name: String,
    pub algo: AlgoType,
    pub level: i32,
}

pub struct InstanceInfoView {
    pub name: Seq<char>,
    pub algo: AlgoType,
    pub level: i32,
}

impl View for InstanceInfo {
    type V = InstanceInfoView;

    open spec fn view(&self) -> InstanceInfoView {
        InstanceInfoView { name: self.name@, algo: self.algo, level: self.level }
    }
}

pub open spec fn shown_instance(inst: InstanceView) -> InstanceInfoView {
    InstanceInfoView { name: inst.name, algo: inst.algo, level: inst.current_level }
}

pub open spec fn instance_info_views(v: Seq<InstanceInfo>) -> Seq<InstanceInfoView> {
    v.map_values(|i: InstanceInfo| i@)
}

fn show_instances(instances: &Vec<Instance>) -> (r: Vec<InstanceInfo>)
    ensures
        instance_info_views(r@) == instance_views(instances@).map_values(
            |i: InstanceView| shown_instance(i),
        ),
{
    let mut out: Vec<InstanceInfo> = Vec::new();
    let ghost all = instance_views(instances@).map_values(|i: InstanceView| shown_instance(i));
    let mut i: usize = 0;
    assert(instance_info_views(out@) =~= all.take(0));
    while i < instances.len()
        invariant
            i <= instances@.len(),
            all == instance_views(instances@).map_values(|i: InstanceView| shown_instance(i)),
            instance_info_views(out@) == all.take(i as int),
        decreases instances@.len() - i,
    {
        let info = InstanceInfo {
            name: instances[i].name.clone(),
            algo: instances[i].algo,
            level: instances[i].current_level,
        };
        let ghost before = out@;
        out.push(info);
        proof {
            assert(all[i as int] == info@);
            assert(instance_info_views(out@) =~= instance_info_views(before).push(info@));
            assert(all.take(i + 1) =~= all.take(i as int).push(info@));
        }
        i += 1;
    }
    assert(all.take(instances@.len() as int) =~= all);
    out
}

// ---------------------------------------------------------------------------
// Battery, processor and graphics
// ---------------------------------------------------------------------------

/// The contents of the battery nodes.
#[derive(Debug)]
pub struct BatteryReadings {
    pub temp: i32,
    pub capacity: i32,
    pub current_now: i32,
    pub status: Option<String>,
    pub health: Option<String>,
}

/// The battery, with its temperature in tenths of a degree.
#[derive(Debug)]
pub struct BatteryInfo {
    pub temp_deci: i32,
    pub soc: i32,
    pub current_ma: i32,
    pub charging: bool,
    pub health: String,
}

pub fn battery_info(b: &BatteryReadings) -> (r: BatteryInfo)
    ensures
        r.temp_deci == upper_of(b.temp as int, 0),
        r.soc == upper_of(b.capacity as int, 0),
        r.current_ma == magnitude(b.current_now as int) / 1000,
        r.charging == is_charging(b.status),
        r.health@ == (match b.health {
            Some(h) => h@,
            None => "Unknown"@,
        }),
{
    let current: i64 = b.current_now as i64;
    let size: i64 = if current < 0 {
        -current
    } else {
        current
    };
    BatteryInfo {
        temp_deci: if b.temp > 0 {
            b.temp
        } else {
            0
        },
        soc: if b.capacity > 0 {
            b.capacity
        } else {
            0
        },
        current_ma: (size / 1000) as i32,
        charging: status_charges(&b.status),
        health: match &b.health {
            Some(h) => h.clone(),
            None => "Unknown".to_string(),
        },
    }
}

/// A frequency in larger units; one that is not known counts 0.
pub fn scaled_freq(cur: i32, unit: i32) -> (r: i32)
    requires
        unit > 0,
    ensures
        r == (if cur > 0 {
            cur as int / unit as int
        } else {
            0
        }),
{
    if cur > 0 {
        cur / unit
    } else {
        0
    }
}

/// Measures the processor load between its readings.
#[derive(Debug, Clone, Copy, PartialEq, Eq, Structural)]
pub struct CpuLoadTracker {
    pub prev: CpuTimes,
}

impl CpuLoadTracker {
    pub fn new() -> (r: Self)
        ensures
            r == (CpuLoadTracker { prev: CpuTimes { idle: 0, total: 0 } }),
    {
        CpuLoadTracker { prev: CpuTimes { idle: 0, total: 0 } }
    }

    /// The load since the last reading, or 0 where it is unknown.
    pub fn read_cpu_load(&mut self, stat: Option<&str>) -> (r: i64)
        ensures
            ({
                let times = match stat {
                    Some(s) => cpu_times(s@),
                    None => None,
                };
                match times {
                    Some(t) => r == load_between(old(self).prev, t) && final(self).prev == t,
                    None => r == 0 && *final(self) == *old(self),
                }
            }),
            0 <= r <= 1_000_000,
    {
        let times = match stat {
            Some(s) => parse_cpu_times(s),
            None => None,
        };
        match times {
            Some(t) => {
                let load: i64 = load_of(self.prev, t);
                self.prev = t;
                load
            },
            None => 0,
        }
    }
}

// ---------------------------------------------------------------------------
// Channels
// ---------------------------------------------------------------------------

#[derive(Debug)]
pub struct ChannelInfo {
    pub name: String,
    pub group: ChannelGroup,
    pub value: i32,
    pub min: i32,
    pub max: i32,
    /// The position within the range, in millionths.
    pub share: i64,
}

pub struct ChannelInfoView {
    pub name: Seq<char>,
    pub group: ChannelGroup,
    pub value: i32,
    pub min: i32,
    pub max: i32,
    pub share: i64,
}

impl View for ChannelInfo {
    type V = ChannelInfoView;

    open spec fn view(&self) -> ChannelInfoView {
        ChannelInfoView {
            name: self.name@,
            group: self.group,
            value: self.value,
            min: self.min,
            max: self.max,
            share: self.share,
        }
    }
}

pub open spec fn channel_info_views(v: Seq<ChannelInfo>) -> Seq<ChannelInfoView> {
    v.map_values(|i: ChannelInfo| i@)
}

/// The value of a channel: the charge current and the backlight are read, since
/// others may write them too.
pub open spec fn live_value(c: ChannelView, reading: i32) -> i32 {
    if c.name == "charge_current"@ || c.name == "backlight"@ {
        upper_of(reading as int, 0) as i32
    } else {
        c.value
    }
}

/// The position of a value within the range of a channel.
pub open spec fn range_share(value: int, min: int, max: int) -> int {
    clamped(trunc_div((value - min) * 1_000_000, upper_of(max - min, 1)), 0, 1_000_000)
}

pub open spec fn shown_channel(c: ChannelView, reading: i32) -> ChannelInfoView {
    ChannelInfoView {
        name: c.name,
        group: c.group,
        value: live_value(c, reading),
        min: c.min_val,
        max: c.max_val,
        share: range_share(
            live_value(c, reading) as int,
            c.min_val as int,
            c.max_val as int,
        ) as i64,
    }
}

pub open spec fn shown_channels(c: Seq<ChannelView>, live: Seq<i32>) -> Seq<ChannelInfoView> {
    Seq::new(c.len(), |i: int| shown_channel(c[i], live[i]))
}

fn show_channels(channels: &Vec<CoolingChannel>, live: &Vec<i32>) -> (r: Vec<ChannelInfo>)
    requires
        live@.len() == channels@.len(),
    ensures
        channel_info_views(r@) == shown_channels(channel_views(channels@), live@),
{
    let ghost c = channel_views(channels@);
    let ghost all = shown_channels(c, live@);
    let mut out: Vec<ChannelInfo> = Vec::new();
    let mut i: usize = 0;
    assert(channel_info_views(out@) =~= all.take(0));
    while i < channels.len()
        invariant
            i <= channels@.len(),
            live@.len() == channels@.len(),
            c == channel_views(channels@),
            all == shown_channels(c, live@),
            channel_info_views(out@) == all.take(i as int),
        decreases channels@.len() - i,
    {
        let ch = &channels[i];
        assert(c[i as int] == ch@);
        let value: i32 = if same_text(ch.name.as_str(), "charge_current") || same_text(
            ch.name.as_str(),
            "backlight",
        ) {
            if live[i] > 0 {
                live[i]
            } else {
                0
            }
        } else {
            ch.value
        };
        let span: i128 = ch.max_val as i128 - ch.min_val as i128;
        let span: i128 = if span > 1 {
            span
        } else {
            1
        };
        let share: i64 = clamp_i128(
            div_trunc((value as i128 - ch.min_val as i128) * 1_000_000, span),
            0,
            1_000_000,
        ) as i64;
        let info = ChannelInfo {
            name: ch.name.clone(),
            group: ch.group,
            value,
            min: ch.min_val,
            max: ch.max_val,
            share,
        };
        let ghost before = out@;
        out.push(info);
        proof {
            assert(all[i as int] == info@);
            assert(channel_info_views(out@) =~= channel_info_views(before).push(info@));
            assert(all.take(i + 1) =~= all.take(i as int).push(info@));
        }
        i += 1;
    }
    assert(all.take(channels@.len() as int) =~= all);
    out
}

#[derive(Debug)]
pub struct NativeInfo {
    pub enabled: bool,
    pub reason: Option<String>,
    pub channels: Vec<ChannelInfo>,
}

// ---------------------------------------------------------------------------
// The snapshot
// ---------------------------------------------------------------------------

/// What the snapshot reads besides the engine. There is a reading for each
/// channel of the learning controller.
#[derive(Debug)]
pub struct SnapshotReadings {
    pub now_secs: u64,
    pub battery: BatteryReadings,
    pub cpu_load: i64,
    pub cpu_freqs: Vec<i32>,
    pub gpu_freq: i32,
    pub channels: Vec<i32>,
}

#[derive(Debug)]
pub struct WebSnapshot {
    pub ts: u64,
    pub scenario: i32,
    pub mode: String,
    pub sensors: Vec<SensorInfo>,
    pub instances: Vec<InstanceInfo>,
    pub battery: BatteryInfo,
    pub cpu_load: i64,
    pub cpu_freq_mhz: Vec<i32>,
    pub gpu_freq_mhz: i32,
    pub native: Option<NativeInfo>,
}

/// How the daemon controls the device, in a word.
pub open spec fn mode_word(d: DaemonView) -> Seq<char> {
    if d.native is Some {
        "native"@
    } else if d.ai is Some {
        "engine"@
    } else {
        "traditional"@
    }
}

/// Is a snapshot that of an engine and some readings?
pub open spec fn shows(w: WebSnapshot, d: DaemonView, r: SnapshotReadings) -> bool {
    &&& w.ts == r.now_secs
    &&& w.scenario == d.scenario
    &&& w.mode@ == mode_word(d)
    &&& sensor_info_views(w.sensors@) == shown_sensors(d.sensors, d.sensors.len() as int)
    &&& instance_info_views(w.instances@) == d.instances.map_values(
        |i: InstanceView| shown_instance(i),
    )
    &&& w.battery.temp_deci == upper_of(r.battery.temp as int, 0)
    &&& w.battery.soc == upper_of(r.battery.capacity as int, 0)
    &&& w.battery.current_ma == magnitude(r.battery.current_now as int) / 1000
    &&& w.battery.charging == is_charging(r.battery.status)
    &&& w.battery.health@ == (match r.battery.health {
        Some(h) => h@,
        None => "Unknown"@,
    })
    &&& w.cpu_load == r.cpu_load
    &&& w.cpu_freq_mhz@ == r.cpu_freqs@.map_values(
        |f: i32|
            if f > 0 {
                (f / 1000) as i32
            } else {
                0i32
            },
    )
    &&& w.gpu_freq_mhz == (if r.gpu_freq > 0 {
        r.gpu_freq as int / 1_000_000
    } else {
        0
    })
    &&& match (w.native, d.native) {
        (Some(n), Some(c)) => n.enabled == c.enabled && text_view(n.reason) == c.disabled_reason
            && channel_info_views(n.channels@) == shown_channels(c.channels, r.channels@),
        (None, None) => true,
        _ => false,
    }
}

/// The state of the daemon, as it is shown.
pub fn collect_snapshot(engine: &Engine, r: &SnapshotReadings) -> (w: WebSnapshot)
    requires
        engine@.native matches Some(c) ==> r.channels@.len() == c.channels.len(),
    ensures
        shows(w, engine@, *r),
{
    let mode = if engine.native_controller.is_some() {
        "native".to_string()
    } else if engine.ai_engine.is_some() {
        "engine".to_string()
    } else {
        "traditional".to_string()
    };
    let mut cpu_freq_mhz: Vec<i32> = Vec::new();
    let ghost all = r.cpu_freqs@.map_values(
        |f: i32|
            if f > 0 {
                (f / 1000) as i32
            } else {
                0i32
            },
    );
    let mut i: usize = 0;
    assert(cpu_freq_mhz@ =~= all.take(0));
    while i < r.cpu_freqs.len()
        invariant
            i <= r.cpu_freqs@.len(),
            all == r.cpu_freqs@.map_values(
                |f: i32|
                    if f > 0 {
                        (f / 1000) as i32
                    } else {
                        0i32
                    },
            ),
            cpu_freq_mhz@ == all.take(i as int),
        decreases r.cpu_freqs@.len() - i,
    {
        cpu_freq_mhz.push(scaled_freq(r.cpu_freqs[i], 1000));
        assert(cpu_freq_mhz@ =~= all.take(i + 1));
        i += 1;
    }
    assert(all.take(r.cpu_freqs@.len() as int) =~= all);
    let native = match &engine.native_controller {
        Some(nc) => Some(
            NativeInfo {
                enabled: nc.is_enabled(),
                reason: nc.disabled_reason(),
                channels: show_channels(&nc.channels, &r.channels),
            },
        ),
        None => None,
    };
    WebSnapshot {
        ts: r.now_secs,
        scenario: engine.current_scenario_idx,
        mode,
        sensors: show_sensors(&engine.sensors),
        instances: show_instances(&engine.instances),
        battery: battery_info(&r.battery),
        cpu_load: r.cpu_load,
        cpu_freq_mhz,
        gpu_freq_mhz: scaled_freq(r.gpu_freq, 1_000_000),
        native,
    }
}


// ---------------------------------------------------------------------------
// Laws
// ---------------------------------------------------------------------------

/// The snapshot has one address and the dashboard two; nothing else is found.
pub proof fn law_routes(url: Seq<char>)
    ensures
        route_of("/api/snapshot"@) == Route::Snapshot,
        route_of("/"@) == Route::Dashboard,
        route_of("/index.html"@) == Route::Dashboard,
        url != "/api/snapshot"@ && url != "/"@ && url != "/index.html"@ ==> route_of(url)
            == Route::NotFound,
{
    reveal_strlit("/api/snapshot");
    reveal_strlit("/");
    reveal_strlit("/index.html");
    assert("/api/snapshot"@.len() == 13 && "/"@.len() == 1 && "/index.html"@.len() == 11);
}

/// A setting that is a number of 16 bits is the port; without one it is 8080.
pub proof fn law_ports(s: &str, n: u16)
    ensures
        unsigned_of(s@, 65_535) == Some(n as int) ==> port_of(Some(s)) == n,
        unsigned_of(s@, 65_535) is None ==> port_of(Some(s)) == 8080,
        port_of(None) == 8080,
{
}

/// A sensor is shown in the first group, in this order, that a part of its name stands for.
pub proof fn law_groups_of_sensors(name: Seq<char>)
    ensures
        ({
            let low = lowercase(name);
            let cpu = has_part(low, "cpu"@) || has_part(low, "tsens"@);
            let gpu = has_part(low, "gpu"@) || has_part(low, "kgsl"@);
            let battery = has_part(low, "battery_temp"@);
            let board = has_part(low, "board"@) || has_part(low, "skin"@);
            let charger = has_part(low, "charger"@) || has_part(low, "connector"@);
            let g = sensor_group(name);
            &&& cpu ==> g == Some("CPU"@)
            &&& gpu && !cpu ==> g == Some("GPU"@)
            &&& battery && !cpu && !gpu ==> g == Some("Battery"@)
            &&& board && !cpu && !gpu && !battery ==> g == Some("Board"@)
            &&& charger && !cpu && !gpu && !battery && !board ==> g == Some("Charger"@)
            &&& !cpu && !gpu && !battery && !board && !charger ==> g is None
        }),
{
}

/// Of the sensors those are shown that measure a temperature, in their order, with their
/// names, last temperatures and groups.
pub proof fn law_shown_sensors_in_order(s: Seq<SensorView>, n: int)
    requires
        0 <= n < s.len(),
    ensures
        ({
            let before = shown_sensors(s, n);
            let after = shown_sensors(s, n + 1);
            let hidden = s[n].name == "battery_current"@ || s[n].name == "battery_voltage"@
                || s[n].name == "BAT_SOC"@;
            &&& hidden ==> after == before
            &&& !hidden ==> {
                &&& after.len() == before.len() + 1
                &&& after.take(before.len() as int) == before
                &&& after.last().name == s[n].name
                &&& after.last().mc == s[n].last_temp_mc
                &&& after.last().grp == sensor_group(s[n].name)
            }
        }),
        shown_sensors(s, 0).len() == 0,
{
    let before = shown_sensors(s, n);
    let after = shown_sensors(s, n + 1);
    if after.len() > before.len() {
        assert(after.take(before.len() as int) =~= before);
    }
}

/// A channel is shown with its last written value, but for the charge current and the
/// backlight, which are read.
pub proof fn law_shown_channels(c: Seq<ChannelView>, live: Seq<i32>, i: int)
    requires
        0 <= i < c.len(),
    ensures
        shown_channels(c, live).len() == c.len(),
        ({
            let x = shown_channels(c, live)[i];
            let read = c[i].name == "charge_current"@ || c[i].name == "backlight"@;
            &&& x.name == c[i].name && x.group == c[i].group
            &&& x.min == c[i].min_val && x.max == c[i].max_val
            &&& !read ==> x.value == c[i].value
            &&& read && live[i] >= 0 ==> x.value == live[i]
            &&& read && live[i] < 0 ==> x.value == 0
        }),
{
}

/// The position of a value within its range is its distance from the lower end as a part of
/// the range, in millionths and rounded down; beyond the ends it is that of the end.
pub proof fn law_position_in_the_range(value: int, min: int, max: int)
    requires
        min < max,
    ensures
        ({
            let share = range_share(value, min, max);
            &&& min <= value <= max ==> (max - min) * share <= (value - min) * 1_000_000 < (max
                - min) * share + (max - min)
            &&& value <= min ==> share == 0
            &&& value >= max ==> share == 1_000_000
        }),
{
    let d = max - min;
    let x = (value - min) * 1_000_000;
    let q = trunc_div(x, d);
    crate::arith::law_truncation(x, d);
    if min <= value <= max {
        assert(0 <= q <= 1_000_000) by (nonlinear_arith)
            requires
                d > 0,
                0 <= d * q <= x,
                x <= d * 1_000_000,
        ;
    } else if value <= min {
        assert(q <= 0) by (nonlinear_arith)
            requires
                d > 0,
                d * q <= 0,
        ;
    }
    if value >= max {
        assert(q >= 1_000_000) by (nonlinear_arith)
            requires
                d > 0,
                x < d * q + d,
                x >= d * 1_000_000,
        ;
    }
}

/// A snapshot shows the scenario, the mode, every instance, the battery with no negative
/// numbers and its current in milliamperes without a sign, and frequencies in megahertz.
pub proof fn law_snapshot(w: WebSnapshot, d: DaemonView, r: SnapshotReadings, i: int)
    requires
        shows(w, d, r),
    ensures
        w.ts == r.now_secs && w.scenario == d.scenario && w.cpu_load == r.cpu_load,
        d.native is Some ==> w.mode@ == "native"@,
        d.native is None && d.ai is Some ==> w.mode@ == "engine"@,
        d.native is None && d.ai is None ==> w.mode@ == "traditional"@,
        w.instances@.len() == d.instances.len(),
        0 <= i < d.instances.len() ==> w.instances@[i].name@ == d.instances[i].name
            && w.instances@[i].algo == d.instances[i].algo && w.instances@[i].level
            == d.instances[i].current_level,
        r.battery.temp >= 0 ==> w.battery.temp_deci == r.battery.temp,
        r.battery.temp < 0 ==> w.battery.temp_deci == 0,
        r.battery.capacity >= 0 ==> w.battery.soc == r.battery.capacity,
        r.battery.capacity < 0 ==> w.battery.soc == 0,
        r.battery.current_now >= 0 ==> 1000 * w.battery.current_ma <= r.battery.current_now < 1000
            * w.battery.current_ma + 1000,
        r.battery.current_now <= 0 ==> 1000 * w.battery.current_ma <= -r.battery.current_now
            < 1000 * w.battery.current_ma + 1000,
        w.battery.charging == is_charging(r.battery.status),
        r.battery.health is Some ==> w.battery.health@ == r.battery.health->0@,
        r.battery.health is None ==> w.battery.health@ == "Unknown"@,
        w.cpu_freq_mhz@.len() == r.cpu_freqs@.len(),
        0 <= i < r.cpu_freqs@.len() && r.cpu_freqs@[i] > 0 ==> 1000 * w.cpu_freq_mhz@[i]
            <= r.cpu_freqs@[i] < 1000 * w.cpu_freq_mhz@[i] + 1000,
        0 <= i < r.cpu_freqs@.len() && r.cpu_freqs@[i] <= 0 ==> w.cpu_freq_mhz@[i] == 0,
        r.gpu_freq > 0 ==> 1_000_000 * w.gpu_freq_mhz <= r.gpu_freq < 1_000_000 * w.gpu_freq_mhz
            + 1_000_000,
        r.gpu_freq <= 0 ==> w.gpu_freq_mhz == 0,
        w.native is Some <==> d.native is Some,
        d.native is Some ==> w.native->0.enabled == d.native->0.enabled,
{
    let shown = instance_info_views(w.instances@);
    assert(shown.len() == w.instances@.len());
    if 0 <= i < d.instances.len() {
        assert(shown[i] == w.instances@[i]@);
        assert(shown[i] == shown_instance(d.instances[i]));
    }
}

} // verus!
