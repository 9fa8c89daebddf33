//! Feature extraction: sensor and device readings become a state vector of
//! integer millionths.

use vstd::prelude::*;

use crate::ai::ONE;
use crate::arith::{clamp_i128, clamp_i64, div_trunc};
#[allow(unused_imports)]
use crate::arith::{clamped, magnitude, trunc_div, upper_of};
use crate::text::{chars_of, contains, lines_of, parse_unsigned, spells, words_of};
#[allow(unused_imports)]
use crate::text::{decimal, has_part, lemma_decimal, lines, unsigned_of, views, words};
use crate::types::{Instance, Sensor};
#[allow(unused_imports)]
use crate::types::{sensor_views, SensorView};

verus! {

/// The state of the device, in 34 dimensions.
#[derive(Debug, Clone, Copy, PartialEq, Eq, Structural)]
pub struct StateVector {
    /// Temperatures, one being 100 degrees.
    pub t_cpu_max: i64,
    pub t_cpu_avg: i64,
    pub t_board_max: i64,
    pub t_battery: i64,
    pub t_ambient: i64,
    /// Temperature changes since the last tick.
    pub dt_cpu: i64,
    pub dt_board: i64,
    pub dt_battery: i64,
    /// Device context.
    pub battery_soc: i64,
    pub is_charging: i64,
    pub screen_on: i64,
    pub time_of_day: i64,
    /// The level of the configured controller, as a share of its levels.
    pub thermal_level_traditional: i64,
    /// Averages over the last ten ticks.
    pub t_cpu_ma_10: i64,
    pub t_board_ma_10: i64,
    pub thermal_level_ma_10: i64,
    /// Current frequency as a share of the maximum.
    pub cpu_freq_ratio: i64,
    /// Distance to the throttling temperatures.
    pub temp_headroom_cpu: i64,
    pub temp_headroom_battery: i64,
    /// Spread of the temperatures.
    pub temp_variance: i64,
    /// Action history.
    pub last_action: i64,
    pub action_stability: i64,
    /// More temperatures.
    pub t_gpu: i64,
    pub t_charger: i64,
    /// Battery current as a share of six amperes.
    pub battery_current: i64,
    /// Processor utilisation.
    pub cpu_load: i64,
    /// Position of the workload between idle and benchmark.
    pub workload_mode: i64,
    /// Action history of each channel group.
    pub last_action_compute: i64,
    pub last_action_thermal: i64,
    pub last_action_charging: i64,
    pub last_action_display: i64,
    /// Readings of single channels.
    pub gpu_freq_ratio: i64,
    pub brightness_ratio: i64,
    pub charge_current_ratio: i64,
}

/// The dimensions of a state, in order.
pub open spec fn state_array(s: StateVector) -> Seq<i64> {
    seq![
        s.t_cpu_max,
        s.t_cpu_avg,
        s.t_board_max,
        s.t_battery,
        s.t_ambient,
        s.dt_cpu,
        s.dt_board,
        s.dt_battery,
        s.battery_soc,
        s.is_charging,
        s.screen_on,
        s.time_of_day,
        s.thermal_level_traditional,
        s.t_cpu_ma_10,
        s.t_board_ma_10,
        s.thermal_level_ma_10,
        s.cpu_freq_ratio,
        s.temp_headroom_cpu,
        s.temp_headroom_battery,
        s.temp_variance,
        s.last_action,
        s.action_stability,
        s.t_gpu,
        s.t_charger,
        s.battery_current,
        s.cpu_load,
        s.workload_mode,
        s.last_action_compute,
        s.last_action_thermal,
        s.last_action_charging,
        s.last_action_display,
        s.gpu_freq_ratio,
        s.brightness_ratio,
        s.charge_current_ratio,
    ]
}

// ---------------------------------------------------------------------------
// Temperatures
// ---------------------------------------------------------------------------

#[derive(Debug, Clone, Copy, PartialEq, Eq, Structural)]
pub enum SensorKind {
    Cpu,
    Board,
    Battery,
    Ambient,
    Gpu,
    Charger,
    Other,
}

/// What a sensor measures, by its name. The battery sensors are matched by
/// their whole name, since other battery readings are no temperatures.
pub open spec fn kind_of(name: Seq<char>) -> SensorKind {
    if has_part(name, "cpu"@) || has_part(name, "tsens"@) {
        SensorKind::Cpu
    } else if has_part(name, "board"@) {
        SensorKind::Board
    } else if name == "battery"@ || name == "battery_temp"@ {
        SensorKind::Battery
    } else if has_part(name, "ambient"@) {
        SensorKind::Ambient
    } else if has_part(name, "gpu"@) || has_part(name, "kgsl"@) {
        SensorKind::Gpu
    } else if has_part(name, "charger"@) {
        SensorKind::Charger
    } else {
        SensorKind::Other
    }
}

/// A temperature in thousandths of a degree as a share of 100 degrees.
pub open spec fn normal_temp(mc: i32) -> int {
    clamped(mc * 10, 0, 1_000_000)
}

/// The highest temperature of a kind among the first `n` sensors, at least 0.
pub open spec fn hottest(s: Seq<SensorView>, kind: SensorKind, n: int) -> int
    decreases n,
{
    if n <= 0 {
        0
    } else if kind_of(s[n - 1].name) == kind {
        upper_of(hottest(s, kind, n - 1), normal_temp(s[n - 1].last_temp_mc))
    } else {
        hottest(s, kind, n - 1)
    }
}

/// The number of sensors of a kind among the first `n`.
pub open spec fn number_of(s: Seq<SensorView>, kind: SensorKind, n: int) -> int
    decreases n,
{
    if n <= 0 {
        0
    } else {
        number_of(s, kind, n - 1) + if kind_of(s[n - 1].name) == kind {
            1int
        } else {
            0
        }
    }
}

/// The sum of the temperatures of a kind among the first `n` sensors.
pub open spec fn total_of(s: Seq<SensorView>, kind: SensorKind, n: int) -> int
    decreases n,
{
    if n <= 0 {
        0
    } else {
        total_of(s, kind, n - 1) + if kind_of(s[n - 1].name) == kind {
            normal_temp(s[n - 1].last_temp_mc)
        } else {
            0
        }
    }
}

/// The temperature of the last sensor of a kind among the first `n`, or 0.
pub open spec fn latest(s: Seq<SensorView>, kind: SensorKind, n: int) -> int
    decreases n,
{
    if n <= 0 {
        0
    } else if kind_of(s[n - 1].name) == kind {
        normal_temp(s[n - 1].last_temp_mc)
    } else {
        latest(s, kind, n - 1)
    }
}

/// The mean temperature of a kind, rounded down, or 0.
pub open spec fn mean_of(s: Seq<SensorView>, kind: SensorKind) -> int {
    let n = number_of(s, kind, s.len() as int);
    if n > 0 {
        total_of(s, kind, s.len() as int) / n
    } else {
        0
    }
}

struct Temperatures {
    cpu_max: i64,
    cpu_avg: i64,
    board_max: i64,
    battery: i64,
    ambient: i64,
    gpu: i64,
    charger: i64,
}

fn classify(name: &Vec<char>) -> (r: SensorKind)
    ensures
        r == kind_of(name@),
{
    if contains(name, "cpu") || contains(name, "tsens") {
        SensorKind::Cpu
    } else if contains(name, "board") {
        SensorKind::Board
    } else if spells(name, "battery") || spells(name, "battery_temp") {
        SensorKind::Battery
    } else if contains(name, "ambient") {
        SensorKind::Ambient
    } else if contains(name, "gpu") || contains(name, "kgsl") {
        SensorKind::Gpu
    } else if contains(name, "charger") {
        SensorKind::Charger
    } else {
        SensorKind::Other
    }
}

fn extract_temperatures(sensors: &Vec<Sensor>) -> (r: Temperatures)
    requires
        sensors@.len() <= MAX_SENSOR_COUNT,
    ensures
        ({
            let s = sensor_views(sensors@);
            let n = s.len() as int;
            &&& r.cpu_max == hottest(s, SensorKind::Cpu, n)
            &&& r.cpu_avg == mean_of(s, SensorKind::Cpu)
            &&& r.board_max == hottest(s, SensorKind::Board, n)
            &&& r.battery == latest(s, SensorKind::Battery, n)
            &&& r.ambient == latest(s, SensorKind::Ambient, n)
            &&& r.gpu == latest(s, SensorKind::Gpu, n)
            &&& r.charger == latest(s, SensorKind::Charger, n)
        }),
        0 <= r.cpu_max <= ONE,
        0 <= r.cpu_avg <= ONE,
        0 <= r.board_max <= ONE,
        0 <= r.battery <= ONE,
{
    let ghost s = sensor_views(sensors@);
    let mut cpu_max: i64 = 0;
    let mut cpu_sum: u64 = 0;
    let mut cpu_count: u64 = 0;
    let mut board_max: i64 = 0;
    let mut battery: i64 = 0;
    let mut ambient: i64 = 0;
    let mut gpu: i64 = 0;
    let mut charger: i64 = 0;
    let mut i: usize = 0;
    while i < sensors.len()
        invariant
            i <= sensors@.len() <= MAX_SENSOR_COUNT,
            s == sensor_views(sensors@),
            cpu_max == hottest(s, SensorKind::Cpu, i as int),
            cpu_sum == total_of(s, SensorKind::Cpu, i as int),
            cpu_count == number_of(s, SensorKind::Cpu, i as int),
            cpu_count <= i,
            cpu_sum <= cpu_count * 1_000_000,
            board_max == hottest(s, SensorKind::Board, i as int),
            battery == latest(s, SensorKind::Battery, i as int),
            ambient == latest(s, SensorKind::Ambient, i as int),
            gpu == latest(s, SensorKind::Gpu, i as int),
            charger == latest(s, SensorKind::Charger, i as int),
            0 <= cpu_max <= ONE,
            0 <= board_max <= ONE,
            0 <= battery <= ONE,
        decreases sensors@.len() - i,
    {
        let temp: i64 = clamp_i64(sensors[i].last_temp_mc as i64 * 10, 0, ONE);
        let name = chars_of(sensors[i].name.as_str());
        assert(s[i as int] == sensors@[i as int]@);
        match classify(&name) {
            SensorKind::Cpu => {
                if temp > cpu_max {
                    cpu_max = temp;
                }
                cpu_sum = cpu_sum + temp as u64;
                cpu_count = cpu_count + 1;
            },
            SensorKind::Board => {
                if temp > board_max {
                    board_max = temp;
                }
            },
            SensorKind::Battery => {
                battery = temp;
            },
            SensorKind::Ambient => {
                ambient = temp;
            },
            SensorKind::Gpu => {
                gpu = temp;
            },
            SensorKind::Charger => {
                charger = temp;
            },
            SensorKind::Other => {},
        }
        i += 1;
    }
    let cpu_avg: i64 = if cpu_count > 0 {
        proof {
            assert(0 <= cpu_sum / cpu_count <= 1_000_000) by (nonlinear_arith)
                requires
                    cpu_count > 0,
                    cpu_sum <= cpu_count * 1_000_000,
            ;
        }
        (cpu_sum / cpu_count) as i64
    } else {
        0
    };
    Temperatures { cpu_max, cpu_avg, board_max, battery, ambient, gpu, charger }
}

// ---------------------------------------------------------------------------
// Battery
// ---------------------------------------------------------------------------

pub open spec fn is_current_name(name: Seq<char>) -> bool {
    name != "BAT_SOC"@ && has_part(name, "battery_current"@)
}

/// The state of charge of the last sensor that tells it, or one half.
pub open spec fn charge_level(s: Seq<SensorView>, n: int) -> int
    decreases n,
{
    if n <= 0 {
        500_000
    } else if s[n - 1].name == "BAT_SOC"@ {
        clamped(s[n - 1].last_temp_mc * 10_000, 0, 1_000_000)
    } else {
        charge_level(s, n - 1)
    }
}

/// The last reading of the battery current, in millionths of an ampere, or 0.
/// It is negative while the battery charges.
pub open spec fn current_reading(s: Seq<SensorView>, n: int) -> int
    decreases n,
{
    if n <= 0 {
        0
    } else if is_current_name(s[n - 1].name) {
        s[n - 1].last_temp_mc as int
    } else {
        current_reading(s, n - 1)
    }
}

/// The magnitude of a current as a share of six amperes.
pub open spec fn current_share(value: int) -> int {
    clamped(magnitude(value) / 6, 0, 1_000_000)
}

/// State of charge, whether the battery charges, and the size of its current.
fn extract_battery_info(sensors: &Vec<Sensor>) -> (r: (i64, bool, i64))
    ensures
        r.0 == charge_level(sensor_views(sensors@), sensors@.len() as int),
        r.1 == (current_reading(sensor_views(sensors@), sensors@.len() as int) < 0),
        r.2 == current_share(current_reading(sensor_views(sensors@), sensors@.len() as int)),
{
    let ghost s = sensor_views(sensors@);
    let mut soc: i64 = 500_000;
    let mut current: i64 = 0;
    let mut i: usize = 0;
    while i < sensors.len()
        invariant
            i <= sensors@.len(),
            s == sensor_views(sensors@),
            soc == charge_level(s, i as int),
            current == current_reading(s, i as int),
            i32::MIN <= current <= i32::MAX,
        decreases sensors@.len() - i,
    {
        let value: i64 = sensors[i].last_temp_mc as i64;
        let name = chars_of(sensors[i].name.as_str());
        assert(s[i as int] == sensors@[i as int]@);
        if spells(&name, "BAT_SOC") {
            soc = clamp_i64(value * 10_000, 0, ONE);
        } else if contains(&name, "battery_current") {
            current = value;
        }
        i += 1;
    }
    let size: i64 = if current < 0 {
        -current
    } else {
        current
    };
    (soc, current < 0, clamp_i64(size / 6, 0, ONE))
}

// ---------------------------------------------------------------------------
// Spread
// ---------------------------------------------------------------------------

/// More sensors than this are not expected.
pub const MAX_SENSOR_COUNT: usize = 0x100_0000;

/// Is the reading of a sensor a temperature?
pub open spec fn is_temperature(name: Seq<char>) -> bool {
    name != "battery_current"@ && name != "battery_voltage"@ && name != "BAT_SOC"@
}

pub open spec fn temp_count(s: Seq<SensorView>, n: int) -> int
    decreases n,
{
    if n <= 0 {
        0
    } else {
        temp_count(s, n - 1) + if is_temperature(s[n - 1].name) {
            1int
        } else {
            0
        }
    }
}

pub open spec fn temp_sum(s: Seq<SensorView>, n: int) -> int
    decreases n,
{
    if n <= 0 {
        0
    } else {
        temp_sum(s, n - 1) + if is_temperature(s[n - 1].name) {
            s[n - 1].last_temp_mc as int
        } else {
            0
        }
    }
}

pub open spec fn temp_squares(s: Seq<SensorView>, n: int) -> int
    decreases n,
{
    if n <= 0 {
        0
    } else {
        temp_squares(s, n - 1) + if is_temperature(s[n - 1].name) {
            s[n - 1].last_temp_mc * s[n - 1].last_temp_mc
        } else {
            0
        }
    }
}

/// The greatest number up to `cap` whose square is at most `x`, or 0.
pub open spec fn capped_root(x: int, cap: int) -> int
    decreases cap,
{
    if cap <= 0 {
        0
    } else if cap * cap <= x {
        cap
    } else {
        capped_root(x, cap - 1)
    }
}

/// The standard deviation of the temperatures as a share of 20 degrees, in steps
/// of a tenth of a thousandth of a degree.
pub open spec fn spread(s: Seq<SensorView>) -> int {
    let n = temp_count(s, s.len() as int);
    let sum = temp_sum(s, s.len() as int);
    let squares = temp_squares(s, s.len() as int);
    if n == 0 {
        0
    } else {
        5 * capped_root(100 * (n * squares - sum * sum) / (n * n), 200_000)
    }
}

proof fn lemma_capped_root(x: int, cap: int, r: int)
    requires
        0 <= r <= cap,
        r == 0 || r * r <= x,
        r < cap ==> (r + 1) * (r + 1) > x,
    ensures
        capped_root(x, cap) == r,
    decreases cap,
{
    if cap > 0 && r < cap {
        assert((r + 1) * (r + 1) <= cap * cap) by (nonlinear_arith)
            requires
                0 <= r < cap,
        ;
        lemma_capped_root(x, cap - 1, r);
    }
}

fn root_up_to(x: i128, cap: i64) -> (r: i64)
    requires
        0 <= cap <= 1_000_000,
    ensures
        r == capped_root(x as int, cap as int),
        0 <= r <= cap,
{
    let mut lo: i64 = 0;
    let mut hi: i64 = cap;
    while lo < hi
        invariant
            0 <= lo <= hi <= cap <= 1_000_000,
            lo == 0 || lo * lo <= x,
            hi < cap ==> (hi + 1) * (hi + 1) > x,
        decreases hi - lo,
    {
        let mid: i64 = (lo + hi + 1) / 2;
        proof {
            assert(0 <= mid * mid <= 1_000_000 * 1_000_000) by (nonlinear_arith)
                requires
                    0 <= mid <= 1_000_000,
            ;
        }
        if (mid * mid) as i128 <= x {
            lo = mid;
        } else {
            hi = mid - 1;
            assert((hi + 1) * (hi + 1) > x);
        }
    }
    proof {
        lemma_capped_root(x as int, cap as int, lo as int);
    }
    lo
}

fn compute_temp_variance(sensors: &Vec<Sensor>) -> (r: i64)
    requires
        sensors@.len() <= MAX_SENSOR_COUNT,
    ensures
        r == spread(sensor_views(sensors@)),
        0 <= r <= ONE,
{
    let ghost s = sensor_views(sensors@);
    let mut n: i128 = 0;
    let mut sum: i128 = 0;
    let mut squares: i128 = 0;
    let mut i: usize = 0;
    while i < sensors.len()
        invariant
            i <= sensors@.len() <= MAX_SENSOR_COUNT,
            s == sensor_views(sensors@),
            n == temp_count(s, i as int),
            sum == temp_sum(s, i as int),
            squares == temp_squares(s, i as int),
            0 <= n <= i,
            -0x8000_0000 * i <= sum <= 0x8000_0000 * i,
            0 <= squares <= 0x4000_0000_0000_0000 * i,
        decreases sensors@.len() - i,
    {
        let name = chars_of(sensors[i].name.as_str());
        let value: i64 = sensors[i].last_temp_mc as i64;
        assert(s[i as int] == sensors@[i as int]@);
        if !spells(&name, "battery_current") && !spells(&name, "battery_voltage") && !spells(
            &name,
            "BAT_SOC",
        ) {
            proof {
                assert(0 <= value * value <= 0x4000_0000_0000_0000) by (nonlinear_arith)
                    requires
                        -0x8000_0000 <= value <= 0x7fff_ffff,
                ;
            }
            n = n + 1;
            sum = sum + value as i128;
            squares = squares + (value * value) as i128;
        }
        i += 1;
    }
    if n == 0 {
        return 0;
    }
    proof {
        assert(0 <= n * squares <= 0x4000_0000_0000_0000_0000_0000_0000) by (nonlinear_arith)
            requires
                0 <= n <= 0x100_0000,
                0 <= squares <= 0x40_0000_0000_0000_0000_0000,
        ;
        assert(0 <= sum * sum <= 0x4000_0000_0000_0000_0000_0000_0000) by (nonlinear_arith)
            requires
                -0x80_0000_0000_0000 <= sum <= 0x80_0000_0000_0000,
        ;
        assert(1 <= n * n <= 0x100_0000 * 0x100_0000) by (nonlinear_arith)
            requires
                1 <= n <= 0x100_0000,
        ;
    }
    let scaled: i128 = 100 * (n * squares - sum * sum);
    let square: i128 = n * n;
    let x: i128 = if scaled >= 0 {
        (scaled as u128 / (square as u128)) as i128
    } else {
        -1
    };
    proof {
        if scaled < 0 {
            assert((scaled as int) / (square as int) < 0) by (nonlinear_arith)
                requires
                    scaled < 0,
                    square > 0,
            ;
            lemma_capped_root((scaled as int) / (square as int), 200_000, 0);
            lemma_capped_root(-1, 200_000, 0);
        }
    }
    5 * root_up_to(x, 200_000)
}

// ---------------------------------------------------------------------------
// Processor load and frequency
// ---------------------------------------------------------------------------

/// The idle and total time in the statistics of the processor.
#[derive(Debug, Clone, Copy, PartialEq, Eq, Structural)]
pub struct CpuTimes {
    pub idle: u64,
    pub total: u64,
}

/// A counter in the statistics; what is no number counts 0.
pub open spec fn counter(w: Seq<char>) -> u64 {
    match unsigned_of(w, u64::MAX as int) {
        Some(n) => n as u64,
        None => 0,
    }
}

/// The times in the first line of the statistics, if it has as many columns.
pub open spec fn cpu_times(stat: Seq<char>) -> Option<CpuTimes> {
    if lines(stat).len() == 0 {
        None
    } else {
        let w = words(lines(stat)[0]);
        if w.len() < 5 {
            None
        } else {
            Some(
                CpuTimes {
                    idle: counter(w[4]),
                    total: (counter(w[1]) + counter(w[2]) + counter(w[3]) + counter(w[4])) as u64,
                },
            )
        }
    }
}

/// The share of the time between two readings that was not idle.
pub open spec fn load_between(prev: CpuTimes, now: CpuTimes) -> int {
    if prev.total == 0 || now.total <= prev.total {
        0
    } else {
        let idle = (now.idle - prev.idle) as u64;
        clamped(1_000_000 - idle * 1_000_000 / (now.total - prev.total), 0, 1_000_000)
    }
}

fn counter_of(w: &Vec<char>) -> (r: u64)
    ensures
        r == counter(w@),
{
    match parse_unsigned(w, u64::MAX) {
        Some(n) => n,
        None => 0,
    }
}

/// The times in the processor statistics.
pub fn parse_cpu_times(stat: &str) -> (r: Option<CpuTimes>)
    ensures
        r == cpu_times(stat@),
{
    let ls = lines_of(&chars_of(stat));
    assert(views(ls@).len() == ls@.len());
    if ls.len() == 0 {
        return None;
    }
    assert(views(ls@)[0] == ls@[0]@);
    let w = words_of(&ls[0]);
    assert(views(w@).len() == w@.len());
    if w.len() < 5 {
        return None;
    }
    assert(views(w@)[1] == w@[1]@ && views(w@)[2] == w@[2]@);
    assert(views(w@)[3] == w@[3]@ && views(w@)[4] == w@[4]@);
    let idle: u64 = counter_of(&w[4]);
    let sum: u128 = counter_of(&w[1]) as u128 + counter_of(&w[2]) as u128 + counter_of(&w[3])
        as u128 + idle as u128;
    let total: u64 = #[verifier::truncate] (sum as u64);
    Some(CpuTimes { idle, total })
}

pub(crate) fn load_of(prev: CpuTimes, now: CpuTimes) -> (r: i64)
    ensures
        r == load_between(prev, now),
        0 <= r <= ONE,
{
    if prev.total == 0 || now.total <= prev.total {
        return 0;
    }
    let diff: i128 = now.idle as i128 - prev.idle as i128;
    let idle: u64 = #[verifier::truncate] (diff as u64);
    let share: u128 = (idle as u128 * 1_000_000) / ((now.total - prev.total) as u128);
    proof {
        assert(0 <= share <= idle * 1_000_000) by (nonlinear_arith)
            requires
                share == (idle * 1_000_000) / (now.total - prev.total),
                now.total - prev.total >= 1,
                idle >= 0,
        ;
    }
    clamp_i128(1_000_000 - share as i128, 0, 1_000_000) as i64
}

/// The sum of the frequency ratios of the first `n` policies that tell theirs.
pub open spec fn ratio_sum(f: Seq<(i32, i32)>, n: int) -> int
    decreases n,
{
    if n <= 0 {
        0
    } else {
        ratio_sum(f, n - 1) + if f[n - 1].0 > 0 && f[n - 1].1 > 0 {
            f[n - 1].0 * 1_000_000 / (f[n - 1].1 as int)
        } else {
            0
        }
    }
}

pub open spec fn ratio_count(f: Seq<(i32, i32)>, n: int) -> int
    decreases n,
{
    if n <= 0 {
        0
    } else {
        ratio_count(f, n - 1) + if f[n - 1].0 > 0 && f[n - 1].1 > 0 {
            1int
        } else {
            0
        }
    }
}

/// The mean ratio of current and maximum frequency, or 80% where none is known.
pub open spec fn mean_frequency(f: Seq<(i32, i32)>) -> int {
    let n = ratio_count(f, f.len() as int);
    if n > 0 {
        ratio_sum(f, f.len() as int) / n
    } else {
        800_000
    }
}

fn read_avg_cpu_freq(f: &Vec<(i32, i32)>) -> (r: i64)
    ensures
        r == mean_frequency(f@),
        0 <= r <= 2_147_483_648_000_000,
{
    let mut sum: u128 = 0;
    let mut count: u128 = 0;
    let mut i: usize = 0;
    while i < f.len()
        invariant
            i <= f@.len(),
            sum == ratio_sum(f@, i as int),
            count == ratio_count(f@, i as int),
            count <= i,
            sum <= count * 2_147_483_648_000_000,
        decreases f@.len() - i,
    {
        let cur: i32 = f[i].0;
        let max: i32 = f[i].1;
        if cur > 0 && max > 0 {
            let ratio: u64 = (cur as u64 * 1_000_000) / (max as u64);
            proof {
                assert(ratio <= cur * 1_000_000) by (nonlinear_arith)
                    requires
                        ratio == (cur * 1_000_000) / (max as int),
                        max > 0,
                        cur > 0,
                ;
            }
            sum = sum + ratio as u128;
            count = count + 1;
        }
        i += 1;
    }
    if count > 0 {
        proof {
            assert(0 <= sum / count <= 2_147_483_648_000_000) by (nonlinear_arith)
                requires
                    count > 0,
                    sum <= count * 2_147_483_648_000_000,
            ;
        }
        (sum / count) as i64
    } else {
        800_000
    }
}

/// The share of the day that has passed, in whole hours.
pub open spec fn day_share(now_secs: u64) -> int {
    (now_secs as int / 3600) % 24 * 1_000_000 / 24
}

fn get_time_of_day(now_secs: u64) -> (r: i64)
    ensures
        r == day_share(now_secs),
{
    let hour: u64 = (now_secs / 3600) % 24;
    (hour * 1_000_000 / 24) as i64
}

// ---------------------------------------------------------------------------
// Extraction
// ---------------------------------------------------------------------------

pub const HISTORY_SIZE: usize = 10;

/// What the device tells besides its sensors: the processor statistics, the
/// current and maximum frequency of each policy, and the time in seconds.
#[derive(Debug)]
pub struct DeviceReadings {
    pub proc_stat: Option<String>,
    pub cpu_freqs: Vec<(i32, i32)>,
    pub now_secs: u64,
}

pub struct DeviceView {
    pub times: Option<CpuTimes>,
    pub cpu_freqs: Seq<(i32, i32)>,
    pub now_secs: u64,
}

impl View for DeviceReadings {
    type V = DeviceView;

    open spec fn view(&self) -> DeviceView {
        DeviceView {
            times: match self.proc_stat {
                Some(s) => cpu_times(s@),
                None => None,
            },
            cpu_freqs: self.cpu_freqs@,
            now_secs: self.now_secs,
        }
    }
}

/// Derives states, and keeps the history that averages and derivatives need.
#[derive(Debug)]
pub struct FeatureExtractor {
    pub cpu_temp_history: Vec<i64>,
    pub board_temp_history: Vec<i64>,
    pub level_history: Vec<i32>,
    pub prev_cpu_temp: i64,
    pub prev_board_temp: i64,
    pub prev_battery_temp: i64,
    pub prev_cpu_idle: u64,
    pub prev_cpu_total: u64,
}

pub struct ExtractorView {
    pub cpu_temp_history: Seq<i64>,
    pub board_temp_history: Seq<i64>,
    pub level_history: Seq<i32>,
    pub prev_cpu_temp: i64,
    pub prev_board_temp: i64,
    pub prev_battery_temp: i64,
    pub prev_cpu_idle: u64,
    pub prev_cpu_total: u64,
}

impl View for FeatureExtractor {
    type V = ExtractorView;

    open spec fn view(&self) -> ExtractorView {
        ExtractorView {
            cpu_temp_history: self.cpu_temp_history@,
            board_temp_history: self.board_temp_history@,
            level_history: self.level_history@,
            prev_cpu_temp: self.prev_cpu_temp,
            prev_board_temp: self.prev_board_temp,
            prev_battery_temp: self.prev_battery_temp,
            prev_cpu_idle: self.prev_cpu_idle,
            prev_cpu_total: self.prev_cpu_total,
        }
    }
}

/// Every value is a share of one.
pub open spec fn all_shares(h: Seq<i64>) -> bool {
    forall|i: int| 0 <= i < h.len() ==> 0 <= #[trigger] h[i] <= ONE
}

pub open spec fn fresh_extractor() -> ExtractorView {
    ExtractorView {
        cpu_temp_history: Seq::empty(),
        board_temp_history: Seq::empty(),
        level_history: Seq::empty(),
        prev_cpu_temp: 0,
        prev_board_temp: 0,
        prev_battery_temp: 0,
        prev_cpu_idle: 0,
        prev_cpu_total: 0,
    }
}

/// A history with one more value; the oldest leaves when it is full.
pub open spec fn recent<T>(h: Seq<T>, x: T) -> Seq<T> {
    let p = h.push(x);
    if p.len() > HISTORY_SIZE {
        p.remove(0)
    } else {
        p
    }
}

/// The sum of the first `n` values.
pub open spec fn sum_of(h: Seq<i64>, n: int) -> int
    decreases n,
{
    if n <= 0 {
        0
    } else {
        sum_of(h, n - 1) + h[n - 1]
    }
}

pub open spec fn level_sum(h: Seq<i32>, n: int) -> int
    decreases n,
{
    if n <= 0 {
        0
    } else {
        level_sum(h, n - 1) + h[n - 1]
    }
}

/// The mean of a history, rounded towards zero.
pub open spec fn average(h: Seq<i64>) -> int {
    trunc_div(sum_of(h, h.len() as int), h.len() as int)
}

impl ExtractorView {
    pub open spec fn wf(self) -> bool {
        &&& self.cpu_temp_history.len() == self.board_temp_history.len()
        &&& self.cpu_temp_history.len() == self.level_history.len()
        &&& self.cpu_temp_history.len() <= HISTORY_SIZE
        &&& all_shares(self.cpu_temp_history)
        &&& all_shares(self.board_temp_history)
        &&& 0 <= self.prev_cpu_temp <= ONE
        &&& 0 <= self.prev_board_temp <= ONE
        &&& 0 <= self.prev_battery_temp <= ONE
    }

    /// The extractor after an extraction.
    pub open spec fn after(self, s: Seq<SensorView>, level: i32, device: DeviceView) -> Self {
        let n = s.len() as int;
        let cpu = hottest(s, SensorKind::Cpu, n) as i64;
        let board = hottest(s, SensorKind::Board, n) as i64;
        ExtractorView {
            cpu_temp_history: recent(self.cpu_temp_history, cpu),
            board_temp_history: recent(self.board_temp_history, board),
            level_history: recent(self.level_history, level),
            prev_cpu_temp: cpu,
            prev_board_temp: board,
            prev_battery_temp: latest(s, SensorKind::Battery, n) as i64,
            prev_cpu_idle: match device.times {
                Some(t) => t.idle,
                None => self.prev_cpu_idle,
            },
            prev_cpu_total: match device.times {
                Some(t) => t.total,
                None => self.prev_cpu_total,
            },
        }
    }

    /// The processor load since the last extraction, or 0 where it is unknown.
    pub open spec fn load(self, device: DeviceView) -> int {
        match device.times {
            Some(t) => load_between(
                CpuTimes { idle: self.prev_cpu_idle, total: self.prev_cpu_total },
                t,
            ),
            None => 0,
        }
    }

    /// The state that an extraction gives. The level is a share of `n_levels`.
    pub open spec fn state(
        self,
        s: Seq<SensorView>,
        n_levels: int,
        level: i32,
        device: DeviceView,
    ) -> StateVector {
        let n = s.len() as int;
        let cpu = hottest(s, SensorKind::Cpu, n);
        let board = hottest(s, SensorKind::Board, n);
        let battery = latest(s, SensorKind::Battery, n);
        let next = self.after(s, level, device);
        let levels = next.level_history;
        StateVector {
            t_cpu_max: cpu as i64,
            t_cpu_avg: mean_of(s, SensorKind::Cpu) as i64,
            t_board_max: board as i64,
            t_battery: battery as i64,
            t_ambient: latest(s, SensorKind::Ambient, n) as i64,
            dt_cpu: trunc_div(
                clamped(cpu - self.prev_cpu_temp, -10_000_000, 10_000_000),
                10,
            ) as i64,
            dt_board: trunc_div(
                clamped(board - self.prev_board_temp, -10_000_000, 10_000_000),
                10,
            ) as i64,
            dt_battery: trunc_div(
                clamped(battery - self.prev_battery_temp, -5_000_000, 5_000_000),
                5,
            ) as i64,
            battery_soc: charge_level(s, n) as i64,
            is_charging: if current_reading(s, n) < 0 {
                ONE
            } else {
                0
            },
            screen_on: ONE,
            time_of_day: day_share(device.now_secs) as i64,
            thermal_level_traditional: if n_levels > 0 {
                trunc_div(level * 1_000_000, n_levels) as i64
            } else {
                0
            },
            t_cpu_ma_10: average(next.cpu_temp_history) as i64,
            t_board_ma_10: average(next.board_temp_history) as i64,
            thermal_level_ma_10: trunc_div(
                level_sum(levels, levels.len() as int) * 1_000_000,
                levels.len() * upper_of(n_levels, 1),
            ) as i64,
            cpu_freq_ratio: mean_frequency(device.cpu_freqs) as i64,
            temp_headroom_cpu: clamped(trunc_div((850_000 - cpu) * 100, 85), 0, 1_000_000) as i64,
            temp_headroom_battery: clamped(
                trunc_div((450_000 - battery) * 100, 45),
                0,
                1_000_000,
            ) as i64,
            temp_variance: spread(s) as i64,
            last_action: 0,
            action_stability: 0,
            t_gpu: latest(s, SensorKind::Gpu, n) as i64,
            t_charger: latest(s, SensorKind::Charger, n) as i64,
            battery_current: current_share(current_reading(s, n)) as i64,
            cpu_load: self.load(device) as i64,
            workload_mode: 500_000,
            last_action_compute: 0,
            last_action_thermal: 0,
            last_action_charging: 0,
            last_action_display: 0,
            gpu_freq_ratio: 0,
            brightness_ratio: 0,
            charge_current_ratio: 0,
        }
    }
}

proof fn lemma_sum_bound(h: Seq<i64>, n: int)
    requires
        0 <= n <= h.len(),
        all_shares(h),
    ensures
        0 <= sum_of(h, n) <= n * 1_000_000,
    decreases n,
{
    if n > 0 {
        lemma_sum_bound(h, n - 1);
        assert(0 <= h[n - 1] <= ONE);
    }
}

/// The mean of a history of shares.
fn moving_average(h: &Vec<i64>) -> (r: i64)
    requires
        0 < h@.len() <= HISTORY_SIZE,
        all_shares(h@),
    ensures
        r == average(h@),
        0 <= r <= ONE,
{
    let mut sum: i128 = 0;
    let mut i: usize = 0;
    while i < h.len()
        invariant
            i <= h@.len() <= HISTORY_SIZE,
            all_shares(h@),
            sum == sum_of(h@, i as int),
            0 <= sum <= i * 1_000_000,
        decreases h@.len() - i,
    {
        assert(0 <= h@[i as int] <= ONE);
        sum = sum + h[i] as i128;
        i += 1;
    }
    let n: i128 = h.len() as i128;
    let r: i128 = div_trunc(sum, n);
    proof {
        assert(0 <= (sum as int) / (n as int) <= 1_000_000) by (nonlinear_arith)
            requires
                0 <= sum <= n * 1_000_000,
                n > 0,
        ;
    }
    r as i64
}

/// The mean level, as a share of the number of levels.
fn level_average(h: &Vec<i32>, n_levels: usize) -> (r: i64)
    requires
        0 < h@.len() <= HISTORY_SIZE,
    ensures
        r == trunc_div(
            level_sum(h@, h@.len() as int) * 1_000_000,
            h@.len() * upper_of(n_levels as int, 1),
        ),
{
    let mut sum: i128 = 0;
    let mut i: usize = 0;
    while i < h.len()
        invariant
            i <= h@.len() <= HISTORY_SIZE,
            sum == level_sum(h@, i as int),
            -0x8000_0000 * i <= sum <= 0x8000_0000 * i,
        decreases h@.len() - i,
    {
        sum = sum + h[i] as i128;
        i += 1;
    }
    let levels: i128 = if n_levels > 1 {
        n_levels as i128
    } else {
        1
    };
    let n: i128 = h.len() as i128;
    proof {
        assert(1 <= n * levels <= 0x10_0000_0000_0000_0000) by (nonlinear_arith)
            requires
                1 <= n <= 10,
                1 <= levels <= 0x1_0000_0000_0000_0000,
        ;
    }
    div_trunc(sum * 1_000_000, n * levels) as i64
}

impl FeatureExtractor {
    pub fn new() -> (r: Self)
        ensures
            r@ == fresh_extractor(),
            r@.wf(),
    {
        FeatureExtractor {
            cpu_temp_history: Vec::new(),
            board_temp_history: Vec::new(),
            level_history: Vec::new(),
            prev_cpu_temp: 0,
            prev_board_temp: 0,
            prev_battery_temp: 0,
            prev_cpu_idle: 0,
            prev_cpu_total: 0,
        }
    }

    /// The processor load since the last call.
    fn read_cpu_load(&mut self, device: &DeviceReadings) -> (r: i64)
        ensures
            r == old(self)@.load(device@),
            0 <= r <= ONE,
            final(self)@ == (ExtractorView {
                prev_cpu_idle: match device@.times {
                    Some(t) => t.idle,
                    None => old(self).prev_cpu_idle,
                },
                prev_cpu_total: match device@.times {
                    Some(t) => t.total,
                    None => old(self).prev_cpu_total,
                },
                ..old(self)@
            }),
    {
        let times = match &device.proc_stat {
            Some(s) => parse_cpu_times(s.as_str()),
            None => None,
        };
        match times {
            Some(t) => {
                let prev = CpuTimes { idle: self.prev_cpu_idle, total: self.prev_cpu_total };
                self.prev_cpu_idle = t.idle;
                self.prev_cpu_total = t.total;
                load_of(prev, t)
            },
            None => 0,
        }
    }

    /// Takes new temperatures and a new level into the history.
    fn remember(&mut self, cpu: i64, board: i64, level: i32)
        requires
            old(self)@.wf(),
            0 <= cpu <= ONE,
            0 <= board <= ONE,
        ensures
            final(self)@ == (ExtractorView {
                cpu_temp_history: recent(old(self)@.cpu_temp_history, cpu),
                board_temp_history: recent(old(self)@.board_temp_history, board),
                level_history: recent(old(self)@.level_history, level),
                ..old(self)@
            }),
            final(self)@.wf(),
            final(self)@.cpu_temp_history.len() > 0,
    {
        self.cpu_temp_history.push(cpu);
        self.board_temp_history.push(board);
        self.level_history.push(level);
        assert(all_shares(self.cpu_temp_history@)) by {
            assert forall|i: int| 0 <= i < self.cpu_temp_history@.len() implies 0
                <= #[trigger] self.cpu_temp_history@[i] <= ONE by {
                if i < old(self).cpu_temp_history@.len() {
                    assert(0 <= old(self).cpu_temp_history@[i] <= ONE);
                }
            }
        }
        assert(all_shares(self.board_temp_history@)) by {
            assert forall|i: int| 0 <= i < self.board_temp_history@.len() implies 0
                <= #[trigger] self.board_temp_history@[i] <= ONE by {
                if i < old(self).board_temp_history@.len() {
                    assert(0 <= old(self).board_temp_history@[i] <= ONE);
                }
            }
        }
        if self.cpu_temp_history.len() > HISTORY_SIZE {
            let ghost c = self.cpu_temp_history@;
            let ghost b = self.board_temp_history@;
            self.cpu_temp_history.remove(0);
            self.board_temp_history.remove(0);
            self.level_history.remove(0);
            assert(all_shares(self.cpu_temp_history@)) by {
                assert forall|i: int| 0 <= i < self.cpu_temp_history@.len() implies 0
                    <= #[trigger] self.cpu_temp_history@[i] <= ONE by {
                    assert(c.remove(0)[i] == c[i + 1]);
                }
            }
            assert(all_shares(self.board_temp_history@)) by {
                assert forall|i: int| 0 <= i < self.board_temp_history@.len() implies 0
                    <= #[trigger] self.board_temp_history@[i] <= ONE by {
                    assert(b.remove(0)[i] == b[i + 1]);
                }
            }
        }
    }

    /// Derives the state from the readings, and takes them into the history.
    pub fn extract(
        &mut self,
        sensors: &Vec<Sensor>,
        instance: &Instance,
        traditional_level: i32,
        device: &DeviceReadings,
    ) -> (r: StateVector)
        requires
            old(self)@.wf(),
            sensors@.len() <= MAX_SENSOR_COUNT,
        ensures
            r == old(self)@.state(
                sensor_views(sensors@),
                instance@.threshold.trig.len() as int,
                traditional_level,
                device@,
            ),
            final(self)@ == old(self)@.after(sensor_views(sensors@), traditional_level, device@),
            final(self)@.wf(),
    {
        let t = extract_temperatures(sensors);
        let dt_cpu: i64 = div_trunc(
            clamp_i64(t.cpu_max - self.prev_cpu_temp, -10_000_000, 10_000_000) as i128,
            10,
        ) as i64;
        let dt_board: i64 = div_trunc(
            clamp_i64(t.board_max - self.prev_board_temp, -10_000_000, 10_000_000) as i128,
            10,
        ) as i64;
        let dt_battery: i64 = div_trunc(
            clamp_i64(t.battery - self.prev_battery_temp, -5_000_000, 5_000_000) as i128,
            5,
        ) as i64;
        self.prev_cpu_temp = t.cpu_max;
        self.prev_board_temp = t.board_max;
        self.prev_battery_temp = t.battery;

        self.remember(t.cpu_max, t.board_max, traditional_level);
        let t_cpu_ma_10: i64 = moving_average(&self.cpu_temp_history);
        let t_board_ma_10: i64 = moving_average(&self.board_temp_history);
        let n_levels: usize = instance.threshold.n_levels();
        let thermal_level_ma_10: i64 = level_average(&self.level_history, n_levels);

        let (battery_soc, charging, battery_current) = extract_battery_info(sensors);
        let temp_headroom_cpu: i64 = clamp_i128(
            div_trunc((850_000 - t.cpu_max as i128) * 100, 85),
            0,
            1_000_000,
        ) as i64;
        let temp_headroom_battery: i64 = clamp_i128(
            div_trunc((450_000 - t.battery as i128) * 100, 45),
            0,
            1_000_000,
        ) as i64;
        let thermal_level_traditional: i64 = if n_levels > 0 {
            div_trunc(traditional_level as i128 * 1_000_000, n_levels as i128) as i64
        } else {
            0
        };
        let cpu_load: i64 = self.read_cpu_load(device);
        StateVector {
            t_cpu_max: t.cpu_max,
            t_cpu_avg: t.cpu_avg,
            t_board_max: t.board_max,
            t_battery: t.battery,
            t_ambient: t.ambient,
            dt_cpu,
            dt_board,
            dt_battery,
            battery_soc,
            is_charging: if charging {
                ONE
            } else {
                0
            },
            screen_on: ONE,
            time_of_day: get_time_of_day(device.now_secs),
            thermal_level_traditional,
            t_cpu_ma_10,
            t_board_ma_10,
            thermal_level_ma_10,
            cpu_freq_ratio: read_avg_cpu_freq(&device.cpu_freqs),
            temp_headroom_cpu,
            temp_headroom_battery,
            temp_variance: compute_temp_variance(sensors),
            last_action: 0,
            action_stability: 0,
            t_gpu: t.gpu,
            t_charger: t.charger,
            battery_current,
            cpu_load,
            workload_mode: 500_000,
            last_action_compute: 0,
            last_action_thermal: 0,
            last_action_charging: 0,
            last_action_display: 0,
            gpu_freq_ratio: 0,
            brightness_ratio: 0,
            charge_current_ratio: 0,
        }
    }

    /// The dimensions of a state, in order.
    pub fn to_array(&self, state: &StateVector) -> (r: Vec<i64>)
        ensures
            r@ == state_array(*state),
            r@.len() == 34,
    {
        array_of(state)
    }
}

pub fn array_of(s: &StateVector) -> (r: Vec<i64>)
    ensures
        r@ == state_array(*s),
        r@.len() == 34,
{
    let mut v: Vec<i64> = Vec::new();
    v.push(s.t_cpu_max);
    v.push(s.t_cpu_avg);
    v.push(s.t_board_max);
    v.push(s.t_battery);
    v.push(s.t_ambient);
    v.push(s.dt_cpu);
    v.push(s.dt_board);
    v.push(s.dt_battery);
    v.push(s.battery_soc);
    v.push(s.is_charging);
    v.push(s.screen_on);
    v.push(s.time_of_day);
    v.push(s.thermal_level_traditional);
    v.push(s.t_cpu_ma_10);
    v.push(s.t_board_ma_10);
    v.push(s.thermal_level_ma_10);
    v.push(s.cpu_freq_ratio);
    v.push(s.temp_headroom_cpu);
    v.push(s.temp_headroom_battery);
    v.push(s.temp_variance);
    v.push(s.last_action);
    v.push(s.action_stability);
    v.push(s.t_gpu);
    v.push(s.t_charger);
    v.push(s.battery_current);
    v.push(s.cpu_load);
    v.push(s.workload_mode);
    v.push(s.last_action_compute);
    v.push(s.last_action_thermal);
    v.push(s.last_action_charging);
    v.push(s.last_action_display);
    v.push(s.gpu_freq_ratio);
    v.push(s.brightness_ratio);
    v.push(s.charge_current_ratio);
    assert(v@ =~= state_array(*s));
    v
}

// ---------------------------------------------------------------------------
// Laws
// ---------------------------------------------------------------------------

proof fn lemma_sensor_ranges(s: Seq<SensorView>, kind: SensorKind, n: int)
    requires
        0 <= n <= s.len(),
    ensures
        0 <= hottest(s, kind, n) <= 1_000_000,
        0 <= latest(s, kind, n) <= 1_000_000,
        0 <= number_of(s, kind, n),
        0 <= total_of(s, kind, n) <= number_of(s, kind, n) * 1_000_000,
        0 <= charge_level(s, n) <= 1_000_000,
    decreases n,
{
    if n > 0 {
        lemma_sensor_ranges(s, kind, n - 1);
    }
}

proof fn lemma_recent_shares(h: Seq<i64>, x: i64)
    requires
        h.len() <= HISTORY_SIZE,
        all_shares(h),
        0 <= x <= ONE,
    ensures
        all_shares(recent(h, x)),
        0 < recent(h, x).len() <= HISTORY_SIZE,
        0 <= average(recent(h, x)) <= ONE,
{
    let r = recent(h, x);
    let p = h.push(x);
    assert forall|i: int| 0 <= i < p.len() implies 0 <= #[trigger] p[i] <= ONE by {
        if i < h.len() {
            assert(0 <= h[i] <= ONE);
        }
    }
    assert forall|i: int| 0 <= i < r.len() implies 0 <= #[trigger] r[i] <= ONE by {
        if p.len() > HISTORY_SIZE {
            assert(r[i] == p[i + 1]);
        }
    }
    let n = r.len() as int;
    lemma_sum_bound(r, n);
    let total = sum_of(r, n);
    assert(0 <= total / n <= 1_000_000) by (nonlinear_arith)
        requires
            0 <= total <= n * 1_000_000,
            n > 0,
    ;
}

proof fn lemma_root_range(x: int, cap: int)
    requires
        0 <= cap,
    ensures
        0 <= capped_root(x, cap) <= cap,
    decreases cap,
{
    if cap > 0 {
        lemma_root_range(x, cap - 1);
    }
}

/// Every feature but the levels and the frequency ratio is a share of one, and
/// temperature changes lie between minus one and one, whatever the sensors read.
pub proof fn law_features_are_normalized(
    e: ExtractorView,
    s: Seq<SensorView>,
    n_levels: int,
    level: i32,
    device: DeviceView,
)
    requires
        e.wf(),
    ensures
        ({
            let f = e.state(s, n_levels, level, device);
            &&& 0 <= f.t_cpu_max <= ONE
            &&& 0 <= f.t_cpu_avg <= ONE
            &&& 0 <= f.t_board_max <= ONE
            &&& 0 <= f.t_battery <= ONE
            &&& 0 <= f.t_ambient <= ONE
            &&& -ONE <= f.dt_cpu <= ONE
            &&& -ONE <= f.dt_board <= ONE
            &&& -ONE <= f.dt_battery <= ONE
            &&& 0 <= f.battery_soc <= ONE
            &&& f.is_charging == 0 || f.is_charging == ONE
            &&& f.screen_on == ONE
            &&& 0 <= f.time_of_day < ONE
            &&& 0 <= f.t_cpu_ma_10 <= ONE
            &&& 0 <= f.t_board_ma_10 <= ONE
            &&& 0 <= f.temp_headroom_cpu <= ONE
            &&& 0 <= f.temp_headroom_battery <= ONE
            &&& 0 <= f.temp_variance <= ONE
            &&& 0 <= f.t_gpu <= ONE
            &&& 0 <= f.t_charger <= ONE
            &&& 0 <= f.battery_current <= ONE
            &&& 0 <= f.cpu_load <= ONE
        }),
{
    let n = s.len() as int;
    lemma_sensor_ranges(s, SensorKind::Cpu, n);
    lemma_sensor_ranges(s, SensorKind::Board, n);
    lemma_sensor_ranges(s, SensorKind::Battery, n);
    lemma_sensor_ranges(s, SensorKind::Ambient, n);
    lemma_sensor_ranges(s, SensorKind::Gpu, n);
    lemma_sensor_ranges(s, SensorKind::Charger, n);
    lemma_recent_shares(e.cpu_temp_history, hottest(s, SensorKind::Cpu, n) as i64);
    lemma_recent_shares(e.board_temp_history, hottest(s, SensorKind::Board, n) as i64);
    let temps = temp_count(s, n);
    let sum = temp_sum(s, n);
    lemma_root_range(
        100 * (temps * temp_squares(s, n) - sum * sum) / (temps * temps),
        200_000,
    );
    let count = number_of(s, SensorKind::Cpu, n);
    let total = total_of(s, SensorKind::Cpu, n);
    if count > 0 {
        assert(0 <= total / count <= 1_000_000) by (nonlinear_arith)
            requires
                0 <= total <= count * 1_000_000,
                count > 0,
        ;
    }
}

/// The sensors with another reading of one of them.
pub open spec fn with_value(s: Seq<SensorView>, k: int, mc: i32) -> Seq<SensorView> {
    s.update(k, SensorView { last_temp_mc: mc, ..s[k] })
}

/// The reading of a sensor that is not named exactly as a battery thermometer has
/// no effect on the battery temperature of the state, whatever its name contains.
pub proof fn law_battery_is_matched_exactly(s: Seq<SensorView>, k: int, mc: i32)
    requires
        0 <= k < s.len(),
        s[k].name != "battery"@,
        s[k].name != "battery_temp"@,
    ensures
        latest(with_value(s, k, mc), SensorKind::Battery, s.len() as int) == latest(
            s,
            SensorKind::Battery,
            s.len() as int,
        ),
{
    lemma_latest_frame(s, k, mc, s.len() as int);
}

proof fn lemma_latest_frame(s: Seq<SensorView>, k: int, mc: i32, n: int)
    requires
        0 <= k < s.len(),
        0 <= n <= s.len(),
        s[k].name != "battery"@,
        s[k].name != "battery_temp"@,
    ensures
        latest(with_value(s, k, mc), SensorKind::Battery, n) == latest(s, SensorKind::Battery, n),
    decreases n,
{
    if n > 0 {
        lemma_latest_frame(s, k, mc, n - 1);
    }
}

/// The charge, current and voltage of the battery have no effect on the spread of
/// the temperatures.
pub proof fn law_spread_is_of_temperatures(s: Seq<SensorView>, k: int, mc: i32)
    requires
        0 <= k < s.len(),
        s[k].name == "BAT_SOC"@ || s[k].name == "battery_current"@ || s[k].name
            == "battery_voltage"@,
    ensures
        spread(with_value(s, k, mc)) == spread(s),
{
    lemma_spread_frame(s, k, mc, s.len() as int);
}

proof fn lemma_spread_frame(s: Seq<SensorView>, k: int, mc: i32, n: int)
    requires
        0 <= k < s.len(),
        0 <= n <= s.len(),
        !is_temperature(s[k].name),
    ensures
        temp_count(with_value(s, k, mc), n) == temp_count(s, n),
        temp_sum(with_value(s, k, mc), n) == temp_sum(s, n),
        temp_squares(with_value(s, k, mc), n) == temp_squares(s, n),
    decreases n,
{
    if n > 0 {
        lemma_spread_frame(s, k, mc, n - 1);
    }
}

// ---------------------------------------------------------------------------
// Laws of the features
// ---------------------------------------------------------------------------

/// What a sensor measures follows from its name: the first of these marks that the name
/// carries decides.
pub proof fn law_kinds_by_name(name: Seq<char>)
    ensures
        ({
            let cpu = has_part(name, "cpu"@) || has_part(name, "tsens"@);
            let board = has_part(name, "board"@);
            let battery = name == "battery"@ || name == "battery_temp"@;
            let ambient = has_part(name, "ambient"@);
            let gpu = has_part(name, "gpu"@) || has_part(name, "kgsl"@);
            let charger = has_part(name, "charger"@);
            &&& cpu <==> kind_of(name) == SensorKind::Cpu
            &&& !cpu && board <==> kind_of(name) == SensorKind::Board
            &&& !cpu && !board && battery <==> kind_of(name) == SensorKind::Battery
            &&& !cpu && !board && !battery && ambient <==> kind_of(name) == SensorKind::Ambient
            &&& !cpu && !board && !battery && !ambient && gpu <==> kind_of(name)
                == SensorKind::Gpu
            &&& !cpu && !board && !battery && !ambient && !gpu && charger <==> kind_of(name)
                == SensorKind::Charger
        }),
{
}

/// A temperature as a share of 100 degrees, in millionths.
pub open spec fn as_share(mc: i32) -> int {
    if mc <= 0 {
        0
    } else if mc >= 100_000 {
        1_000_000
    } else {
        10 * mc
    }
}

proof fn lemma_hottest_bounds(s: Seq<SensorView>, kind: SensorKind, n: int, i: int)
    requires
        0 <= i < n <= s.len(),
        kind_of(s[i].name) == kind,
    ensures
        hottest(s, kind, n) >= as_share(s[i].last_temp_mc),
        exists|j: int|
            0 <= j < n && kind_of(#[trigger] s[j].name) == kind && hottest(s, kind, n) == as_share(
                s[j].last_temp_mc,
            ),
    decreases n,
{
    lemma_sensor_ranges(s, kind, n);
    if kind_of(s[n - 1].name) == kind {
        if i < n - 1 {
            lemma_hottest_bounds(s, kind, n - 1, i);
            let j = choose|j: int|
                0 <= j < n - 1 && kind_of(#[trigger] s[j].name) == kind && hottest(s, kind, n - 1)
                    == as_share(s[j].last_temp_mc);
            if hottest(s, kind, n - 1) >= as_share(s[n - 1].last_temp_mc) {
                assert(hottest(s, kind, n) == as_share(s[j].last_temp_mc));
            } else {
                assert(hottest(s, kind, n) == as_share(s[n - 1].last_temp_mc));
            }
        } else {
            lemma_hottest_known(s, kind, n - 1);
            if hottest(s, kind, n - 1) >= as_share(s[n - 1].last_temp_mc) {
                if hottest(s, kind, n - 1) > as_share(s[n - 1].last_temp_mc) {
                    let j = choose|j: int|
                        0 <= j < n - 1 && kind_of(#[trigger] s[j].name) == kind && hottest(
                            s,
                            kind,
                            n - 1,
                        ) == as_share(s[j].last_temp_mc);
                    assert(hottest(s, kind, n) == as_share(s[j].last_temp_mc));
                } else {
                    assert(hottest(s, kind, n) == as_share(s[n - 1].last_temp_mc));
                }
            }
        }
    } else {
        lemma_hottest_bounds(s, kind, n - 1, i);
        let j = choose|j: int|
            0 <= j < n - 1 && kind_of(#[trigger] s[j].name) == kind && hottest(s, kind, n - 1)
                == as_share(s[j].last_temp_mc);
        assert(hottest(s, kind, n) == as_share(s[j].last_temp_mc));
    }
}

proof fn lemma_hottest_known(s: Seq<SensorView>, kind: SensorKind, n: int)
    requires
        0 <= n <= s.len(),
    ensures
        hottest(s, kind, n) > 0 ==> exists|j: int|
            0 <= j < n && kind_of(#[trigger] s[j].name) == kind && hottest(s, kind, n) == as_share(
                s[j].last_temp_mc,
            ),
    decreases n,
{
    if n > 0 {
        lemma_hottest_known(s, kind, n - 1);
        if kind_of(s[n - 1].name) == kind && hottest(s, kind, n) == as_share(
            s[n - 1].last_temp_mc,
        ) {
        } else if hottest(s, kind, n) > 0 {
            let j = choose|j: int|
                0 <= j < n - 1 && kind_of(#[trigger] s[j].name) == kind && hottest(s, kind, n - 1)
                    == as_share(s[j].last_temp_mc);
            assert(hottest(s, kind, n) == as_share(s[j].last_temp_mc));
        }
    }
}

proof fn lemma_hottest_none(s: Seq<SensorView>, kind: SensorKind, n: int)
    requires
        0 <= n <= s.len(),
        forall|j: int| 0 <= j < s.len() ==> kind_of(#[trigger] s[j].name) != kind,
    ensures
        hottest(s, kind, n) == 0,
        latest(s, kind, n) == 0,
    decreases n,
{
    if n > 0 {
        lemma_hottest_none(s, kind, n - 1);
    }
}

/// The processor and board temperatures of a state are those of the hottest sensor of
/// their kind: no sensor of the kind is hotter, and one of them is as hot. Without a
/// sensor of the kind they are 0.
pub proof fn law_hottest_sensor_counts(
    e: ExtractorView,
    s: Seq<SensorView>,
    n_levels: int,
    level: i32,
    device: DeviceView,
    i: int,
)
    requires
        0 <= i < s.len(),
    ensures
        ({
            let f = e.state(s, n_levels, level, device);
            &&& kind_of(s[i].name) == SensorKind::Cpu ==> f.t_cpu_max >= as_share(
                s[i].last_temp_mc,
            ) && exists|j: int|
                0 <= j < s.len() && kind_of(#[trigger] s[j].name) == SensorKind::Cpu && f.t_cpu_max
                    == as_share(s[j].last_temp_mc)
            &&& kind_of(s[i].name) == SensorKind::Board ==> f.t_board_max >= as_share(
                s[i].last_temp_mc,
            ) && exists|j: int|
                0 <= j < s.len() && kind_of(#[trigger] s[j].name) == SensorKind::Board
                    && f.t_board_max == as_share(s[j].last_temp_mc)
            &&& (forall|j: int|
                0 <= j < s.len() ==> kind_of(#[trigger] s[j].name) != SensorKind::Cpu)
                ==> f.t_cpu_max == 0
            &&& (forall|j: int|
                0 <= j < s.len() ==> kind_of(#[trigger] s[j].name) != SensorKind::Board)
                ==> f.t_board_max == 0
        }),
{
    let n = s.len() as int;
    lemma_sensor_ranges(s, SensorKind::Cpu, n);
    lemma_sensor_ranges(s, SensorKind::Board, n);
    if kind_of(s[i].name) == SensorKind::Cpu {
        lemma_hottest_bounds(s, SensorKind::Cpu, n, i);
    }
    if kind_of(s[i].name) == SensorKind::Board {
        lemma_hottest_bounds(s, SensorKind::Board, n, i);
    }
    if forall|j: int| 0 <= j < s.len() ==> kind_of(#[trigger] s[j].name) != SensorKind::Cpu {
        lemma_hottest_none(s, SensorKind::Cpu, n);
    }
    if forall|j: int| 0 <= j < s.len() ==> kind_of(#[trigger] s[j].name) != SensorKind::Board {
        lemma_hottest_none(s, SensorKind::Board, n);
    }
}

proof fn lemma_latest_of(s: Seq<SensorView>, kind: SensorKind, n: int, i: int)
    requires
        0 <= i < n <= s.len(),
        kind_of(s[i].name) == kind,
        forall|j: int| i < j < s.len() ==> kind_of(#[trigger] s[j].name) != kind,
    ensures
        latest(s, kind, n) == as_share(s[i].last_temp_mc),
    decreases n,
{
    if i < n - 1 {
        assert(kind_of(s[n - 1].name) != kind);
        lemma_latest_of(s, kind, n - 1, i);
    }
}

proof fn lemma_latest_cases(s: Seq<SensorView>, kind: SensorKind, i: int)
    requires
        0 <= i < s.len(),
    ensures
        kind_of(s[i].name) == kind && (forall|j: int|
            i < j < s.len() ==> kind_of(#[trigger] s[j].name) != kind) ==> latest(
            s,
            kind,
            s.len() as int,
        ) == as_share(s[i].last_temp_mc),
        (forall|j: int| 0 <= j < s.len() ==> kind_of(#[trigger] s[j].name) != kind) ==> latest(
            s,
            kind,
            s.len() as int,
        ) == 0,
{
    if kind_of(s[i].name) == kind && (forall|j: int|
        i < j < s.len() ==> kind_of(#[trigger] s[j].name) != kind) {
        lemma_latest_of(s, kind, s.len() as int, i);
    }
    if forall|j: int| 0 <= j < s.len() ==> kind_of(#[trigger] s[j].name) != kind {
        lemma_hottest_none(s, kind, s.len() as int);
    }
}

/// The battery, ambient, graphics and charger temperatures of a state are those of the
/// last sensor of their kind, or 0 without one.
pub proof fn law_last_sensor_counts(
    e: ExtractorView,
    s: Seq<SensorView>,
    n_levels: int,
    level: i32,
    device: DeviceView,
    i: int,
)
    requires
        0 <= i < s.len(),
    ensures
        ({
            let f = e.state(s, n_levels, level, device);
            &&& kind_of(s[i].name) == SensorKind::Battery && (forall|j: int|
                i < j < s.len() ==> kind_of(#[trigger] s[j].name) != SensorKind::Battery) ==> f.t_battery
                == as_share(s[i].last_temp_mc)
            &&& (forall|j: int|
                0 <= j < s.len() ==> kind_of(#[trigger] s[j].name) != SensorKind::Battery) ==> f.t_battery
                == 0
        }),
        ({
            let f = e.state(s, n_levels, level, device);
            &&& kind_of(s[i].name) == SensorKind::Ambient && (forall|j: int|
                i < j < s.len() ==> kind_of(#[trigger] s[j].name) != SensorKind::Ambient) ==> f.t_ambient
                == as_share(s[i].last_temp_mc)
            &&& (forall|j: int|
                0 <= j < s.len() ==> kind_of(#[trigger] s[j].name) != SensorKind::Ambient) ==> f.t_ambient
                == 0
        }),
        ({
            let f = e.state(s, n_levels, level, device);
            &&& kind_of(s[i].name) == SensorKind::Gpu && (forall|j: int|
                i < j < s.len() ==> kind_of(#[trigger] s[j].name) != SensorKind::Gpu) ==> f.t_gpu
                == as_share(s[i].last_temp_mc)
            &&& (forall|j: int|
                0 <= j < s.len() ==> kind_of(#[trigger] s[j].name) != SensorKind::Gpu) ==> f.t_gpu
                == 0
        }),
        ({
            let f = e.state(s, n_levels, level, device);
            &&& kind_of(s[i].name) == SensorKind::Charger && (forall|j: int|
                i < j < s.len() ==> kind_of(#[trigger] s[j].name) != SensorKind::Charger) ==> f.t_charger
                == as_share(s[i].last_temp_mc)
            &&& (forall|j: int|
                0 <= j < s.len() ==> kind_of(#[trigger] s[j].name) != SensorKind::Charger) ==> f.t_charger
                == 0
        }),
{
    lemma_latest_cases(s, SensorKind::Battery, i);
    lemma_latest_cases(s, SensorKind::Ambient, i);
    lemma_latest_cases(s, SensorKind::Gpu, i);
    lemma_latest_cases(s, SensorKind::Charger, i);
}

/// The temperatures of a kind, in the order of the sensors.
pub open spec fn shares_of(s: Seq<SensorView>, kind: SensorKind) -> Seq<int>
    decreases s.len(),
{
    if s.len() == 0 {
        Seq::empty()
    } else if kind_of(s.first().name) == kind {
        seq![as_share(s.first().last_temp_mc)] + shares_of(s.drop_first(), kind)
    } else {
        shares_of(s.drop_first(), kind)
    }
}

/// The sum of some numbers.
pub open spec fn sum_up(v: Seq<int>) -> int
    decreases v.len(),
{
    if v.len() == 0 {
        0
    } else {
        v.first() + sum_up(v.drop_first())
    }
}

proof fn lemma_sum_push(v: Seq<int>, x: int)
    ensures
        sum_up(v.push(x)) == sum_up(v) + x,
    decreases v.len(),
{
    if v.len() == 0 {
        reveal_with_fuel(sum_up, 2);
        assert(v.push(x).drop_first() =~= Seq::empty());
    } else {
        assert(v.push(x).drop_first() =~= v.drop_first().push(x));
        lemma_sum_push(v.drop_first(), x);
    }
}

proof fn lemma_shares_push(s: Seq<SensorView>, v: SensorView, kind: SensorKind)
    ensures
        shares_of(s.push(v), kind) == (if kind_of(v.name) == kind {
            shares_of(s, kind).push(as_share(v.last_temp_mc))
        } else {
            shares_of(s, kind)
        }),
    decreases s.len(),
{
    if s.len() == 0 {
        reveal_with_fuel(shares_of, 2);
        assert(s.push(v).drop_first() =~= Seq::empty());
        assert(shares_of(s.push(v), kind) =~= (if kind_of(v.name) == kind {
            shares_of(s, kind).push(as_share(v.last_temp_mc))
        } else {
            shares_of(s, kind)
        }));
    } else {
        assert(s.push(v).drop_first() =~= s.drop_first().push(v));
        lemma_shares_push(s.drop_first(), v, kind);
        assert(shares_of(s.push(v), kind) =~= (if kind_of(v.name) == kind {
            shares_of(s, kind).push(as_share(v.last_temp_mc))
        } else {
            shares_of(s, kind)
        }));
    }
}

proof fn lemma_totals(s: Seq<SensorView>, kind: SensorKind, n: int)
    requires
        0 <= n <= s.len(),
    ensures
        number_of(s, kind, n) == shares_of(s.take(n), kind).len(),
        total_of(s, kind, n) == sum_up(shares_of(s.take(n), kind)),
    decreases n,
{
    if n > 0 {
        lemma_totals(s, kind, n - 1);
        assert(s.take(n) =~= s.take(n - 1).push(s[n - 1]));
        lemma_shares_push(s.take(n - 1), s[n - 1], kind);
        if kind_of(s[n - 1].name) == kind {
            lemma_sum_push(shares_of(s.take(n - 1), kind), as_share(s[n - 1].last_temp_mc));
        }
    } else {
        assert(s.take(n) =~= Seq::empty());
    }
}

/// The mean processor temperature, taken as often as there are processor sensors, makes
/// their sum, up to less than one each. Without such sensors it is 0.
pub proof fn law_mean_of_the_processors(
    e: ExtractorView,
    s: Seq<SensorView>,
    n_levels: int,
    level: i32,
    device: DeviceView,
)
    ensures
        ({
            let v = shares_of(s, SensorKind::Cpu);
            let mean = e.state(s, n_levels, level, device).t_cpu_avg;
            if v.len() > 0 {
                v.len() * mean <= sum_up(v) < v.len() * mean + v.len()
            } else {
                mean == 0
            }
        }),
{
    let n = s.len() as int;
    assert(s.take(n) =~= s);
    lemma_totals(s, SensorKind::Cpu, n);
    lemma_sensor_ranges(s, SensorKind::Cpu, n);
    let v = shares_of(s, SensorKind::Cpu);
    let count = v.len() as int;
    let total = sum_up(v);
    if count > 0 {
        let q = total / count;
        assert(0 <= q <= 1_000_000) by (nonlinear_arith)
            requires
                0 <= total <= count * 1_000_000,
                count > 0,
                q == total / count,
        ;
        assert(count * q <= total < count * q + count) by (nonlinear_arith)
            requires
                count > 0,
                q == total / count,
        ;
    }
}

/// A temperature change is a tenth of the change of the temperature between two
/// extractions, a fifth for the battery, rounded towards zero.
pub proof fn law_changes_are_between_extractions(
    e: ExtractorView,
    s: Seq<SensorView>,
    next: Seq<SensorView>,
    n_levels: int,
    level: i32,
    device: DeviceView,
    then: DeviceView,
)
    ensures
        ({
            let f = e.state(s, n_levels, level, device);
            let g = e.after(s, level, device).state(next, n_levels, level, then);
            &&& is_part(g.dt_cpu as int, g.t_cpu_max - f.t_cpu_max, 10)
            &&& is_part(g.dt_board as int, g.t_board_max - f.t_board_max, 10)
            &&& is_part(g.dt_battery as int, g.t_battery - f.t_battery, 5)
        }),
{
    lemma_sensor_ranges(s, SensorKind::Cpu, s.len() as int);
    lemma_sensor_ranges(s, SensorKind::Board, s.len() as int);
    lemma_sensor_ranges(s, SensorKind::Battery, s.len() as int);
    lemma_sensor_ranges(next, SensorKind::Cpu, next.len() as int);
    lemma_sensor_ranges(next, SensorKind::Board, next.len() as int);
    lemma_sensor_ranges(next, SensorKind::Battery, next.len() as int);
}

/// Is `part` the `n`th part of a number, rounded towards zero?
pub open spec fn is_part(part: int, whole: int, n: int) -> bool {
    if whole >= 0 {
        0 <= n * part <= whole < n * part + n
    } else {
        n * part - n < whole <= n * part <= 0
    }
}

proof fn lemma_charge_of(s: Seq<SensorView>, n: int, i: int)
    requires
        0 <= i < n <= s.len(),
        s[i].name == "BAT_SOC"@,
        forall|j: int| i < j < s.len() ==> (#[trigger] s[j]).name != "BAT_SOC"@,
    ensures
        charge_level(s, n) == clamped(s[i].last_temp_mc * 10_000, 0, 1_000_000),
    decreases n,
{
    if i < n - 1 {
        assert(s[n - 1].name != "BAT_SOC"@);
        lemma_charge_of(s, n - 1, i);
    }
}

proof fn lemma_no_charge(s: Seq<SensorView>, n: int)
    requires
        0 <= n <= s.len(),
        forall|j: int| 0 <= j < s.len() ==> (#[trigger] s[j]).name != "BAT_SOC"@,
    ensures
        charge_level(s, n) == 500_000,
    decreases n,
{
    if n > 0 {
        lemma_no_charge(s, n - 1);
    }
}

/// The state of charge is the last percentage that a charge sensor reads, or one half
/// without one.
pub proof fn law_state_of_charge(
    e: ExtractorView,
    s: Seq<SensorView>,
    n_levels: int,
    level: i32,
    device: DeviceView,
    i: int,
)
    requires
        0 <= i < s.len(),
    ensures
        ({
            let soc = e.state(s, n_levels, level, device).battery_soc;
            let percent = s[i].last_temp_mc;
            &&& s[i].name == "BAT_SOC"@ && 0 <= percent <= 100 && (forall|j: int|
                i < j < s.len() ==> (#[trigger] s[j]).name != "BAT_SOC"@) ==> 100 * soc == percent
                * 1_000_000
            &&& (forall|j: int| 0 <= j < s.len() ==> (#[trigger] s[j]).name != "BAT_SOC"@)
                ==> 2 * soc == 1_000_000
        }),
{
    if s[i].name == "BAT_SOC"@ && (forall|j: int|
        i < j < s.len() ==> (#[trigger] s[j]).name != "BAT_SOC"@) {
        lemma_charge_of(s, s.len() as int, i);
    }
    if forall|j: int| 0 <= j < s.len() ==> (#[trigger] s[j]).name != "BAT_SOC"@ {
        lemma_no_charge(s, s.len() as int);
    }
}

proof fn lemma_current_of(s: Seq<SensorView>, n: int, i: int)
    requires
        0 <= i < n <= s.len(),
        is_current_name(s[i].name),
        forall|j: int| i < j < s.len() ==> !is_current_name(#[trigger] s[j].name),
    ensures
        current_reading(s, n) == s[i].last_temp_mc,
    decreases n,
{
    if i < n - 1 {
        assert(!is_current_name(s[n - 1].name));
        lemma_current_of(s, n - 1, i);
    }
}

/// The battery charges where the last current sensor reads a negative current; the size
/// of the current is a share of six amperes, at most one.
pub proof fn law_battery_current(
    e: ExtractorView,
    s: Seq<SensorView>,
    n_levels: int,
    level: i32,
    device: DeviceView,
    i: int,
)
    requires
        0 <= i < s.len(),
        has_part(s[i].name, "battery_current"@),
        s[i].name != "BAT_SOC"@,
        forall|j: int|
            i < j < s.len() ==> !has_part(#[trigger] s[j].name, "battery_current"@),
    ensures
        ({
            let f = e.state(s, n_levels, level, device);
            let i = s[i].last_temp_mc as int;
            &&& i < 0 ==> f.is_charging == 1_000_000
            &&& i >= 0 ==> f.is_charging == 0
            &&& 0 <= i <= 6_000_000 ==> is_part(f.battery_current as int, i, 6)
            &&& -6_000_000 <= i < 0 ==> is_part(f.battery_current as int, -i, 6)
            &&& i < -6_000_000 || i > 6_000_000 ==> f.battery_current == 1_000_000
        }),
{
    lemma_current_of(s, s.len() as int, i);
}

/// The time of day is the number of full hours as a share of 24.
pub proof fn law_time_of_day(
    e: ExtractorView,
    s: Seq<SensorView>,
    n_levels: int,
    level: i32,
    device: DeviceView,
    days: int,
    hours: int,
    seconds: int,
)
    requires
        device.now_secs == 86_400 * days + 3600 * hours + seconds,
        0 <= days,
        0 <= hours < 24,
        0 <= seconds < 3600,
    ensures
        is_part(e.state(s, n_levels, level, device).time_of_day as int, hours * 1_000_000, 24),
{
}

/// The level of the configured controller is a share of its levels, rounded towards
/// zero; a controller without levels is at 0.
pub proof fn law_level_share(
    e: ExtractorView,
    s: Seq<SensorView>,
    n_levels: int,
    level: i32,
    device: DeviceView,
)
    requires
        0 <= n_levels <= i32::MAX,
        0 <= level,
    ensures
        n_levels > 0 ==> is_part(
            e.state(s, n_levels, level, device).thermal_level_traditional as int,
            level * 1_000_000,
            n_levels,
        ),
        n_levels == 0 ==> e.state(s, n_levels, level, device).thermal_level_traditional == 0,
{
    if n_levels > 0 {
        let x = level * 1_000_000;
        crate::arith::law_truncation(x, n_levels);
        let q = trunc_div(x, n_levels);
        assert(0 <= q <= x) by (nonlinear_arith)
            requires
                0 <= n_levels * q <= x < n_levels * q + n_levels,
                n_levels >= 1,
                x >= 0,
        ;
    }
}

/// The last ten values of a history with a new one.
pub open spec fn last_ten<T>(h: Seq<T>, x: T) -> Seq<T> {
    if h.len() < 10 {
        h.push(x)
    } else {
        h.skip(h.len() - 9).push(x)
    }
}

/// The values of a history as numbers.
pub open spec fn as_ints(h: Seq<i64>) -> Seq<int> {
    h.map_values(|x: i64| x as int)
}

pub open spec fn levels_as_ints(h: Seq<i32>) -> Seq<int> {
    h.map_values(|x: i32| x as int)
}

proof fn lemma_sum_of(h: Seq<i64>, n: int)
    requires
        0 <= n <= h.len(),
    ensures
        sum_of(h, n) == sum_up(as_ints(h).take(n)),
    decreases n,
{
    if n > 0 {
        lemma_sum_of(h, n - 1);
        assert(as_ints(h).take(n) =~= as_ints(h).take(n - 1).push(h[n - 1] as int));
        lemma_sum_push(as_ints(h).take(n - 1), h[n - 1] as int);
    } else {
        assert(as_ints(h).take(n) =~= Seq::empty());
    }
}

proof fn lemma_level_sum(h: Seq<i32>, n: int)
    requires
        0 <= n <= h.len(),
    ensures
        level_sum(h, n) == sum_up(levels_as_ints(h).take(n)),
    decreases n,
{
    if n > 0 {
        lemma_level_sum(h, n - 1);
        assert(levels_as_ints(h).take(n) =~= levels_as_ints(h).take(n - 1).push(h[n - 1] as int));
        lemma_sum_push(levels_as_ints(h).take(n - 1), h[n - 1] as int);
    } else {
        assert(levels_as_ints(h).take(n) =~= Seq::empty());
    }
}

/// An extraction remembers its temperatures, its level and the times of the processor,
/// and of the histories the last ten values.
pub proof fn law_extraction_remembers(
    e: ExtractorView,
    s: Seq<SensorView>,
    n_levels: int,
    level: i32,
    device: DeviceView,
)
    requires
        e.wf(),
    ensures
        ({
            let f = e.state(s, n_levels, level, device);
            let after = e.after(s, level, device);
            &&& after.prev_cpu_temp == f.t_cpu_max
            &&& after.prev_board_temp == f.t_board_max
            &&& after.prev_battery_temp == f.t_battery
            &&& after.cpu_temp_history == last_ten(e.cpu_temp_history, f.t_cpu_max)
            &&& after.board_temp_history == last_ten(e.board_temp_history, f.t_board_max)
            &&& after.level_history == last_ten(e.level_history, level)
            &&& device.times is Some ==> after.prev_cpu_idle == device.times->Some_0.idle
            &&& device.times is Some ==> after.prev_cpu_total == device.times->Some_0.total
            &&& device.times is None ==> after.prev_cpu_idle == e.prev_cpu_idle
            &&& device.times is None ==> after.prev_cpu_total == e.prev_cpu_total
        }),
{
    let f = e.state(s, n_levels, level, device);
    let after = e.after(s, level, device);
    assert(after.cpu_temp_history =~= last_ten(e.cpu_temp_history, f.t_cpu_max));
    assert(after.board_temp_history =~= last_ten(e.board_temp_history, f.t_board_max));
    assert(after.level_history =~= last_ten(e.level_history, level));
}

/// The averages of a state are over the last ten values, this one among them.
pub proof fn law_averages_are_over_ten(
    e: ExtractorView,
    s: Seq<SensorView>,
    n_levels: int,
    level: i32,
    device: DeviceView,
)
    requires
        e.wf(),
        0 <= n_levels <= i32::MAX,
    ensures
        ({
            let f = e.state(s, n_levels, level, device);
            let cpu = as_ints(last_ten(e.cpu_temp_history, f.t_cpu_max));
            let board = as_ints(last_ten(e.board_temp_history, f.t_board_max));
            let levels = levels_as_ints(last_ten(e.level_history, level));
            &&& is_part(f.t_cpu_ma_10 as int, sum_up(cpu), cpu.len() as int)
            &&& is_part(f.t_board_ma_10 as int, sum_up(board), board.len() as int)
            &&& is_part(
                f.thermal_level_ma_10 as int,
                sum_up(levels) * 1_000_000,
                levels.len() * (if n_levels > 1 {
                    n_levels
                } else {
                    1
                }),
            )
        }),
{
    law_extraction_remembers(e, s, n_levels, level, device);
    let f = e.state(s, n_levels, level, device);
    let after = e.after(s, level, device);
    let n = s.len() as int;
    lemma_sensor_ranges(s, SensorKind::Cpu, n);
    lemma_sensor_ranges(s, SensorKind::Board, n);
    let (c, b, l) = (after.cpu_temp_history, after.board_temp_history, after.level_history);
    lemma_recent_shares(e.cpu_temp_history, f.t_cpu_max);
    lemma_recent_shares(e.board_temp_history, f.t_board_max);
    assert(as_ints(c).take(c.len() as int) =~= as_ints(c));
    assert(as_ints(b).take(b.len() as int) =~= as_ints(b));
    assert(levels_as_ints(l).take(l.len() as int) =~= levels_as_ints(l));
    lemma_sum_of(c, c.len() as int);
    lemma_sum_of(b, b.len() as int);
    lemma_level_sum(l, l.len() as int);
    crate::arith::law_truncation(sum_up(as_ints(c)), c.len() as int);
    crate::arith::law_truncation(sum_up(as_ints(b)), b.len() as int);
    let top = upper_of(n_levels, 1);
    let d = l.len() * top;
    assert(d > 0) by (nonlinear_arith)
        requires
            d == l.len() * top,
            l.len() > 0,
            top > 0,
    ;
    let x = sum_up(levels_as_ints(l)) * 1_000_000;
    lemma_level_sum_bound(l, l.len() as int);
    crate::arith::law_truncation(x, d);
    let q = trunc_div(x, d);
    assert(-30_000_000_000_000_000 <= q <= 30_000_000_000_000_000) by (nonlinear_arith)
        requires
            -30_000_000_000_000_000 <= x <= 30_000_000_000_000_000,
            x >= 0 ==> 0 <= d * q <= x < d * q + d,
            x <= 0 ==> d * q - d < x <= d * q <= 0,
            d >= 1,
    ;
}

proof fn lemma_level_sum_bound(h: Seq<i32>, n: int)
    requires
        0 <= n <= h.len(),
    ensures
        -0x8000_0000 * n <= level_sum(h, n) <= 0x8000_0000 * n,
    decreases n,
{
    if n > 0 {
        lemma_level_sum_bound(h, n - 1);
    }
}

/// The headroom is what is left to the throttling temperature, 85 degrees for the
/// processor and 45 for the battery, as a share of it; above it nothing is left.
pub proof fn law_headroom(
    e: ExtractorView,
    s: Seq<SensorView>,
    n_levels: int,
    level: i32,
    device: DeviceView,
)
    ensures
        ({
            let f = e.state(s, n_levels, level, device);
            &&& f.t_cpu_max <= 850_000 ==> is_part(
                f.temp_headroom_cpu as int,
                (850_000 - f.t_cpu_max) * 100,
                85,
            )
            &&& f.t_cpu_max > 850_000 ==> f.temp_headroom_cpu == 0
            &&& f.t_battery <= 450_000 ==> is_part(
                f.temp_headroom_battery as int,
                (450_000 - f.t_battery) * 100,
                45,
            )
            &&& f.t_battery > 450_000 ==> f.temp_headroom_battery == 0
        }),
{
    lemma_sensor_ranges(s, SensorKind::Cpu, s.len() as int);
    lemma_sensor_ranges(s, SensorKind::Battery, s.len() as int);
}

/// The load is the share of the time since the last extraction that was not idle. It is
/// unknown, and 0, on the first extraction, without statistics, and where no time passed.
pub proof fn law_load_is_time_not_idle(
    e: ExtractorView,
    s: Seq<SensorView>,
    n_levels: int,
    level: i32,
    device: DeviceView,
)
    ensures
        ({
            let load = e.state(s, n_levels, level, device).cpu_load;
            match device.times {
                Some(t) => {
                    let passed = t.total - e.prev_cpu_total;
                    let idle = t.idle - e.prev_cpu_idle;
                    &&& e.prev_cpu_total == 0 || passed <= 0 ==> load == 0
                    &&& e.prev_cpu_total > 0 && passed > 0 && 0 <= idle <= passed ==> is_part(
                        1_000_000 - load,
                        idle * 1_000_000,
                        passed,
                    )
                },
                None => load == 0,
            }
        }),
{
    match device.times {
        Some(t) => {
            let passed = t.total - e.prev_cpu_total;
            let idle = t.idle - e.prev_cpu_idle;
            if e.prev_cpu_total > 0 && passed > 0 && 0 <= idle <= passed {
                let x = idle * 1_000_000;
                let q = x / passed;
                assert(0 <= q <= 1_000_000 && passed * q <= x < passed * q + passed)
                    by (nonlinear_arith)
                    requires
                        0 <= idle <= passed,
                        passed > 0,
                        x == idle * 1_000_000,
                        q == x / passed,
                ;
            }
        },
        None => {},
    }
}

/// The first line of the statistics counts user, nice, system and idle time, in this
/// order behind its name; the idle time is the fourth count and the total their sum.
/// Fewer counts tell nothing.
pub proof fn law_columns_of_the_statistics(
    stat: Seq<char>,
    name: Seq<char>,
    user: u64,
    nice: u64,
    system: u64,
    idle: u64,
    rest: Seq<Seq<char>>,
)
    requires
        lines(stat).len() > 0,
        user + nice + system + idle <= u64::MAX,
    ensures
        words(lines(stat)[0]) == seq![
            name,
            decimal(user as int),
            decimal(nice as int),
            decimal(system as int),
            decimal(idle as int),
        ] + rest ==> cpu_times(stat) == Some(
            CpuTimes { idle, total: (user + nice + system + idle) as u64 },
        ),
        words(lines(stat)[0]).len() < 5 ==> cpu_times(stat) is None,
{
    lemma_decimal(user as int);
    lemma_decimal(nice as int);
    lemma_decimal(system as int);
    lemma_decimal(idle as int);
}

/// The frequency ratios of the policies that tell both frequencies, in order.
pub open spec fn known_ratios(f: Seq<(i32, i32)>) -> Seq<int>
    decreases f.len(),
{
    if f.len() == 0 {
        Seq::empty()
    } else if f.first().0 > 0 && f.first().1 > 0 {
        seq![f.first().0 * 1_000_000 / (f.first().1 as int)] + known_ratios(f.drop_first())
    } else {
        known_ratios(f.drop_first())
    }
}

proof fn lemma_ratios_push(f: Seq<(i32, i32)>, x: (i32, i32))
    ensures
        known_ratios(f.push(x)) == (if x.0 > 0 && x.1 > 0 {
            known_ratios(f).push(x.0 * 1_000_000 / (x.1 as int))
        } else {
            known_ratios(f)
        }),
    decreases f.len(),
{
    if f.len() == 0 {
        reveal_with_fuel(known_ratios, 2);
        assert(f.push(x).drop_first() =~= Seq::empty());
    } else {
        assert(f.push(x).drop_first() =~= f.drop_first().push(x));
        lemma_ratios_push(f.drop_first(), x);
    }
    assert(known_ratios(f.push(x)) =~= (if x.0 > 0 && x.1 > 0 {
        known_ratios(f).push(x.0 * 1_000_000 / (x.1 as int))
    } else {
        known_ratios(f)
    }));
}

proof fn lemma_ratio_sums(f: Seq<(i32, i32)>, n: int)
    requires
        0 <= n <= f.len(),
    ensures
        ratio_count(f, n) == known_ratios(f.take(n)).len(),
        ratio_sum(f, n) == sum_up(known_ratios(f.take(n))),
        0 <= ratio_sum(f, n) <= ratio_count(f, n) * 2_147_483_648_000_000,
    decreases n,
{
    if n > 0 {
        lemma_ratio_sums(f, n - 1);
        assert(f.take(n) =~= f.take(n - 1).push(f[n - 1]));
        lemma_ratios_push(f.take(n - 1), f[n - 1]);
        let (cur, max) = f[n - 1];
        if cur > 0 && max > 0 {
            let r = cur * 1_000_000 / (max as int);
            lemma_sum_push(known_ratios(f.take(n - 1)), r);
            assert(0 <= r <= cur * 1_000_000) by (nonlinear_arith)
                requires
                    r == cur * 1_000_000 / (max as int),
                    cur > 0,
                    max > 0,
            ;
        }
    } else {
        assert(f.take(n) =~= Seq::empty());
    }
}

/// The frequency ratio is the mean of the policies that tell both frequencies, each the
/// current one as a share of the greatest; it is 80% where none does.
pub proof fn law_frequency_ratio(
    e: ExtractorView,
    s: Seq<SensorView>,
    n_levels: int,
    level: i32,
    device: DeviceView,
)
    ensures
        ({
            let v = known_ratios(device.cpu_freqs);
            let ratio = e.state(s, n_levels, level, device).cpu_freq_ratio;
            if v.len() > 0 {
                is_part(ratio as int, sum_up(v), v.len() as int)
            } else {
                100 * ratio == 80 * 1_000_000
            }
        }),
{
    let f = device.cpu_freqs;
    assert(f.take(f.len() as int) =~= f);
    lemma_ratio_sums(f, f.len() as int);
    let v = known_ratios(f);
    let n = v.len() as int;
    if n > 0 {
        let x = sum_up(v);
        let q = x / n;
        assert(0 <= q <= 2_147_483_648_000_000 && n * q <= x < n * q + n && 0 <= n * q)
            by (nonlinear_arith)
            requires
                0 <= x <= n * 2_147_483_648_000_000,
                n > 0,
                q == x / n,
        ;
    }
}

proof fn lemma_shifted(s: Seq<SensorView>, t: Seq<SensorView>, d: int, n: int)
    requires
        0 <= n <= s.len(),
        s.len() == t.len(),
        forall|i: int|
            0 <= i < s.len() ==> (#[trigger] t[i]).name == s[i].name && t[i].last_temp_mc
                == s[i].last_temp_mc + d,
    ensures
        temp_count(t, n) == temp_count(s, n),
        temp_sum(t, n) == temp_sum(s, n) + temp_count(s, n) * d,
        temp_squares(t, n) == temp_squares(s, n) + 2 * d * temp_sum(s, n) + temp_count(s, n) * d
            * d,
    decreases n,
{
    if n > 0 {
        lemma_shifted(s, t, d, n - 1);
        assert(t[n - 1].name == s[n - 1].name);
        let x = s[n - 1].last_temp_mc as int;
        let c = temp_count(s, n - 1);
        let m = temp_sum(s, n - 1);
        assert((x + d) * (x + d) == x * x + 2 * d * x + d * d) by (nonlinear_arith);
        assert((c + 1) * d == c * d + d) by (nonlinear_arith);
        assert((c + 1) * d * d == c * d * d + d * d) by (nonlinear_arith);
        assert(2 * d * (m + x) == 2 * d * m + 2 * d * x) by (nonlinear_arith);
    } else {
        assert(0 * d == 0 && 0 * d * d == 0 && 2 * d * 0 == 0);
    }
}

/// The spread does not depend on how hot the device is as a whole: with all readings
/// higher or lower by the same, it is the same.
pub proof fn law_spread_is_relative(s: Seq<SensorView>, t: Seq<SensorView>, d: int)
    requires
        s.len() == t.len(),
        forall|i: int|
            0 <= i < s.len() ==> (#[trigger] t[i]).name == s[i].name && t[i].last_temp_mc
                == s[i].last_temp_mc + d,
    ensures
        spread(t) == spread(s),
{
    let n = s.len() as int;
    lemma_shifted(s, t, d, n);
    let c = temp_count(s, n);
    let m = temp_sum(s, n);
    let q = temp_squares(s, n);
    assert(c * (q + 2 * d * m + c * d * d) - (m + c * d) * (m + c * d) == c * q - m * m)
        by (nonlinear_arith);
}

/// The spread of two temperatures is half their difference, as a share of 20 degrees.
pub proof fn law_spread_of_two(s: Seq<SensorView>, d: int)
    requires
        s.len() == 2,
        is_temperature(s[0].name),
        is_temperature(s[1].name),
        s[0].last_temp_mc - s[1].last_temp_mc == 2 * d,
        -20_000 <= d <= 20_000,
    ensures
        d >= 0 ==> 20_000 * spread(s) == d * 1_000_000,
        d < 0 ==> 20_000 * spread(s) == -d * 1_000_000,
{
    let a = s[0].last_temp_mc as int;
    let b = s[1].last_temp_mc as int;
    let m = magnitude(d);
    assert(2 * (a * a + b * b) - (a + b) * (a + b) == (a - b) * (a - b)) by (nonlinear_arith);
    assert((a - b) * (a - b) == 4 * (m * m)) by (nonlinear_arith)
        requires
            a - b == 2 * d,
            m == d || m == -d,
    ;
    let r = 10 * m;
    let x = 100 * (4 * (m * m)) / 4;
    assert(100 * (4 * (m * m)) == 4 * (100 * (m * m))) by (nonlinear_arith);
    assert(x == 100 * (m * m));
    assert(100 * (m * m) == r * r) by (nonlinear_arith)
        requires
            r == 10 * m,
    ;
    assert((r + 1) * (r + 1) > r * r) by (nonlinear_arith)
        requires
            r >= 0,
    ;
    lemma_capped_root(x, 200_000, r);
    assert(temp_count(s, 0) == 0 && temp_sum(s, 0) == 0 && temp_squares(s, 0) == 0);
    assert(temp_count(s, 1) == 1 && temp_sum(s, 1) == a && temp_squares(s, 1) == a * a);
    let n = temp_count(s, 2);
    let sum = temp_sum(s, 2);
    let squares = temp_squares(s, 2);
    assert(n == 2 && sum == a + b && squares == a * a + b * b);
    assert(n * squares == 2 * (a * a + b * b));
    assert(sum * sum == (a + b) * (a + b));
    assert(n * n == 4);
    assert(n * squares - sum * sum == 4 * (m * m));
    assert(spread(s) == 5 * capped_root(x, 200_000));
}

/// Sensors other than those of charge, current and voltage are temperatures, and a device
/// without any has no spread.
pub proof fn law_what_spreads(name: Seq<char>, s: Seq<SensorView>)
    ensures
        is_temperature(name) <==> name != "battery_current"@ && name != "battery_voltage"@ && name
            != "BAT_SOC"@,
        s.len() == 0 ==> spread(s) == 0,
{
}

/// What no reading tells has a fixed value in a fresh state: the screen is taken to be
/// on, the workload to be in the middle, and no action to have been carried out.
pub proof fn law_fixed_features(
    e: ExtractorView,
    s: Seq<SensorView>,
    n_levels: int,
    level: i32,
    device: DeviceView,
)
    ensures
        ({
            let f = e.state(s, n_levels, level, device);
            &&& f.screen_on == 1_000_000
            &&& 2 * f.workload_mode == 1_000_000
            &&& f.last_action == 0
            &&& f.action_stability == 0
            &&& f.last_action_compute == 0
            &&& f.last_action_thermal == 0
            &&& f.last_action_charging == 0
            &&& f.last_action_display == 0
            &&& f.gpu_freq_ratio == 0
            &&& f.brightness_ratio == 0
            &&& f.charge_current_ratio == 0
        }),
{
}

/// Every dimension of a state is told apart: states with the same dimensions are the
/// same.
pub proof fn law_dimensions_tell_states_apart(a: StateVector, b: StateVector)
    requires
        state_array(a) == state_array(b),
    ensures
        a == b,
        state_array(a).len() == 34,
{
    let x = state_array(a);
    let y = state_array(b);
    assert forall|i: int| 0 <= i < 34 implies x[i] == y[i] by {}
    assert(x[0] == y[0]);
    assert(x[1] == y[1]);
    assert(x[2] == y[2]);
    assert(x[3] == y[3]);
    assert(x[4] == y[4]);
    assert(x[5] == y[5]);
    assert(x[6] == y[6]);
    assert(x[7] == y[7]);
    assert(x[8] == y[8]);
    assert(x[9] == y[9]);
    assert(x[10] == y[10]);
    assert(x[11] == y[11]);
    assert(x[12] == y[12]);
    assert(x[13] == y[13]);
    assert(x[14] == y[14]);
    assert(x[15] == y[15]);
    assert(x[16] == y[16]);
    assert(x[17] == y[17]);
    assert(x[18] == y[18]);
    assert(x[19] == y[19]);
    assert(x[20] == y[20]);
    assert(x[21] == y[21]);
    assert(x[22] == y[22]);
    assert(x[23] == y[23]);
    assert(x[24] == y[24]);
    assert(x[25] == y[25]);
    assert(x[26] == y[26]);
    assert(x[27] == y[27]);
    assert(x[28] == y[28]);
    assert(x[29] == y[29]);
    assert(x[30] == y[30]);
    assert(x[31] == y[31]);
    assert(x[32] == y[32]);
    assert(x[33] == y[33]);
}

/// A column of the statistics that is no number of 64 bits counts 0, any other its number.
pub proof fn law_columns_without_a_number(w: Seq<char>, n: u64)
    ensures
        unsigned_of(w, u64::MAX as int) is None ==> counter(w) == 0,
        unsigned_of(w, u64::MAX as int) == Some(n as int) ==> counter(w) == n,
{
}

/// A fresh extractor remembers nothing: no history, and 0 for every earlier reading.
pub proof fn law_fresh_extractor()
    ensures
        ({
            let e = fresh_extractor();
            &&& e.cpu_temp_history.len() == 0 && e.board_temp_history.len() == 0
            &&& e.level_history.len() == 0
            &&& e.prev_cpu_temp == 0 && e.prev_board_temp == 0 && e.prev_battery_temp == 0
            &&& e.prev_cpu_idle == 0 && e.prev_cpu_total == 0
        }),
{
}

} // verus!
