//! The safety monitor: which actions are safe at the current temperatures, and
//! the circuit breaker that counts thermal emergencies.

use vstd::prelude::*;

#[allow(unused_imports)]
use crate::arith::lower_of;
use crate::ai::workload::WorkloadMode;
use crate::text::{chars_of, contains, same_text, to_lower};
#[allow(unused_imports)]
use crate::text::{has_part, lowercase};
use crate::types::Sensor;
#[allow(unused_imports)]
use crate::types::{sensor_views, SensorView};

verus! {

pub const MAX_CPU_TEMP_MC: i32 = 85000;

pub const BATTERY_TEMP_IDLE_MC: i32 = 38000;
pub const BATTERY_TEMP_MODERATE_MC: i32 = 40000;
pub const BATTERY_TEMP_GAMING_MC: i32 = 44000;
pub const BATTERY_TEMP_PERFGAMING_MC: i32 = 45000;
pub const BATTERY_TEMP_BENCHMARK_MC: i32 = 48000;

pub const BATTERY_WARN_IDLE_MC: i32 = 35000;
pub const BATTERY_WARN_MODERATE_MC: i32 = 37000;
pub const BATTERY_WARN_GAMING_MC: i32 = 42000;
pub const BATTERY_WARN_PERFGAMING_MC: i32 = 44000;
pub const BATTERY_WARN_BENCHMARK_MC: i32 = 45000;

pub const MAX_VIOLATIONS: u32 = 10;
pub const VIOLATION_WINDOW_TICKS: u64 = 3600;

/// The warning and critical battery temperatures of a workload.
pub open spec fn battery_limits(mode: WorkloadMode) -> (i32, i32) {
    match mode {
        WorkloadMode::Idle | WorkloadMode::Light => (BATTERY_WARN_IDLE_MC, BATTERY_TEMP_IDLE_MC),
        WorkloadMode::Moderate => (BATTERY_WARN_MODERATE_MC, BATTERY_TEMP_MODERATE_MC),
        WorkloadMode::Gaming => (BATTERY_WARN_GAMING_MC, BATTERY_TEMP_GAMING_MC),
        WorkloadMode::PerfGaming => (BATTERY_WARN_PERFGAMING_MC, BATTERY_TEMP_PERFGAMING_MC),
        WorkloadMode::Benchmark => (BATTERY_WARN_BENCHMARK_MC, BATTERY_TEMP_BENCHMARK_MC),
    }
}

/// Does the name belong to a processor sensor?
pub open spec fn is_cpu_name(name: Seq<char>) -> bool {
    has_part(lowercase(name), "cpu"@) || has_part(lowercase(name), "tsens"@)
}

/// Does the name belong to the battery temperature sensor?
pub open spec fn is_battery_name(name: Seq<char>) -> bool {
    lowercase(name) == "battery"@ || lowercase(name) == "battery_temp"@
}

/// Is a processor sensor above its limit?
pub open spec fn cpu_over(s: Seq<SensorView>) -> bool {
    exists|i: int|
        0 <= i < s.len() && is_cpu_name((#[trigger] s[i]).name) && s[i].last_temp_mc
            > MAX_CPU_TEMP_MC
}

/// Is a battery temperature sensor above the threshold?
pub open spec fn battery_above(s: Seq<SensorView>, threshold: i32) -> bool {
    exists|i: int|
        0 <= i < s.len() && is_battery_name((#[trigger] s[i]).name) && s[i].last_temp_mc
            > threshold
}

/// Is an action safe? The two most cooling actions always are. The others need
/// processor and battery below their limits, and action 5 a cool battery.
pub open spec fn action_safe(mode: WorkloadMode, action: u8, s: Seq<SensorView>) -> bool {
    if action <= 1 {
        true
    } else if 6 <= action <= 9 {
        !cpu_over(s) && !battery_above(s, battery_limits(mode).1)
    } else if battery_above(s, battery_limits(mode).0) && action >= 5 {
        false
    } else {
        !cpu_over(s) && !battery_above(s, battery_limits(mode).1)
    }
}

/// How many violations lie within the window that ends at a tick.
pub open spec fn within_window(v: Seq<u64>, tick: u64) -> int
    decreases v.len(),
{
    if v.len() == 0 {
        0
    } else {
        within_window(v.drop_last(), tick) + if tick - v.last() < VIOLATION_WINDOW_TICKS {
            1int
        } else {
            0
        }
    }
}

/// The violations that are not older than the window at a tick.
pub open spec fn not_older(v: Seq<u64>, tick: u64) -> Seq<u64>
    decreases v.len(),
{
    if v.len() == 0 {
        v
    } else if tick - v.last() <= VIOLATION_WINDOW_TICKS {
        not_older(v.drop_last(), tick).push(v.last())
    } else {
        not_older(v.drop_last(), tick)
    }
}

#[derive(Debug)]
pub struct SafetyMonitor {
    /// The ticks of the recent violations.
    pub recent: Vec<u64>,
    /// The circuit breaker has opened, and had not closed at the last check.
    pub open: bool,
    pub current_workload: WorkloadMode,
}

#[verifier::ext_equal]
pub struct SafetyView {
    pub recent: Seq<u64>,
    pub open: bool,
    pub current_workload: WorkloadMode,
}

impl View for SafetyMonitor {
    type V = SafetyView;

    open spec fn view(&self) -> SafetyView {
        SafetyView {
            recent: self.recent@,
            open: self.open,
            current_workload: self.current_workload,
        }
    }
}

/// A monitor without violations.
pub open spec fn fresh_monitor() -> SafetyView {
    SafetyView { recent: Seq::empty(), open: false, current_workload: WorkloadMode::Light }
}

impl SafetyView {
    /// Did every recent violation happen at a tick or before?
    pub open spec fn up_to(self, tick: int) -> bool {
        forall|k: int| 0 <= k < self.recent.len() ==> #[trigger] self.recent[k] <= tick
    }

    /// The number of recent violations.
    pub open spec fn violations(self) -> u32 {
        lower_of(self.recent.len() as int, u32::MAX as int) as u32
    }

    /// The violations that are known after a check at a tick: those older than the
    /// window are forgotten, and an unsafe check is a new one.
    pub open spec fn known_after(self, safe: bool, tick: u64) -> Seq<u64> {
        let kept = not_older(self.recent, tick);
        if safe {
            kept
        } else {
            kept.push(tick)
        }
    }

    /// The monitor after a check at a tick. The circuit breaker opens at the
    /// violation that makes ten of them within the window.
    pub open spec fn recorded(self, safe: bool, tick: u64) -> Self {
        let recent = self.known_after(safe, tick);
        SafetyView {
            recent,
            open: self.tripped(tick) || (!safe && within_window(recent, tick) >= MAX_VIOLATIONS),
            ..self
        }
    }

    /// Is the circuit breaker open at a tick? Once it has opened, it is until the
    /// window has passed since the last violation.
    pub open spec fn tripped(self, tick: u64) -> bool {
        self.open && self.recent.len() > 0 && tick - self.recent.last() < VIOLATION_WINDOW_TICKS
    }
}

pub(crate) proof fn lemma_not_older(v: Seq<u64>, tick: u64, limit: int)
    requires
        forall|k: int| 0 <= k < v.len() ==> #[trigger] v[k] <= limit,
    ensures
        not_older(v, tick).len() <= v.len(),
        forall|k: int|
            0 <= k < not_older(v, tick).len() ==> #[trigger] not_older(v, tick)[k] <= limit,
    decreases v.len(),
{
    if v.len() > 0 {
        let w = v.drop_last();
        assert forall|k: int| 0 <= k < w.len() implies #[trigger] w[k] <= limit by {
            assert(w[k] == v[k]);
        }
        lemma_not_older(w, tick, limit);
        assert(v[v.len() - 1] <= limit);
    }
}

/// A check keeps violations at a limit or before it.
pub(crate) proof fn lemma_recorded_up_to(m: SafetyView, safe: bool, tick: u64, limit: int)
    requires
        m.up_to(limit),
        safe || tick <= limit,
    ensures
        m.recorded(safe, tick).up_to(limit),
{
    lemma_not_older(m.recent, tick, limit);
}

/// Counts the violations within the window that ends at a tick.
fn count_within(v: &Vec<u64>, tick: u64) -> (r: usize)
    requires
        forall|k: int| 0 <= k < v@.len() ==> #[trigger] v@[k] <= tick,
    ensures
        r == within_window(v@, tick),
{
    let mut n: usize = 0;
    let mut i: usize = 0;
    assert(v@.take(0) =~= Seq::empty());
    while i < v.len()
        invariant
            i <= v@.len(),
            n <= i,
            forall|k: int| 0 <= k < v@.len() ==> #[trigger] v@[k] <= tick,
            n == within_window(v@.take(i as int), tick),
        decreases v@.len() - i,
    {
        let t: u64 = v[i];
        proof {
            assert(v@[i as int] <= tick);
            assert(v@.take(i + 1).drop_last() =~= v@.take(i as int));
            assert(v@.take(i + 1).last() == t);
        }
        if tick - t < VIOLATION_WINDOW_TICKS {
            n += 1;
        }
        i += 1;
    }
    assert(v@.take(i as int) =~= v@);
    n
}

impl SafetyMonitor {
    pub fn new() -> (r: Self)
        ensures
            r@ == fresh_monitor(),
    {
        SafetyMonitor {
            recent: Vec::new(),
            open: false,
            current_workload: WorkloadMode::Light,
        }
    }

    pub fn set_workload_mode(&mut self, mode: WorkloadMode)
        ensures
            final(self)@ == (SafetyView { current_workload: mode, ..old(self)@ }),
    {
        self.current_workload = mode;
    }

    /// Tests whether an action is safe. Records nothing.
    pub fn is_action_safe(&self, action: u8, sensors: &Vec<Sensor>) -> (r: bool)
        ensures
            r == action_safe(self.current_workload, action, sensor_views(sensors@)),
    {
        let (warn, crit) = self.battery_thresholds();
        let over: bool = self.cpu_over_limit(sensors) || Self::any_battery_sensor_over(
            sensors,
            crit,
        );
        let warm: bool = Self::any_battery_sensor_over(sensors, warn);
        match action {
            0 | 1 => true,
            6 | 7 | 8 | 9 => !over,
            _ => if warm && action >= 5 {
                false
            } else {
                !over
            },
        }
    }

    /// Forgets violations that are older than the window, and notes a new one
    /// where the check was unsafe. The tenth within the window opens the circuit
    /// breaker; a window without any closes it.
    pub fn record_check(&mut self, safe: bool, tick_count: u64)
        requires
            old(self)@.up_to(tick_count as int),
        ensures
            final(self)@ == old(self)@.recorded(safe, tick_count),
            final(self)@.up_to(tick_count as int),
    {
        let ghost v = self.recent@;
        let still: bool = self.is_disabled(tick_count);
        let mut kept: Vec<u64> = Vec::new();
        let mut i: usize = 0;
        assert(v.take(0) =~= Seq::empty());
        assert(kept@ =~= not_older(v.take(0), tick_count));
        while i < self.recent.len()
            invariant
                i <= self.recent@.len(),
                v == self.recent@,
                self@.up_to(tick_count as int),
                kept@ == not_older(v.take(i as int), tick_count),
            decreases self.recent@.len() - i,
        {
            let t: u64 = self.recent[i];
            proof {
                assert(self@.recent[i as int] <= tick_count);
                assert(v.take(i + 1).drop_last() =~= v.take(i as int));
                assert(v.take(i + 1).last() == t);
            }
            if tick_count - t <= VIOLATION_WINDOW_TICKS {
                kept.push(t);
            }
            i += 1;
        }
        assert(v.take(i as int) =~= v);
        if !safe {
            kept.push(tick_count);
        }
        proof {
            lemma_recorded_up_to(self@, safe, tick_count, tick_count as int);
            assert(kept@ == self@.recorded(safe, tick_count).recent);
        }
        let opens: bool = !safe && count_within(&kept, tick_count) >= MAX_VIOLATIONS as usize;
        self.open = still || opens;
        self.recent = kept;
    }

    /// Tests whether an action is safe. A thermal emergency counts as a
    /// violation, whatever the action.
    pub fn check_action(&mut self, action: u8, sensors: &Vec<Sensor>, tick_count: u64) -> (r: bool)
        requires
            old(self)@.up_to(tick_count as int),
        ensures
            r == action_safe(old(self).current_workload, action, sensor_views(sensors@)),
            final(self)@ == old(self)@.recorded(!cpu_over(sensor_views(sensors@)), tick_count),
            final(self)@.up_to(tick_count as int),
    {
        let safe: bool = self.is_action_safe(action, sensors);
        let hazard: bool = self.is_hazard(sensors);
        self.record_check(!hazard, tick_count);
        safe
    }

    /// Tests whether the circuit breaker is open.
    pub fn is_disabled(&self, tick_count: u64) -> (r: bool)
        requires
            self@.up_to(tick_count as int),
        ensures
            r == self@.tripped(tick_count),
    {
        let n: usize = self.recent.len();
        if !self.open || n == 0 {
            return false;
        }
        let last: u64 = self.recent[n - 1];
        assert(self@.recent[n - 1] <= tick_count);
        tick_count - last < VIOLATION_WINDOW_TICKS
    }

    /// The number of recent violations, as of the last check.
    pub fn violations(&self) -> (r: u32)
        ensures
            r == self@.violations(),
    {
        if self.recent.len() < u32::MAX as usize {
            self.recent.len() as u32
        } else {
            u32::MAX
        }
    }

    /// Tests for a thermal emergency: a processor sensor above its limit.
    pub fn is_hazard(&self, sensors: &Vec<Sensor>) -> (r: bool)
        ensures
            r == cpu_over(sensor_views(sensors@)),
    {
        self.cpu_over_limit(sensors)
    }

    fn cpu_over_limit(&self, sensors: &Vec<Sensor>) -> (r: bool)
        ensures
            r == cpu_over(sensor_views(sensors@)),
    {
        let ghost s = sensor_views(sensors@);
        let mut i: usize = 0;
        while i < sensors.len()
            invariant
                i <= sensors@.len(),
                s == sensor_views(sensors@),
                forall|k: int|
                    0 <= k < i ==> !(is_cpu_name((#[trigger] s[k]).name) && s[k].last_temp_mc
                        > MAX_CPU_TEMP_MC),
            decreases sensors@.len() - i,
        {
            let name = to_lower(sensors[i].name.as_str());
            let v = chars_of(name.as_str());
            let cpu: bool = contains(&v, "cpu") || contains(&v, "tsens");
            assert(s[i as int] == sensors@[i as int]@);
            if cpu && sensors[i].last_temp_mc > MAX_CPU_TEMP_MC {
                return true;
            }
            i += 1;
        }
        false
    }

    fn battery_thresholds(&self) -> (r: (i32, i32))
        ensures
            r == battery_limits(self.current_workload),
    {
        match self.current_workload {
            WorkloadMode::Idle | WorkloadMode::Light => (
                BATTERY_WARN_IDLE_MC,
                BATTERY_TEMP_IDLE_MC,
            ),
            WorkloadMode::Moderate => (BATTERY_WARN_MODERATE_MC, BATTERY_TEMP_MODERATE_MC),
            WorkloadMode::Gaming => (BATTERY_WARN_GAMING_MC, BATTERY_TEMP_GAMING_MC),
            WorkloadMode::PerfGaming => (BATTERY_WARN_PERFGAMING_MC, BATTERY_TEMP_PERFGAMING_MC),
            WorkloadMode::Benchmark => (BATTERY_WARN_BENCHMARK_MC, BATTERY_TEMP_BENCHMARK_MC),
        }
    }

    fn any_battery_sensor_over(sensors: &Vec<Sensor>, threshold: i32) -> (r: bool)
        ensures
            r == battery_above(sensor_views(sensors@), threshold),
    {
        let ghost s = sensor_views(sensors@);
        let mut i: usize = 0;
        while i < sensors.len()
            invariant
                i <= sensors@.len(),
                s == sensor_views(sensors@),
                forall|k: int|
                    0 <= k < i ==> !(is_battery_name((#[trigger] s[k]).name) && s[k].last_temp_mc
                        > threshold),
            decreases sensors@.len() - i,
        {
            let name = to_lower(sensors[i].name.as_str());
            let battery: bool = same_text(name.as_str(), "battery") || same_text(
                name.as_str(),
                "battery_temp",
            );
            assert(s[i as int] == sensors@[i as int]@);
            if battery && sensors[i].last_temp_mc > threshold {
                return true;
            }
            i += 1;
        }
        false
    }
}

// ---------------------------------------------------------------------------
// Laws
// ---------------------------------------------------------------------------

/// The two most cooling actions are always safe.
pub proof fn law_cooling_is_safe(mode: WorkloadMode, action: u8, s: Seq<SensorView>)
    requires
        action <= 1,
    ensures
        action_safe(mode, action, s),
{
}

/// No action that heats passes while a processor is above its limit or the
/// battery above the critical temperature of the workload.
pub proof fn law_no_heating_above_limits(mode: WorkloadMode, action: u8, s: Seq<SensorView>)
    requires
        action >= 2,
        cpu_over(s) || battery_above(s, battery_limits(mode).1),
    ensures
        !action_safe(mode, action, s),
{
}

/// Below the warning temperature, with no processor above its limit, every
/// action is safe.
pub proof fn law_cool_device_is_unrestricted(mode: WorkloadMode, action: u8, s: Seq<SensorView>)
    requires
        !cpu_over(s),
        !battery_above(s, battery_limits(mode).0),
    ensures
        action_safe(mode, action, s),
{
    assert forall|i: int| 0 <= i < s.len() implies !(is_battery_name((#[trigger] s[i]).name)
        && s[i].last_temp_mc > battery_limits(mode).1) by {
        assert(battery_limits(mode).0 < battery_limits(mode).1);
    }
}

/// A monitor after a history of checks, each with its outcome and its tick.
pub open spec fn after_checks(m: SafetyView, checks: Seq<(bool, u64)>) -> SafetyView
    decreases checks.len(),
{
    if checks.len() == 0 {
        m
    } else {
        after_checks(m, checks.drop_last()).recorded(checks.last().0, checks.last().1)
    }
}

/// How many unsafe checks of a history lie within the window that ends at a tick.
pub open spec fn unsafe_within(checks: Seq<(bool, u64)>, tick: u64) -> int
    decreases checks.len(),
{
    if checks.len() == 0 {
        0
    } else {
        unsafe_within(checks.drop_last(), tick) + if !checks.last().0 && tick - checks.last().1
            < VIOLATION_WINDOW_TICKS {
            1int
        } else {
            0
        }
    }
}

/// Are the ticks of a history in order, up to a tick?
pub open spec fn in_order(checks: Seq<(bool, u64)>, tick: u64) -> bool {
    &&& forall|i: int, j: int|
        0 <= i <= j < checks.len() ==> (#[trigger] checks[i]).1 <= (#[trigger] checks[j]).1
    &&& checks.len() > 0 ==> checks.last().1 <= tick
}

proof fn lemma_forgetting_is_harmless(v: Seq<u64>, then: u64, now: u64)
    requires
        then <= now,
    ensures
        within_window(not_older(v, then), now) == within_window(v, now),
    decreases v.len(),
{
    if v.len() > 0 {
        lemma_forgetting_is_harmless(v.drop_last(), then, now);
        let kept = not_older(v.drop_last(), then);
        assert(kept.push(v.last()).drop_last() =~= kept);
    }
}

proof fn lemma_window_of_history(checks: Seq<(bool, u64)>, tick: u64)
    requires
        in_order(checks, tick),
    ensures
        within_window(after_checks(fresh_monitor(), checks).recent, tick) == unsafe_within(
            checks,
            tick,
        ),
    decreases checks.len(),
{
    if checks.len() > 0 {
        let before = checks.drop_last();
        let (safe, then) = checks.last();
        assert(in_order(before, tick)) by {
            if before.len() > 0 {
                assert(checks[before.len() - 1].1 <= checks[checks.len() - 1].1);
            }
        }
        lemma_window_of_history(before, tick);
        let v = after_checks(fresh_monitor(), before).recent;
        lemma_forgetting_is_harmless(v, then, tick);
        let kept = not_older(v, then);
        assert(kept.push(then).drop_last() =~= kept);
    }
}

/// Is a check of a history a violation that makes ten of them within the window?
pub open spec fn opens_at(checks: Seq<(bool, u64)>, i: int) -> bool {
    !checks[i].0 && unsafe_within(checks.take(i + 1), checks[i].1) >= MAX_VIOLATIONS
}

/// Does a violation among the checks from `i` up to `n` lie within the window that
/// ends at a tick?
pub open spec fn violated_since(checks: Seq<(bool, u64)>, i: int, n: int, tick: u64) -> bool {
    exists|k: int|
        i <= k < n && !(#[trigger] checks[k]).0 && tick - checks[k].1 < VIOLATION_WINDOW_TICKS
}

/// Have the violations from check `i` on, up to a tick, never paused for a window?
pub open spec fn unbroken(checks: Seq<(bool, u64)>, i: int, tick: u64) -> bool {
    &&& forall|j: int|
        i < j < checks.len() && !(#[trigger] checks[j]).0 ==> violated_since(
            checks,
            i,
            j,
            checks[j].1,
        )
    &&& violated_since(checks, i, checks.len() as int, tick)
}

/// Did the tenth violation of some window lie so that no window without a violation
/// has passed since?
pub open spec fn holds_open(checks: Seq<(bool, u64)>, tick: u64) -> bool {
    exists|i: int|
        0 <= i < checks.len() && #[trigger] opens_at(checks, i) && unbroken(checks, i, tick)
}

/// The tick of the last violation of a history.
pub open spec fn last_violation(checks: Seq<(bool, u64)>) -> Option<u64>
    decreases checks.len(),
{
    if checks.len() == 0 {
        None
    } else if !checks.last().0 {
        Some(checks.last().1)
    } else {
        last_violation(checks.drop_last())
    }
}

proof fn lemma_order_of_part(checks: Seq<(bool, u64)>, tick: u64)
    requires
        in_order(checks, tick),
        checks.len() > 0,
    ensures
        in_order(checks.drop_last(), checks.last().1),
        in_order(checks.drop_last(), tick),
        in_order(checks, checks.last().1),
{
    let before = checks.drop_last();
    if before.len() > 0 {
        assert(checks[before.len() - 1].1 <= checks[checks.len() - 1].1);
    }
}

/// What a safe check changes of the circuit breaker: nothing.
proof fn lemma_safe_check(m: SafetyView, then: u64, tick: u64)
    requires
        then <= tick,
    ensures
        m.recorded(true, then).tripped(tick) == m.tripped(tick),
        m.tripped(tick) ==> m.recorded(true, then).recent.last() == m.recent.last(),
{
}

/// What an unsafe check changes of the circuit breaker: it may open it, and an open
/// one stays open for another window.
proof fn lemma_unsafe_check(m: SafetyView, then: u64, tick: u64)
    requires
        then <= tick,
    ensures
        m.recorded(false, then).recent.last() == then,
        m.recorded(false, then).tripped(tick) == ((m.tripped(then) || within_window(
            m.known_after(false, then),
            then,
        ) >= MAX_VIOLATIONS) && tick - then < VIOLATION_WINDOW_TICKS),
{
}

/// What holds the circuit breaker open follows a safe check.
proof fn lemma_holds_open_safe(checks: Seq<(bool, u64)>, tick: u64)
    requires
        checks.len() > 0,
        checks.last().0,
    ensures
        holds_open(checks, tick) == holds_open(checks.drop_last(), tick),
{
    let before = checks.drop_last();
    let n = before.len() as int;
    assert forall|i: int| 0 <= i < n implies opens_at(checks, i) == opens_at(before, i)
        && unbroken(checks, i, tick) == unbroken(before, i, tick) by {
        assert(checks.take(i + 1) =~= before.take(i + 1));
        lemma_part_of_window(checks, i, tick);
    }
    if holds_open(checks, tick) {
        let i = choose|i: int|
            0 <= i < checks.len() && #[trigger] opens_at(checks, i) && unbroken(checks, i, tick);
        assert(i < n);
        assert(opens_at(before, i));
    }
    if holds_open(before, tick) {
        let i = choose|i: int|
            0 <= i < n && #[trigger] opens_at(before, i) && unbroken(before, i, tick);
        assert(opens_at(checks, i));
    }
}

/// The violations of a history without its last check, where that is safe.
proof fn lemma_part_of_window(checks: Seq<(bool, u64)>, i: int, tick: u64)
    requires
        checks.len() > 0,
        checks.last().0,
        0 <= i < checks.len() - 1,
    ensures
        unbroken(checks, i, tick) == unbroken(checks.drop_last(), i, tick),
{
    let before = checks.drop_last();
    let n = before.len() as int;
    assert forall|m: int, at: u64| 0 <= m <= n implies #[trigger] violated_since(checks, i, m, at)
        == violated_since(before, i, m, at) by {
        lemma_same_violations(checks, i, m, at);
    }
    assert(violated_since(checks, i, n + 1, tick) == violated_since(checks, i, n, tick)) by {
        if violated_since(checks, i, n + 1, tick) {
            let k = choose|k: int|
                i <= k < n + 1 && !(#[trigger] checks[k]).0 && tick - checks[k].1
                    < VIOLATION_WINDOW_TICKS;
            assert(k < n);
        }
    }
    if unbroken(checks, i, tick) {
        assert forall|j: int| i < j < n && !(#[trigger] before[j]).0 implies violated_since(
            before,
            i,
            j,
            before[j].1,
        ) by {
            assert(!checks[j].0);
            assert(violated_since(checks, i, j, checks[j].1));
        }
    }
    if unbroken(before, i, tick) {
        assert forall|j: int| i < j < n + 1 && !(#[trigger] checks[j]).0 implies violated_since(
            checks,
            i,
            j,
            checks[j].1,
        ) by {
            assert(j < n);
            assert(!before[j].0);
        }
    }
}

proof fn lemma_same_violations(checks: Seq<(bool, u64)>, i: int, n: int, tick: u64)
    requires
        0 <= i,
        0 <= n < checks.len(),
    ensures
        violated_since(checks, i, n, tick) == violated_since(checks.drop_last(), i, n, tick),
{
    let before = checks.drop_last();
    if violated_since(checks, i, n, tick) {
        let k = choose|k: int|
            i <= k < n && !(#[trigger] checks[k]).0 && tick - checks[k].1 < VIOLATION_WINDOW_TICKS;
        assert(!before[k].0);
    }
    if violated_since(before, i, n, tick) {
        let k = choose|k: int|
            i <= k < n && !(#[trigger] before[k]).0 && tick - before[k].1 < VIOLATION_WINDOW_TICKS;
        assert(!checks[k].0);
    }
}

/// A violation goes on with those before it where it comes within the window.
proof fn lemma_unbroken_then(checks: Seq<(bool, u64)>, i: int, tick: u64)
    requires
        0 <= i < checks.len() - 1,
        !checks.last().0,
        unbroken(checks, i, tick),
    ensures
        unbroken(checks.drop_last(), i, checks.last().1),
{
    let before = checks.drop_last();
    let n = before.len() as int;
    assert(!checks[n].0);
    lemma_same_violations(checks, i, n, checks[n].1);
    assert forall|j: int| i < j < n && !(#[trigger] before[j]).0 implies violated_since(
        before,
        i,
        j,
        before[j].1,
    ) by {
        assert(!checks[j].0);
        lemma_same_violations(checks, i, j, checks[j].1);
    }
}

proof fn lemma_unbroken_goes_on(checks: Seq<(bool, u64)>, i: int, tick: u64)
    requires
        0 <= i < checks.len() - 1,
        !checks.last().0,
        unbroken(checks.drop_last(), i, checks.last().1),
        tick - checks.last().1 < VIOLATION_WINDOW_TICKS,
    ensures
        unbroken(checks, i, tick),
{
    let before = checks.drop_last();
    let n = before.len() as int;
    assert(!checks[n].0);
    assert forall|j: int| i < j < n + 1 && !(#[trigger] checks[j]).0 implies violated_since(
        checks,
        i,
        j,
        checks[j].1,
    ) by {
        if j < n {
            assert(!before[j].0);
        }
        lemma_same_violations(checks, i, j, checks[j].1);
    }
}

/// No violation of a history lies within a later window than the last check.
proof fn lemma_within_of_last(checks: Seq<(bool, u64)>, i: int, tick: u64)
    requires
        0 <= i < checks.len(),
        in_order(checks, tick),
        violated_since(checks, i, checks.len() as int, tick),
    ensures
        tick - checks.last().1 < VIOLATION_WINDOW_TICKS,
{
    let k = choose|k: int|
        i <= k < checks.len() && !(#[trigger] checks[k]).0 && tick - checks[k].1
            < VIOLATION_WINDOW_TICKS;
    assert(checks[k].1 <= checks[checks.len() - 1].1);
}

/// A violation holds the circuit breaker open for a window.
proof fn lemma_unbroken_alone(checks: Seq<(bool, u64)>, tick: u64)
    requires
        checks.len() > 0,
        !checks.last().0,
        tick - checks.last().1 < VIOLATION_WINDOW_TICKS,
    ensures
        unbroken(checks, checks.len() - 1, tick),
{
    assert(!checks[checks.len() - 1].0);
}

proof fn lemma_held_open_then(checks: Seq<(bool, u64)>, i: int, tick: u64)
    requires
        0 <= i < checks.len(),
        !checks.last().0,
        in_order(checks, tick),
        opens_at(checks, i),
        unbroken(checks, i, tick),
    ensures
        holds_open(checks.drop_last(), checks.last().1) || unsafe_within(checks, checks.last().1)
            >= MAX_VIOLATIONS,
        tick - checks.last().1 < VIOLATION_WINDOW_TICKS,
{
    let before = checks.drop_last();
    lemma_within_of_last(checks, i, tick);
    if i < before.len() {
        assert(checks.take(i + 1) =~= before.take(i + 1));
        lemma_unbroken_then(checks, i, tick);
        assert(opens_at(before, i));
    } else {
        assert(checks.take(i + 1) =~= checks);
    }
}

proof fn lemma_held_open_goes_on(checks: Seq<(bool, u64)>, i: int, tick: u64)
    requires
        0 <= i < checks.len() - 1,
        !checks.last().0,
        opens_at(checks.drop_last(), i),
        unbroken(checks.drop_last(), i, checks.last().1),
        tick - checks.last().1 < VIOLATION_WINDOW_TICKS,
    ensures
        holds_open(checks, tick),
{
    let before = checks.drop_last();
    assert(checks.take(i + 1) =~= before.take(i + 1));
    lemma_unbroken_goes_on(checks, i, tick);
    assert(opens_at(checks, i));
}

proof fn lemma_held_open_by_ten(checks: Seq<(bool, u64)>, tick: u64)
    requires
        checks.len() > 0,
        !checks.last().0,
        unsafe_within(checks, checks.last().1) >= MAX_VIOLATIONS,
        tick - checks.last().1 < VIOLATION_WINDOW_TICKS,
    ensures
        holds_open(checks, tick),
{
    let n = checks.len() - 1;
    assert(checks.take(n + 1) =~= checks);
    lemma_unbroken_alone(checks, tick);
    assert(opens_at(checks, n));
}

/// What holds the circuit breaker open follows an unsafe check.
proof fn lemma_holds_open_unsafe(checks: Seq<(bool, u64)>, tick: u64)
    requires
        checks.len() > 0,
        !checks.last().0,
        in_order(checks, tick),
    ensures
        holds_open(checks, tick) == ((holds_open(checks.drop_last(), checks.last().1)
            || unsafe_within(checks, checks.last().1) >= MAX_VIOLATIONS) && tick
            - checks.last().1 < VIOLATION_WINDOW_TICKS),
{
    let before = checks.drop_last();
    let then = checks.last().1;
    if holds_open(checks, tick) {
        let i = choose|i: int|
            0 <= i < checks.len() && #[trigger] opens_at(checks, i) && unbroken(checks, i, tick);
        lemma_held_open_then(checks, i, tick);
    } else if tick - then < VIOLATION_WINDOW_TICKS {
        if unsafe_within(checks, then) >= MAX_VIOLATIONS {
            lemma_held_open_by_ten(checks, tick);
        }
        if holds_open(before, then) {
            let i = choose|i: int|
                0 <= i < before.len() && #[trigger] opens_at(before, i) && unbroken(
                    before,
                    i,
                    then,
                );
            lemma_held_open_goes_on(checks, i, tick);
        }
    }
}

/// The circuit breaker is open if and only if ten violations fell within one window
/// and no window without a violation has passed since.
pub proof fn law_breaker_follows_the_history(checks: Seq<(bool, u64)>, tick: u64)
    requires
        in_order(checks, tick),
    ensures
        after_checks(fresh_monitor(), checks).tripped(tick) <==> holds_open(checks, tick),
    decreases checks.len(),
{
    if checks.len() > 0 {
        let before = checks.drop_last();
        let (safe, then) = checks.last();
        let m = after_checks(fresh_monitor(), before);
        lemma_order_of_part(checks, tick);
        if safe {
            law_breaker_follows_the_history(before, tick);
            lemma_safe_check(m, then, tick);
            lemma_holds_open_safe(checks, tick);
        } else {
            law_breaker_follows_the_history(before, then);
            lemma_window_of_history(checks, then);
            lemma_unsafe_check(m, then, tick);
            lemma_holds_open_unsafe(checks, tick);
        }
    }
}

/// A closed circuit breaker opens at a check if and only if that check is a violation
/// and makes ten of them within the window that ends there.
pub proof fn law_breaker_opens_at_ten(checks: Seq<(bool, u64)>)
    requires
        checks.len() > 0,
        in_order(checks, checks.last().1),
        !after_checks(fresh_monitor(), checks.drop_last()).tripped(checks.last().1),
    ensures
        after_checks(fresh_monitor(), checks).tripped(checks.last().1) <==> !checks.last().0
            && unsafe_within(checks, checks.last().1) >= MAX_VIOLATIONS,
{
    lemma_window_of_history(checks, checks.last().1);
}

proof fn lemma_open_since_last(checks: Seq<(bool, u64)>, tick: u64)
    requires
        in_order(checks, tick),
        after_checks(fresh_monitor(), checks).tripped(tick),
    ensures
        last_violation(checks) == Some(after_checks(fresh_monitor(), checks).recent.last()),
    decreases checks.len(),
{
    if checks.len() > 0 && checks.last().0 {
        let before = checks.drop_last();
        lemma_order_of_part(checks, tick);
        lemma_safe_check(after_checks(fresh_monitor(), before), checks.last().1, tick);
        lemma_open_since_last(before, tick);
    }
}

/// An open circuit breaker stays open until the window has passed since the last
/// violation, and is closed from then on: `now` is a tick at which it is open, and
/// `calm` the checks after that, which find no violation.
pub proof fn law_breaker_stays_open(
    checks: Seq<(bool, u64)>,
    now: u64,
    calm: Seq<(bool, u64)>,
    tick: u64,
)
    requires
        in_order(checks, now),
        in_order(checks + calm, tick),
        now <= tick,
        after_checks(fresh_monitor(), checks).tripped(now),
        forall|k: int| 0 <= k < calm.len() ==> (#[trigger] calm[k]).0,
    ensures
        last_violation(checks) is Some,
        after_checks(fresh_monitor(), checks + calm).tripped(tick) <==> tick - last_violation(
            checks,
        )->Some_0 < VIOLATION_WINDOW_TICKS,
    decreases calm.len(),
{
    if calm.len() == 0 {
        assert(checks + calm =~= checks);
        lemma_open_since_last(checks, now);
    } else {
        let part = calm.drop_last();
        let all = checks + calm;
        assert(all.drop_last() =~= checks + part);
        assert(all.last() == calm.last());
        assert(calm[calm.len() - 1].0);
        lemma_order_of_part(all, tick);
        law_breaker_stays_open(checks, now, part, tick);
        lemma_safe_check(after_checks(fresh_monitor(), checks + part), calm.last().1, tick);
    }
}

/// The circuit breaker closes again once the window has passed without an
/// emergency, and the next check after that forgets the old violations.
pub proof fn law_breaker_recovers(m: SafetyView, tick: u64)
    requires
        m.up_to(tick - VIOLATION_WINDOW_TICKS),
    ensures
        !m.tripped(tick),
        m.up_to(tick - VIOLATION_WINDOW_TICKS - 1) ==> m.recorded(true, tick).violations() == 0,
{
    if m.recent.len() > 0 {
        assert(m.recent[m.recent.len() - 1] <= tick - VIOLATION_WINDOW_TICKS);
    }
    if m.up_to(tick - VIOLATION_WINDOW_TICKS - 1) {
        lemma_all_forgotten(m.recent, tick);
    }
}

proof fn lemma_all_forgotten(v: Seq<u64>, tick: u64)
    requires
        forall|k: int| 0 <= k < v.len() ==> #[trigger] v[k] + VIOLATION_WINDOW_TICKS < tick,
    ensures
        not_older(v, tick).len() == 0,
    decreases v.len(),
{
    if v.len() > 0 {
        let w = v.drop_last();
        assert forall|k: int| 0 <= k < w.len() implies #[trigger] w[k] + VIOLATION_WINDOW_TICKS
            < tick by {
            assert(w[k] == v[k]);
        }
        lemma_all_forgotten(w, tick);
        assert(v[v.len() - 1] + VIOLATION_WINDOW_TICKS < tick);
    }
}

/// A battery that is merely warm never counts towards the circuit breaker, and never
/// opens it.
pub proof fn law_warm_battery_is_no_violation(m: SafetyView, s: Seq<SensorView>, tick: u64)
    requires
        !cpu_over(s),
    ensures
        m.recorded(!cpu_over(s), tick).violations() <= m.violations(),
        m.recorded(!cpu_over(s), tick).tripped(tick) ==> m.tripped(tick),
{
    lemma_not_older(m.recent, tick, u64::MAX as int);
}

/// The battery temperatures of a workload, in degrees: from the first on, action 5 is
/// too much, and from the second on every action that heats.
pub open spec fn limits_in_degrees(mode: WorkloadMode) -> (int, int) {
    match mode {
        WorkloadMode::Idle => (35, 38),
        WorkloadMode::Light => (35, 38),
        WorkloadMode::Moderate => (37, 40),
        WorkloadMode::Gaming => (42, 44),
        WorkloadMode::PerfGaming => (44, 45),
        WorkloadMode::Benchmark => (45, 48),
    }
}

/// One processor sensor above 85 degrees, whose name has "cpu" or "tsens" in it, or one
/// battery sensor above the second limit of the workload, rules out every action from 2
/// on; one battery sensor above the first limit rules out action 5.
pub proof fn law_one_hot_sensor_is_enough(
    mode: WorkloadMode,
    action: u8,
    s: Seq<SensorView>,
    i: int,
)
    requires
        0 <= i < s.len(),
        action >= 2,
    ensures
        (has_part(lowercase(s[i].name), "cpu"@) || has_part(lowercase(s[i].name), "tsens"@))
            && s[i].last_temp_mc > 85_000 ==> !action_safe(mode, action, s) && cpu_over(s),
        (lowercase(s[i].name) == "battery"@ || lowercase(s[i].name) == "battery_temp"@)
            && s[i].last_temp_mc > 1000 * limits_in_degrees(mode).1 ==> !action_safe(
            mode,
            action,
            s,
        ),
        (lowercase(s[i].name) == "battery"@ || lowercase(s[i].name) == "battery_temp"@)
            && s[i].last_temp_mc > 1000 * limits_in_degrees(mode).0 && action == 5
            ==> !action_safe(mode, action, s),
{
    if is_cpu_name(s[i].name) && s[i].last_temp_mc > MAX_CPU_TEMP_MC {
        assert(cpu_over(s));
    }
    if is_battery_name(s[i].name) && s[i].last_temp_mc > battery_limits(mode).1 {
        assert(battery_above(s, battery_limits(mode).1));
    }
    if is_battery_name(s[i].name) && s[i].last_temp_mc > battery_limits(mode).0 {
        assert(battery_above(s, battery_limits(mode).0));
    }
}

/// Does a sensor allow an action on its own?
pub open spec fn allows(mode: WorkloadMode, action: u8, x: SensorView) -> bool {
    let name = lowercase(x.name);
    let battery = name == "battery"@ || name == "battery_temp"@;
    &&& has_part(name, "cpu"@) || has_part(name, "tsens"@) ==> x.last_temp_mc <= 85_000
    &&& battery ==> x.last_temp_mc <= 1000 * limits_in_degrees(mode).1
    &&& battery && (action == 5 || action > 9) ==> x.last_temp_mc <= 1000 * limits_in_degrees(
        mode,
    ).0
}

/// An action that every sensor allows is safe.
pub proof fn law_allowed_actions_are_safe(mode: WorkloadMode, action: u8, s: Seq<SensorView>)
    requires
        forall|i: int| 0 <= i < s.len() ==> allows(mode, action, #[trigger] s[i]),
    ensures
        action_safe(mode, action, s),
        !cpu_over(s),
{
    assert forall|i: int| 0 <= i < s.len() implies !(is_cpu_name((#[trigger] s[i]).name)
        && s[i].last_temp_mc > MAX_CPU_TEMP_MC) && !(is_battery_name(s[i].name)
        && s[i].last_temp_mc > battery_limits(mode).1) && !(is_battery_name(s[i].name)
        && s[i].last_temp_mc > battery_limits(mode).0 && (action == 5 || action > 9)) by {
        assert(allows(mode, action, s[i]));
    }
}

/// A check forgets the violations that lie more than 3600 ticks back, keeps the others in
/// their order, and adds its own tick where it is unsafe.
pub proof fn law_checks_are_remembered(m: SafetyView, old_tick: u64, safe: bool, tick: u64)
    ensures
        ({
            let longer = SafetyView { recent: m.recent.push(old_tick), ..m };
            let kept = longer.known_after(true, tick);
            &&& old_tick + 3600 >= tick ==> kept == m.known_after(true, tick).push(old_tick)
            &&& old_tick + 3600 < tick ==> kept == m.known_after(true, tick)
        }),
        m.recorded(false, tick).recent == m.recorded(true, tick).recent.push(tick),
        m.recorded(safe, tick).current_workload == m.current_workload,
        m.recent.len() == 0 ==> m.recorded(true, tick).recent.len() == 0,
        m.recent.len() <= u32::MAX ==> m.violations() == m.recent.len(),
{
    assert(m.recent.push(old_tick).drop_last() =~= m.recent);
}

/// A violation lies within the window of the 3600 ticks from its own on, and violations
/// are counted one by one.
pub proof fn law_window_counts(v: Seq<u64>, t: u64, tick: u64)
    ensures
        within_window(v.push(t), tick) == within_window(v, tick) + (if tick < t + 3600 {
            1int
        } else {
            0
        }),
        within_window(Seq::empty(), tick) == 0,
{
    assert(v.push(t).drop_last() =~= v);
}

/// A closed circuit breaker opens at an unsafe check that makes ten violations, and an open
/// one is open for 3600 ticks after the last violation.
pub proof fn law_breaker_opens_and_closes(m: SafetyView, safe: bool, tick: u64)
    ensures
        !m.tripped(tick) ==> (m.recorded(safe, tick).open <==> !safe && within_window(
            m.recorded(safe, tick).recent,
            tick,
        ) >= 10),
        m.open && m.recent.len() > 0 ==> (m.tripped(tick) <==> tick < m.recent.last() + 3600),
        !m.open || m.recent.len() == 0 ==> !m.tripped(tick),
{
}

} // verus!
