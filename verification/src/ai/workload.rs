//! Workload classification, from the announced profile where there is one, else
//! from processor load with hysteresis.

use vstd::prelude::*;

#[allow(unused_imports)]
use crate::arith::lower_of;
use crate::thermal_profile::ThermalProfileManager;
#[allow(unused_imports)]
use crate::thermal_profile::profile_workload;

verus! {

#[derive(Debug, Clone, Copy, PartialEq, Eq, Structural)]
pub enum WorkloadMode {
    /// Screen off or very low activity.
    Idle,
    /// Browsing, messaging.
    Light,
    /// Video playback, light apps.
    Moderate,
    /// High sustained load.
    Gaming,
    /// High sustained load that favours performance.
    PerfGaming,
    /// Extreme synthetic load.
    Benchmark,
}

impl WorkloadMode {
    /// The position of the mode between 0 and one, in millionths.
    pub open spec fn normalized(self) -> i64 {
        match self {
            WorkloadMode::Idle => 0,
            WorkloadMode::Light => 250_000,
            WorkloadMode::Moderate => 500_000,
            WorkloadMode::Gaming => 650_000,
            WorkloadMode::PerfGaming => 750_000,
            WorkloadMode::Benchmark => 1_000_000,
        }
    }

    pub fn to_normalized(&self) -> (r: i64)
        ensures
            r == self.normalized(),
    {
        match self {
            WorkloadMode::Idle => 0,
            WorkloadMode::Light => 250_000,
            WorkloadMode::Moderate => 500_000,
            WorkloadMode::Gaming => 650_000,
            WorkloadMode::PerfGaming => 750_000,
            WorkloadMode::Benchmark => 1_000_000,
        }
    }
}

/// Counts never run over.
pub open spec fn counted(n: u64) -> u64 {
    lower_of(n + 1, u64::MAX as int) as u64
}

/// What a tick that does not extend a run leaves of it.
pub open spec fn faded(n: u64) -> u64 {
    if n < 2 {
        0
    } else {
        (n - 2) as u64
    }
}

pub fn count_up(n: u64) -> (r: u64)
    ensures
        r == counted(n),
{
    if n < u64::MAX {
        n + 1
    } else {
        n
    }
}

fn fade(n: u64) -> (r: u64)
    ensures
        r == faded(n),
{
    if n < 2 {
        0
    } else {
        n - 2
    }
}

#[derive(Debug, Clone, Copy, PartialEq, Eq, Structural)]
pub struct WorkloadDetector {
    /// Ticks of high processor and graphics load.
    pub high_load_ticks: u64,
    /// Ticks of extreme processor load.
    pub extreme_load_ticks: u64,
    pub last_mode: WorkloadMode,
    /// The other mode that was called for last.
    pub candidate: WorkloadMode,
    /// The ticks in a row that called for the candidate.
    pub candidate_ticks: u64,
    /// The ticks in a row after which a candidate is taken over.
    pub mode_switch_threshold: u64,
    pub profile_manager: ThermalProfileManager,
    pub sconfig_available: bool,
    /// The next mode change skips the hysteresis.
    pub force_mode_update: bool,
}

/// What the sensors say of the load, in millionths.
#[derive(Debug, Clone, Copy, PartialEq, Eq, Structural)]
pub struct LoadReading {
    pub cpu_load: i64,
    pub gpu_freq_ratio: i64,
    pub screen_on: bool,
}

/// The announced profile at some time.
pub struct ProfileReading<'a> {
    pub now_ms: u64,
    pub content: Option<&'a str>,
}

/// A detector that has seen nothing yet.
pub open spec fn fresh_detector(sconfig_available: bool, now_ms: u64) -> WorkloadDetector {
    WorkloadDetector {
        high_load_ticks: 0,
        extreme_load_ticks: 0,
        last_mode: WorkloadMode::Light,
        candidate: WorkloadMode::Light,
        candidate_ticks: 0,
        mode_switch_threshold: 10,
        profile_manager: ThermalProfileManager {
            current_profile_id: 0,
            last_check_ms: now_ms,
            check_interval_ms: 1000,
        },
        sconfig_available,
        force_mode_update: false,
    }
}

impl WorkloadDetector {
    /// The mode that the load alone calls for, once the runs are counted.
    pub open spec fn mode_of_load(self, load: LoadReading) -> WorkloadMode {
        if self.high_load_ticks > 30 {
            WorkloadMode::Gaming
        } else if self.extreme_load_ticks > 60 {
            WorkloadMode::Benchmark
        } else if load.cpu_load > 300_000 || load.gpu_freq_ratio > 500_000 {
            WorkloadMode::Moderate
        } else if load.cpu_load > 100_000 {
            WorkloadMode::Light
        } else {
            WorkloadMode::Idle
        }
    }

    /// The runs of high and extreme load after a tick.
    pub open spec fn with_runs(self, load: LoadReading) -> Self {
        WorkloadDetector {
            high_load_ticks: if load.cpu_load > 500_000 && load.gpu_freq_ratio > 700_000 {
                counted(self.high_load_ticks)
            } else {
                faded(self.high_load_ticks)
            },
            extreme_load_ticks: if load.cpu_load > 800_000 {
                counted(self.extreme_load_ticks)
            } else {
                faded(self.extreme_load_ticks)
            },
            ..self
        }
    }

    /// The ticks in a row that call for a mode, with this one.
    pub open spec fn run_of(self, mode: WorkloadMode) -> u64 {
        if mode == self.candidate {
            counted(self.candidate_ticks)
        } else {
            1
        }
    }

    /// The detector after a mode is called for; `last_mode` is the mode that
    /// holds then. Another mode is taken over once it was called for in as many
    /// ticks in a row as the threshold says, or at once where the change is
    /// forced.
    pub open spec fn with_mode(self, mode: WorkloadMode) -> Self {
        if mode == self.last_mode {
            WorkloadDetector { candidate_ticks: 0, force_mode_update: false, ..self }
        } else if self.force_mode_update || self.run_of(mode) >= self.mode_switch_threshold {
            WorkloadDetector {
                last_mode: mode,
                candidate_ticks: 0,
                force_mode_update: false,
                ..self
            }
        } else {
            WorkloadDetector { candidate: mode, candidate_ticks: self.run_of(mode), ..self }
        }
    }

    /// The detector after the sensors are consulted.
    pub open spec fn by_sensors(self, load: LoadReading) -> Self {
        if !load.screen_on {
            WorkloadDetector { high_load_ticks: 0, extreme_load_ticks: 0, ..self }.with_mode(
                WorkloadMode::Idle,
            )
        } else {
            self.with_runs(load).with_mode(self.with_runs(load).mode_of_load(load))
        }
    }

    /// The detector after a profile is announced.
    pub open spec fn by_profile(self, mode: WorkloadMode) -> Self {
        WorkloadDetector { last_mode: mode, candidate_ticks: 0, ..self }
    }

    /// The detector after a tick; `last_mode` is the detected mode.
    pub open spec fn detected(self, load: LoadReading, profile: ProfileReading) -> Self {
        if !self.sconfig_available {
            self.by_sensors(load)
        } else {
            let (manager, id) = self.profile_manager.read(profile.now_ms, profile.content);
            let d = WorkloadDetector { profile_manager: manager, ..self };
            match id {
                None => d.by_sensors(load),
                Some(id) => if id == 0 {
                    WorkloadDetector {
                        high_load_ticks: 0,
                        extreme_load_ticks: 0,
                        candidate_ticks: 0,
                        force_mode_update: true,
                        ..d
                    }.by_sensors(load)
                } else {
                    match profile_workload(id) {
                        Some(mode) => d.by_profile(mode),
                        None => d.by_sensors(load),
                    }
                },
            }
        }
    }

    pub fn new(sconfig_available: bool, now_ms: u64) -> (r: Self)
        ensures
            r == fresh_detector(sconfig_available, now_ms),
    {
        WorkloadDetector {
            high_load_ticks: 0,
            extreme_load_ticks: 0,
            last_mode: WorkloadMode::Light,
            candidate: WorkloadMode::Light,
            candidate_ticks: 0,
            mode_switch_threshold: 10,
            profile_manager: ThermalProfileManager::new(now_ms),
            sconfig_available,
            force_mode_update: false,
        }
    }

    /// Detects the workload. An announced profile decides at once; otherwise
    /// the sensors decide, with hysteresis. Profile 0 starts the sensors afresh.
    pub fn detect_workload(&mut self, load: LoadReading, profile: &ProfileReading) -> (r:
        WorkloadMode)
        requires
            old(self).profile_manager.last_check_ms <= profile.now_ms,
        ensures
            *final(self) == old(self).detected(load, *profile),
            r == final(self).last_mode,
            final(self).profile_manager.last_check_ms <= profile.now_ms,
    {
        if self.sconfig_available {
            match self.profile_manager.read_sconfig(profile.now_ms, profile.content) {
                Some(id) => {
                    if id == 0 {
                        self.high_load_ticks = 0;
                        self.extreme_load_ticks = 0;
                        self.candidate_ticks = 0;
                        self.force_mode_update = true;
                    } else {
                        match self.profile_manager.profile_to_workload(id) {
                            Some(mode) => {
                                self.last_mode = mode;
                                self.candidate_ticks = 0;
                                return mode;
                            },
                            None => {},
                        }
                    }
                },
                None => {},
            }
        }
        self.detect_workload_sensors(load)
    }

    fn detect_workload_sensors(&mut self, load: LoadReading) -> (r: WorkloadMode)
        ensures
            *final(self) == old(self).by_sensors(load),
            r == final(self).last_mode,
    {
        if !load.screen_on {
            self.high_load_ticks = 0;
            self.extreme_load_ticks = 0;
            return self.update_mode(WorkloadMode::Idle);
        }
        if load.cpu_load > 500_000 && load.gpu_freq_ratio > 700_000 {
            self.high_load_ticks = count_up(self.high_load_ticks);
        } else {
            self.high_load_ticks = fade(self.high_load_ticks);
        }
        if load.cpu_load > 800_000 {
            self.extreme_load_ticks = count_up(self.extreme_load_ticks);
        } else {
            self.extreme_load_ticks = fade(self.extreme_load_ticks);
        }
        let mode = if self.high_load_ticks > 30 {
            WorkloadMode::Gaming
        } else if self.extreme_load_ticks > 60 {
            WorkloadMode::Benchmark
        } else if load.cpu_load > 300_000 || load.gpu_freq_ratio > 500_000 {
            WorkloadMode::Moderate
        } else if load.cpu_load > 100_000 {
            WorkloadMode::Light
        } else {
            WorkloadMode::Idle
        };
        self.update_mode(mode)
    }

    /// Calls for a mode. Returns the mode that holds then.
    pub fn update_mode(&mut self, new_mode: WorkloadMode) -> (r: WorkloadMode)
        ensures
            *final(self) == old(self).with_mode(new_mode),
            r == final(self).last_mode,
    {
        if new_mode == self.last_mode {
            self.candidate_ticks = 0;
            self.force_mode_update = false;
            return new_mode;
        }
        let run: u64 = if new_mode == self.candidate {
            count_up(self.candidate_ticks)
        } else {
            1
        };
        if self.force_mode_update || run >= self.mode_switch_threshold {
            self.last_mode = new_mode;
            self.candidate_ticks = 0;
            self.force_mode_update = false;
        } else {
            self.candidate = new_mode;
            self.candidate_ticks = run;
        }
        self.last_mode
    }

    /// The share of the graphics frequency in its maximum, in millionths.
    pub open spec fn gpu_ratio(cur: i32, max: i32) -> i64 {
        if cur > 0 && max > 0 {
            lower_of((cur * 1_000_000) / (max as int), 1_000_000) as i64
        } else {
            0
        }
    }

    pub fn gpu_freq_ratio(cur: i32, max: i32) -> (r: i64)
        ensures
            r == WorkloadDetector::gpu_ratio(cur, max),
            0 <= r <= 1_000_000,
    {
        if cur > 0 && max > 0 {
            let q: u64 = (cur as u64 * 1_000_000) / (max as u64);
            proof {
                assert(q >= 0);
            }
            if q < 1_000_000 {
                q as i64
            } else {
                1_000_000
            }
        } else {
            0
        }
    }
}

// ---------------------------------------------------------------------------
// Laws
// ---------------------------------------------------------------------------

/// An announced profile with a workload of its own decides at once.
pub proof fn law_profile_decides(d: WorkloadDetector, load: LoadReading, profile: ProfileReading)
    requires
        d.sconfig_available,
        d.profile_manager.read(profile.now_ms, profile.content).1 matches Some(id)
            && profile_workload(id) is Some,
    ensures
        d.detected(load, profile).last_mode == profile_workload(
            d.profile_manager.read(profile.now_ms, profile.content).1->Some_0,
        )->Some_0,
{
}

/// A detector after `n` ticks in a row that call for a mode.
pub open spec fn after_calls(d: WorkloadDetector, mode: WorkloadMode, n: nat) -> WorkloadDetector
    decreases n,
{
    if n == 0 {
        d
    } else {
        after_calls(d, mode, (n - 1) as nat).with_mode(mode)
    }
}

proof fn lemma_calls(d: WorkloadDetector, mode: WorkloadMode, n: nat)
    requires
        mode != d.last_mode,
        d.candidate_ticks == 0,
        !d.force_mode_update,
        0 < n < d.mode_switch_threshold,
    ensures
        ({
            let e = after_calls(d, mode, n);
            &&& e.last_mode == d.last_mode
            &&& e.candidate == mode
            &&& e.candidate_ticks == n
            &&& !e.force_mode_update
            &&& e.mode_switch_threshold == d.mode_switch_threshold
        }),
    decreases n,
{
    if n > 1 {
        lemma_calls(d, mode, (n - 1) as nat);
    } else {
        assert(after_calls(d, mode, 0) == d);
    }
}

/// Without a profile, a mode holds as long as no other one is called for in as many
/// ticks in a row as the threshold says.
pub proof fn law_hysteresis_holds_mode(d: WorkloadDetector, mode: WorkloadMode, n: nat)
    requires
        !d.force_mode_update,
        d.candidate_ticks == 0,
        n < d.mode_switch_threshold,
    ensures
        after_calls(d, mode, n).last_mode == d.last_mode,
    decreases n,
{
    if n > 0 {
        if mode != d.last_mode {
            lemma_calls(d, mode, n);
        } else {
            lemma_same_mode(d, n);
        }
    }
}

proof fn lemma_same_mode(d: WorkloadDetector, n: nat)
    ensures
        after_calls(d, d.last_mode, n).last_mode == d.last_mode,
    decreases n,
{
    if n > 0 {
        lemma_same_mode(d, (n - 1) as nat);
    }
}

/// A mode that is called for in as many ticks in a row as the threshold says, or
/// more, is taken over, whatever was called for before.
pub proof fn law_persistent_mode_is_taken_over(d: WorkloadDetector, mode: WorkloadMode, n: nat)
    requires
        n > 0,
        n >= d.mode_switch_threshold,
    ensures
        after_calls(d, mode, n).last_mode == mode,
{
    lemma_progress(d, mode, n);
}

/// After `n` calls the mode is taken over, or it is the candidate of as many ticks.
spec fn advanced(d: WorkloadDetector, e: WorkloadDetector, mode: WorkloadMode, n: int) -> bool {
    &&& e.mode_switch_threshold == d.mode_switch_threshold
    &&& e.last_mode == mode || (e.candidate == mode && e.candidate_ticks >= n && n
        < d.mode_switch_threshold)
}

proof fn lemma_advanced(d: WorkloadDetector, e: WorkloadDetector, mode: WorkloadMode, n: int)
    requires
        n >= 0,
        n > 0 ==> advanced(d, e, mode, n),
        n == 0 ==> e.mode_switch_threshold == d.mode_switch_threshold,
    ensures
        advanced(d, e.with_mode(mode), mode, n + 1),
{
}

proof fn lemma_progress(d: WorkloadDetector, mode: WorkloadMode, n: nat)
    requires
        n > 0,
    ensures
        advanced(d, after_calls(d, mode, n), mode, n as int),
    decreases n,
{
    if n > 1 {
        lemma_progress(d, mode, (n - 1) as nat);
    } else {
        assert(after_calls(d, mode, 0) == d);
    }
    lemma_advanced(d, after_calls(d, mode, (n - 1) as nat), mode, n - 1);
}

/// Profile 0 hands over to the sensors without hysteresis.
pub proof fn law_reset_skips_hysteresis(
    d: WorkloadDetector,
    load: LoadReading,
    profile: ProfileReading,
)
    requires
        d.sconfig_available,
        d.profile_manager.read(profile.now_ms, profile.content).1 == Some(0u32),
    ensures
        d.detected(load, profile).last_mode == (if !load.screen_on {
            WorkloadMode::Idle
        } else if load.cpu_load > 300_000 || load.gpu_freq_ratio > 500_000 {
            WorkloadMode::Moderate
        } else if load.cpu_load > 100_000 {
            WorkloadMode::Light
        } else {
            WorkloadMode::Idle
        }),
{
}

/// `n` ticks of the same load.
pub open spec fn after_ticks(d: WorkloadDetector, load: LoadReading, n: nat) -> WorkloadDetector
    decreases n,
{
    if n == 0 {
        d
    } else {
        after_ticks(d, load, (n - 1) as nat).by_sensors(load)
    }
}

/// Is the load high, on processor and graphics?
pub open spec fn is_high_load(load: LoadReading) -> bool {
    load.screen_on && load.cpu_load > 500_000 && load.gpu_freq_ratio > 700_000
}

/// Is the load extreme, on the processor alone?
pub open spec fn is_extreme_load(load: LoadReading) -> bool {
    load.screen_on && load.cpu_load > 800_000 && load.gpu_freq_ratio <= 700_000
}

proof fn lemma_high_run(d: WorkloadDetector, load: LoadReading, n: nat)
    requires
        is_high_load(load),
    ensures
        after_ticks(d, load, n).high_load_ticks >= lower_of(n as int, 31),
        after_ticks(d, load, n).mode_switch_threshold == d.mode_switch_threshold,
    decreases n,
{
    if n > 0 {
        lemma_high_run(d, load, (n - 1) as nat);
    }
}

proof fn lemma_gaming_progress(d: WorkloadDetector, load: LoadReading, n: nat)
    requires
        is_high_load(load),
        n > 30,
    ensures
        advanced(d, after_ticks(d, load, n), WorkloadMode::Gaming, n - 30),
    decreases n,
{
    let before = after_ticks(d, load, (n - 1) as nat);
    lemma_high_run(d, load, (n - 1) as nat);
    if n > 31 {
        lemma_gaming_progress(d, load, (n - 1) as nat);
    }
    assert(before.with_runs(load).high_load_ticks > 30);
    lemma_advanced(d, before.with_runs(load), WorkloadMode::Gaming, n - 31);
}

/// High load that has lasted for 30 ticks and the hysteresis is gaming, whatever
/// came before it.
pub proof fn law_sustained_load_means_gaming(d: WorkloadDetector, load: LoadReading, n: nat)
    requires
        is_high_load(load),
        n > 30,
        n >= 30 + d.mode_switch_threshold,
    ensures
        after_ticks(d, load, n).last_mode == WorkloadMode::Gaming,
{
    lemma_gaming_progress(d, load, n);
}

proof fn lemma_extreme_run(d: WorkloadDetector, load: LoadReading, n: nat)
    requires
        is_extreme_load(load),
        d.high_load_ticks <= 30,
    ensures
        after_ticks(d, load, n).extreme_load_ticks >= lower_of(n as int, 61),
        after_ticks(d, load, n).high_load_ticks <= 30,
        after_ticks(d, load, n).mode_switch_threshold == d.mode_switch_threshold,
    decreases n,
{
    if n > 0 {
        lemma_extreme_run(d, load, (n - 1) as nat);
    }
}

proof fn lemma_benchmark_progress(d: WorkloadDetector, load: LoadReading, n: nat)
    requires
        is_extreme_load(load),
        d.high_load_ticks <= 30,
        n > 60,
    ensures
        advanced(d, after_ticks(d, load, n), WorkloadMode::Benchmark, n - 60),
    decreases n,
{
    let before = after_ticks(d, load, (n - 1) as nat);
    lemma_extreme_run(d, load, (n - 1) as nat);
    if n > 61 {
        lemma_benchmark_progress(d, load, (n - 1) as nat);
    }
    assert(before.with_runs(load).extreme_load_ticks > 60);
    lemma_advanced(d, before.with_runs(load), WorkloadMode::Benchmark, n - 61);
}

/// Extreme processor load that has lasted for 60 ticks and the hysteresis is a
/// benchmark, where no run of high load is on.
pub proof fn law_extreme_load_means_benchmark(d: WorkloadDetector, load: LoadReading, n: nat)
    requires
        is_extreme_load(load),
        d.high_load_ticks <= 30,
        n > 60,
        n >= 60 + d.mode_switch_threshold,
    ensures
        after_ticks(d, load, n).last_mode == WorkloadMode::Benchmark,
{
    lemma_benchmark_progress(d, load, n);
}

/// The modes stand between idle and benchmark in this order.
pub proof fn law_modes_in_order()
    ensures
        WorkloadMode::Idle.normalized() == 0,
        4 * WorkloadMode::Light.normalized() == 1_000_000,
        2 * WorkloadMode::Moderate.normalized() == 1_000_000,
        20 * WorkloadMode::Gaming.normalized() == 13 * 1_000_000,
        4 * WorkloadMode::PerfGaming.normalized() == 3 * 1_000_000,
        WorkloadMode::Benchmark.normalized() == 1_000_000,
{
}

/// A tick of high load lengthens the run of high load by one, any other shortens it by
/// two; so it is with extreme load. A dark screen ends both.
pub proof fn law_runs_of_load(d: WorkloadDetector, load: LoadReading)
    requires
        d.high_load_ticks < u64::MAX,
        d.extreme_load_ticks < u64::MAX,
    ensures
        ({
            let e = d.by_sensors(load);
            let high = load.cpu_load > 500_000 && load.gpu_freq_ratio > 700_000;
            let extreme = load.cpu_load > 800_000;
            &&& !load.screen_on ==> e.high_load_ticks == 0 && e.extreme_load_ticks == 0
            &&& load.screen_on && high ==> e.high_load_ticks == d.high_load_ticks + 1
            &&& load.screen_on && !high && d.high_load_ticks >= 2 ==> e.high_load_ticks
                == d.high_load_ticks - 2
            &&& load.screen_on && !high && d.high_load_ticks < 2 ==> e.high_load_ticks == 0
            &&& load.screen_on && extreme ==> e.extreme_load_ticks == d.extreme_load_ticks + 1
            &&& load.screen_on && !extreme && d.extreme_load_ticks >= 2 ==> e.extreme_load_ticks
                == d.extreme_load_ticks - 2
            &&& load.screen_on && !extreme && d.extreme_load_ticks < 2 ==> e.extreme_load_ticks == 0
        }),
{
}

/// The mode that a load of the processor and graphics means while no run of high or extreme
/// load is on.
pub open spec fn plain_mode(load: LoadReading) -> WorkloadMode {
    if !load.screen_on {
        WorkloadMode::Idle
    } else if load.cpu_load > 300_000 || load.gpu_freq_ratio > 500_000 {
        WorkloadMode::Moderate
    } else if load.cpu_load > 100_000 {
        WorkloadMode::Light
    } else {
        WorkloadMode::Idle
    }
}

proof fn lemma_plain_progress(d: WorkloadDetector, load: LoadReading, n: nat)
    requires
        load.cpu_load <= 500_000,
        d.high_load_ticks <= 30,
        d.extreme_load_ticks <= 60,
        n > 0,
    ensures
        advanced(d, after_ticks(d, load, n), plain_mode(load), n as int),
        after_ticks(d, load, n).high_load_ticks <= 30,
        after_ticks(d, load, n).extreme_load_ticks <= 60,
    decreases n,
{
    let before = after_ticks(d, load, (n - 1) as nat);
    if n > 1 {
        lemma_plain_progress(d, load, (n - 1) as nat);
    }
    if load.screen_on {
        lemma_advanced(d, before.with_runs(load), plain_mode(load), n - 1);
    } else {
        lemma_advanced(
            d,
            WorkloadDetector { high_load_ticks: 0, extreme_load_ticks: 0, ..before },
            plain_mode(load),
            n - 1,
        );
    }
}

/// A load that is neither high nor extreme, and lasts for the hysteresis, means the mode of
/// its class: moderate above 30% of the processor or 50% of the graphics, light above 10%,
/// else idle, as it does with a dark screen.
pub proof fn law_lasting_load_means_its_class(d: WorkloadDetector, load: LoadReading, n: nat)
    requires
        load.cpu_load <= 500_000,
        d.high_load_ticks <= 30,
        d.extreme_load_ticks <= 60,
        n > 0,
        n >= d.mode_switch_threshold,
    ensures
        after_ticks(d, load, n).last_mode == plain_mode(load),
{
    lemma_plain_progress(d, load, n);
}

/// A detector starts in the light mode, with a hysteresis of ten ticks.
pub proof fn law_fresh_detector(sconfig_available: bool, now_ms: u64)
    ensures
        ({
            let d = fresh_detector(sconfig_available, now_ms);
            &&& d.last_mode == WorkloadMode::Light
            &&& d.mode_switch_threshold == 10
            &&& d.high_load_ticks == 0
            &&& d.extreme_load_ticks == 0
            &&& d.candidate_ticks == 0
            &&& !d.force_mode_update
            &&& d.profile_manager.check_interval_ms == 1000
            &&& d.profile_manager.current_profile_id == 0
        }),
{
}

/// The graphics frequency is a share of its greatest, at most one, and 0 where either is
/// unknown.
pub proof fn law_graphics_share(cur: i32, max: i32)
    ensures
        ({
            let r = WorkloadDetector::gpu_ratio(cur, max);
            &&& cur <= 0 || max <= 0 ==> r == 0
            &&& 0 < cur <= max ==> r * max <= cur * 1_000_000 < r * max + max
            &&& 0 < max <= cur ==> r == 1_000_000
        }),
{
    if cur > 0 && max > 0 {
        let x = cur * 1_000_000;
        let m = max as int;
        let q = x / m;
        assert(q * m <= x < q * m + m && 0 <= q) by (nonlinear_arith)
            requires
                q == x / m,
                m > 0,
                x > 0,
        ;
        assert(cur <= max ==> q <= 1_000_000) by (nonlinear_arith)
            requires
                q * m <= x,
                x == cur * 1_000_000,
                m == max,
                m > 0,
        ;
        assert(cur >= max ==> q >= 1_000_000) by (nonlinear_arith)
            requires
                x < q * m + m,
                x == cur * 1_000_000,
                m == max,
                m > 0,
        ;
    }
}

/// Where the platform announces no profile, or one without a workload, the sensors decide.
pub proof fn law_sensors_decide_without_a_profile(
    d: WorkloadDetector,
    load: LoadReading,
    profile: ProfileReading,
)
    ensures
        !d.sconfig_available ==> d.detected(load, profile) == d.by_sensors(load),
        d.sconfig_available && d.profile_manager.read(profile.now_ms, profile.content).1 is None
            ==> d.detected(load, profile).last_mode == d.by_sensors(load).last_mode,
{
}

/// What a call for a mode leaves behind. A call for the mode that holds ends every run and
/// every forced change. A call for another one makes its run one longer, or starts it, and is
/// taken over when the run is long enough or the change is forced.
pub proof fn law_calls_for_a_mode(d: WorkloadDetector, mode: WorkloadMode)
    requires
        d.candidate_ticks < u64::MAX,
    ensures
        ({
            let after = d.with_mode(mode);
            let run = if mode == d.candidate {
                d.candidate_ticks + 1
            } else {
                1int
            };
            let taken = d.force_mode_update || run >= d.mode_switch_threshold;
            &&& mode == d.last_mode ==> after.last_mode == mode && after.candidate_ticks == 0
                && !after.force_mode_update && after.candidate == d.candidate
            &&& mode != d.last_mode && taken ==> after.last_mode == mode && after.candidate_ticks
                == 0 && !after.force_mode_update
            &&& mode != d.last_mode && !taken ==> after.last_mode == d.last_mode && after.candidate
                == mode && after.candidate_ticks == run && !after.force_mode_update
            &&& after.high_load_ticks == d.high_load_ticks
            &&& after.extreme_load_ticks == d.extreme_load_ticks
            &&& after.mode_switch_threshold == d.mode_switch_threshold
        }),
{
}

/// An announced profile ends the run of any other mode and leaves the runs of load alone.
pub proof fn law_profile_ends_the_run(d: WorkloadDetector, mode: WorkloadMode)
    ensures
        d.by_profile(mode).last_mode == mode,
        d.by_profile(mode).candidate_ticks == 0,
        d.by_profile(mode).high_load_ticks == d.high_load_ticks,
        d.by_profile(mode).extreme_load_ticks == d.extreme_load_ticks,
        d.by_profile(mode).force_mode_update == d.force_mode_update,
{
}

/// Where the default profile is announced, the load of that very tick decides, counted from
/// the start: no run from before is left.
pub proof fn law_default_profile_starts_over(
    d: WorkloadDetector,
    load: LoadReading,
    profile: ProfileReading,
)
    requires
        d.sconfig_available,
        d.profile_manager.read(profile.now_ms, profile.content).1 == Some(0u32),
    ensures
        ({
            let after = d.detected(load, profile);
            &&& after.last_mode == (if !load.screen_on {
                WorkloadMode::Idle
            } else if load.cpu_load > 300_000 || load.gpu_freq_ratio > 500_000 {
                WorkloadMode::Moderate
            } else if load.cpu_load > 100_000 {
                WorkloadMode::Light
            } else {
                WorkloadMode::Idle
            })
            &&& after.high_load_ticks <= 1 && after.extreme_load_ticks <= 1
            &&& after.candidate_ticks == 0 && !after.force_mode_update
        }),
{
}

} // verus!
