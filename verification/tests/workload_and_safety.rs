use mi_thermald::ai::safety::{SafetyMonitor, MAX_VIOLATIONS, VIOLATION_WINDOW_TICKS};
use mi_thermald::ai::workload::{LoadReading, ProfileReading, WorkloadDetector, WorkloadMode};
use mi_thermald::thermal_profile::{ThermalProfileManager, THERMAL_SCONFIG_NODE};
use mi_thermald::types::Sensor;

fn load(cpu: i64, gpu: i64) -> LoadReading {
    LoadReading { cpu_load: cpu, gpu_freq_ratio: gpu, screen_on: true }
}

fn quiet() -> ProfileReading<'static> {
    ProfileReading { now_ms: 0, content: None }
}

fn sensor(name: &str, mc: i32) -> Sensor {
    let mut s = Sensor::new(name);
    s.last_temp_mc = mc;
    s
}

#[test]
fn profiles_map_to_workloads() {
    let m = ThermalProfileManager::new(0);
    let expected = [
        (0, None),
        (6, Some(WorkloadMode::Benchmark)),
        (10, Some(WorkloadMode::Benchmark)),
        (40, Some(WorkloadMode::Benchmark)),
        (18, Some(WorkloadMode::PerfGaming)),
        (39, Some(WorkloadMode::PerfGaming)),
        (19, Some(WorkloadMode::Gaming)),
        (20, Some(WorkloadMode::Gaming)),
        (12, Some(WorkloadMode::Moderate)),
        (42, Some(WorkloadMode::Moderate)),
        (61, Some(WorkloadMode::Moderate)),
        (7, Some(WorkloadMode::Light)),
        (41, Some(WorkloadMode::Light)),
        (99, None),
    ];
    for (id, mode) in expected {
        assert_eq!(m.profile_to_workload(id), mode);
    }
    assert_eq!(THERMAL_SCONFIG_NODE, "/sys/class/thermal/thermal_message/sconfig");
    assert!(ThermalProfileManager::is_sconfig_available(true));
}

#[test]
fn profile_reads_are_rate_limited() {
    let mut m = ThermalProfileManager::new(5_000);
    assert_eq!(m.read_sconfig(5_999, Some("19\n")), None);
    assert_eq!(m.read_sconfig(6_000, Some(" 19\n")), Some(19));
    assert_eq!(m.current_profile(), 19);
    assert_eq!(m.read_sconfig(6_500, Some("20")), Some(19));
    assert_eq!(m.read_sconfig(7_000, Some("junk")), None);
    assert_eq!(m.current_profile(), 19);
    assert_eq!(m.read_sconfig(8_000, None), None);
    assert_eq!(m.read_sconfig(9_000, Some("0")), Some(0));
    assert_eq!(m.read_sconfig(9_001, Some("6")), None);
    assert!(m.is_due(10_000));
}

#[test]
fn announced_profiles_decide_at_once() {
    let mut d = WorkloadDetector::new(true, 0);
    let p = ProfileReading { now_ms: 1_000, content: Some("18") };
    assert_eq!(d.detect_workload(load(0, 0), &p), WorkloadMode::PerfGaming);
    let p = ProfileReading { now_ms: 2_000, content: Some("0") };
    assert_eq!(d.detect_workload(load(200_000, 0), &p), WorkloadMode::Light);
    let p = ProfileReading { now_ms: 3_000, content: Some("0") };
    assert_eq!(d.detect_workload(load(400_000, 0), &p), WorkloadMode::Moderate);
}

#[test]
fn sensors_classify_with_hysteresis() {
    let mut d = WorkloadDetector::new(false, 0);
    for _ in 0..20 {
        assert_eq!(d.detect_workload(load(150_000, 0), &quiet()), WorkloadMode::Light);
    }
    // However long Light has held, one tick of another load changes nothing.
    assert_eq!(d.detect_workload(load(350_000, 0), &quiet()), WorkloadMode::Light);
    assert_eq!(d.detect_workload(load(150_000, 0), &quiet()), WorkloadMode::Light);
    for _ in 0..9 {
        assert_eq!(d.detect_workload(load(350_000, 0), &quiet()), WorkloadMode::Light);
    }
    assert_eq!(d.detect_workload(load(350_000, 0), &quiet()), WorkloadMode::Moderate);
    let mut off = load(900_000, 900_000);
    off.screen_on = false;
    for _ in 0..9 {
        assert_eq!(d.detect_workload(off, &quiet()), WorkloadMode::Moderate);
    }
    assert_eq!(d.detect_workload(off, &quiet()), WorkloadMode::Idle);
}

#[test]
fn a_run_that_breaks_off_starts_again() {
    let mut d = WorkloadDetector::new(false, 0);
    for _ in 0..9 {
        d.detect_workload(load(350_000, 0), &quiet());
    }
    // Another candidate takes the place of the first.
    assert_eq!(d.detect_workload(load(50_000, 0), &quiet()), WorkloadMode::Light);
    for _ in 0..9 {
        assert_eq!(d.detect_workload(load(350_000, 0), &quiet()), WorkloadMode::Light);
    }
    assert_eq!(d.detect_workload(load(350_000, 0), &quiet()), WorkloadMode::Moderate);
}

#[test]
fn a_mode_that_is_called_for_again_and_again_is_taken_over() {
    let mut d = WorkloadDetector::new(false, 0);
    assert_eq!(d.update_mode(WorkloadMode::Moderate), WorkloadMode::Light);
    for _ in 2..20 {
        d.update_mode(WorkloadMode::Moderate);
    }
    assert_eq!(d.update_mode(WorkloadMode::Moderate), WorkloadMode::Moderate);
    assert_eq!(d.update_mode(WorkloadMode::Light), WorkloadMode::Moderate);
}

#[test]
fn sustained_load_is_gaming_and_extreme_load_benchmark() {
    let mut d = WorkloadDetector::new(false, 0);
    for _ in 0..9 {
        assert_eq!(d.detect_workload(load(600_000, 800_000), &quiet()), WorkloadMode::Light);
    }
    for _ in 9..39 {
        assert_eq!(d.detect_workload(load(600_000, 800_000), &quiet()), WorkloadMode::Moderate);
    }
    assert_eq!(d.detect_workload(load(600_000, 800_000), &quiet()), WorkloadMode::Gaming);
    assert_eq!(d.high_load_ticks, 40);

    let mut d = WorkloadDetector::new(false, 0);
    for _ in 0..9 {
        assert_eq!(d.detect_workload(load(900_000, 0), &quiet()), WorkloadMode::Light);
    }
    for _ in 9..69 {
        assert_eq!(d.detect_workload(load(900_000, 0), &quiet()), WorkloadMode::Moderate);
    }
    assert_eq!(d.detect_workload(load(900_000, 0), &quiet()), WorkloadMode::Benchmark);
    assert_eq!(d.extreme_load_ticks, 70);
    d.detect_workload(load(100_000, 0), &quiet());
    assert_eq!(d.extreme_load_ticks, 68);
}

#[test]
fn modes_are_normalized() {
    assert_eq!(WorkloadMode::Idle.to_normalized(), 0);
    assert_eq!(WorkloadMode::Gaming.to_normalized(), 650_000);
    assert_eq!(WorkloadMode::Benchmark.to_normalized(), 1_000_000);
    assert_eq!(WorkloadDetector::gpu_freq_ratio(550, 1_100), 500_000);
    assert_eq!(WorkloadDetector::gpu_freq_ratio(1_200, 1_100), 1_000_000);
    assert_eq!(WorkloadDetector::gpu_freq_ratio(-1, 1_100), 0);
}

#[test]
fn cooling_actions_are_always_safe() {
    let m = SafetyMonitor::new();
    let hot = vec![sensor("CPU-0-0", 90_000), sensor("battery", 60_000)];
    for a in 0..=1 {
        assert!(m.is_action_safe(a, &hot));
    }
    for a in 2..=9 {
        assert!(!m.is_action_safe(a, &hot));
    }
}

#[test]
fn battery_limits_depend_on_the_workload() {
    let mut m = SafetyMonitor::new();
    let warm = vec![sensor("Battery_Temp", 36_000), sensor("cpu0", 85_000)];
    assert!(m.is_action_safe(9, &warm));
    assert!(m.is_action_safe(4, &warm));
    assert!(!m.is_action_safe(5, &warm));
    let over = vec![sensor("battery", 38_001)];
    assert!(!m.is_action_safe(9, &over));
    assert!(!m.is_action_safe(3, &over));
    m.set_workload_mode(WorkloadMode::Benchmark);
    assert!(m.is_action_safe(9, &over));
    assert!(m.is_action_safe(5, &over));
}

#[test]
fn other_battery_readings_are_no_temperatures() {
    let m = SafetyMonitor::new();
    let v = vec![sensor("battery_current", 900_000), sensor("battery_voltage", 4_200_000)];
    assert!(m.is_action_safe(9, &v));
    assert!(!m.is_hazard(&v));
}

#[test]
fn only_emergencies_trip_the_breaker() {
    let mut m = SafetyMonitor::new();
    let warm = vec![sensor("battery", 39_000)];
    for tick in 1..=100 {
        assert!(!m.check_action(9, &warm, tick));
    }
    assert_eq!(m.violations(), 0);
    let hot = vec![sensor("tsens3", 85_001)];
    for tick in 101..=109 {
        assert!(!m.check_action(9, &hot, tick));
        assert!(!m.is_disabled(tick));
    }
    m.check_action(0, &hot, 110);
    assert_eq!(m.violations(), MAX_VIOLATIONS);
    assert!(m.is_disabled(110));
    // The breaker closes a window after the last of the ten.
    assert!(m.is_disabled(110 + VIOLATION_WINDOW_TICKS - 1));
    assert!(!m.is_disabled(110 + VIOLATION_WINDOW_TICKS));
    m.record_check(true, 101 + VIOLATION_WINDOW_TICKS);
    assert_eq!(m.violations(), 10);
    m.record_check(true, 102 + VIOLATION_WINDOW_TICKS);
    assert_eq!(m.violations(), 9);
    m.record_check(true, 111 + VIOLATION_WINDOW_TICKS);
    assert_eq!(m.violations(), 0);
}

#[test]
fn violations_far_apart_do_not_trip_the_breaker() {
    let mut m = SafetyMonitor::new();
    for k in 1..=30 {
        m.record_check(false, k * 3_000);
        assert!(!m.is_disabled(k * 3_000));
        assert!(m.violations() <= 2);
    }
    // The last two of them count still.
    for k in 1..=7 {
        m.record_check(false, 90_000 + k);
        assert!(!m.is_disabled(90_000 + k));
    }
    m.record_check(false, 90_008);
    assert!(m.is_disabled(90_008));
}

#[test]
fn ten_violations_open_the_breaker_for_a_window() {
    let mut m = SafetyMonitor::new();
    for k in 1..=9 {
        m.record_check(false, k);
    }
    assert!(!m.is_disabled(10));
    m.record_check(false, 10);
    assert!(m.is_disabled(10) && m.is_disabled(3_609) && !m.is_disabled(3_610));
}

#[test]
fn an_open_breaker_waits_for_the_last_violation() {
    let mut m = SafetyMonitor::new();
    for k in 0..10 {
        m.record_check(false, 1 + 399 * k);
        assert_eq!(m.is_disabled(1 + 399 * k), k == 9);
    }
    // The first of the ten leaves the window; the tenth came at 3592.
    m.record_check(true, 3_602);
    assert_eq!(m.violations(), 9);
    assert!(m.is_disabled(3_602));
    assert!(m.is_disabled(3_592 + 3_599));
    // A violation while it is open holds it open for another window.
    m.record_check(false, 7_000);
    assert!(m.is_disabled(7_000 + 3_599));
    assert!(!m.is_disabled(7_000 + 3_600));
}

#[test]
fn a_closed_breaker_counts_to_ten_again() {
    let mut m = SafetyMonitor::new();
    for k in 1..=10 {
        m.record_check(false, k);
    }
    assert!(m.is_disabled(10));
    m.record_check(false, 10 + 3_600);
    assert!(!m.is_disabled(10 + 3_600));
    for k in 1..=7 {
        m.record_check(false, 10 + 3_600 + k);
        assert!(!m.is_disabled(10 + 3_600 + k));
    }
    m.record_check(false, 3_618);
    assert!(!m.is_disabled(3_618));
    m.record_check(false, 3_619);
    assert!(m.is_disabled(3_619));
}
