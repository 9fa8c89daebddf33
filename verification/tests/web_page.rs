use mi_thermald::ai::channels::HardwareReadings;
use mi_thermald::ai::native::NativeController;
use mi_thermald::engine::{Engine, Start};
use mi_thermald::types::{AlgoType, Sensor};
use mi_thermald::web::{
    battery_info, collect_snapshot, route, scaled_freq, web_port, BatteryReadings, CpuLoadTracker,
    Route, SnapshotReadings,
};

fn battery() -> BatteryReadings {
    BatteryReadings {
        temp: 315,
        capacity: 80,
        current_now: -1_234_567,
        status: Some("Full\n".to_string()),
        health: None,
    }
}

fn readings(channels: Vec<i32>) -> SnapshotReadings {
    SnapshotReadings {
        now_secs: 1234,
        battery: battery(),
        cpu_load: 250_000,
        cpu_freqs: vec![1_804_800, -1, 2_803_200],
        gpu_freq: 550_000_000,
        channels,
    }
}

fn sensor(name: &str, mc: i32) -> Sensor {
    let mut s = Sensor::new(name);
    s.last_temp_mc = mc;
    s
}

#[test]
fn requests_are_routed() {
    assert_eq!(route("/"), Route::Dashboard);
    assert_eq!(route("/index.html"), Route::Dashboard);
    assert_eq!(route("/api/snapshot"), Route::Snapshot);
    assert_eq!(route("/api/snapshot/"), Route::NotFound);
    assert_eq!(web_port(None), 8080);
    assert_eq!(web_port(Some("9000")), 9000);
    assert_eq!(web_port(Some("90000")), 8080);
    assert_eq!(web_port(Some(" 9000")), 8080);
}

#[test]
fn readings_are_converted() {
    let b = battery_info(&battery());
    assert_eq!((b.temp_deci, b.soc, b.current_ma, b.charging), (315, 80, 1234, true));
    assert_eq!(b.health, "Unknown");
    let mut cold = battery();
    cold.temp = -20;
    cold.current_now = i32::MIN;
    cold.status = None;
    let b = battery_info(&cold);
    assert_eq!((b.temp_deci, b.current_ma, b.charging), (0, 2_147_483, false));
    assert_eq!(scaled_freq(1_804_800, 1000), 1804);
    assert_eq!(scaled_freq(-5, 1000), 0);
    let mut t = CpuLoadTracker::new();
    assert_eq!(t.read_cpu_load(Some("cpu 10 0 0 90")), 0);
    assert_eq!(t.read_cpu_load(Some("cpu 40 0 0 160")), 300_000);
    assert_eq!(t.read_cpu_load(None), 0);
}

#[test]
fn the_snapshot_shows_the_engine() {
    let mut e = Engine::new();
    e.sensors = vec![
        sensor("CPU-1", 45_500),
        sensor("BAT_SOC", 80),
        sensor("battery_temp", 31_000),
        sensor("battery_voltage", 4_000_000),
        sensor("odd", 1),
    ];
    let w = collect_snapshot(&e, &readings(vec![]));
    assert_eq!((w.ts, w.scenario, w.mode.as_str()), (1234, 0, "traditional"));
    let shown: Vec<(&str, i32, Option<&str>)> =
        w.sensors.iter().map(|s| (s.name.as_str(), s.mc, s.grp.as_deref())).collect();
    assert_eq!(
        shown,
        vec![
            ("CPU-1", 45_500, Some("CPU")),
            ("battery_temp", 31_000, Some("Battery")),
            ("odd", 1, None)
        ]
    );
    assert_eq!(w.cpu_freq_mhz, vec![1804, 0, 2803]);
    assert_eq!((w.gpu_freq_mhz, w.cpu_load), (550, 250_000));
    assert!(w.native.is_none());
    assert_eq!(AlgoType::Ss.label(), "Ss");
}

#[test]
fn channels_are_shown_with_their_live_values() {
    let hw = HardwareReadings {
        balance_mode: Some(3),
        boost: None,
        charge_current: Some(2_000_000),
        charge_current_max: 4_500_000,
        policy0: None,
        policy3: None,
        policy7: None,
        gpu: None,
        gpu_frequencies: None,
        backlight: None,
        max_backlight: -1,
    };
    let controller = NativeController::new(&hw, None, &vec![], false, 0);
    let (zones, extras) = (vec![], vec![-1; 6]);
    let mut e = Engine::new();
    e.init(Start::Native { zone_types: &zones, extra_readings: &extras, controller });
    let w = collect_snapshot(&e, &readings(vec![77, 1_500_000]));
    assert_eq!(w.mode, "native");
    let n = w.native.unwrap();
    assert!(n.enabled && n.reason.is_none());
    assert_eq!((n.channels[0].value, n.channels[0].share), (3, 333_333));
    assert_eq!((n.channels[1].value, n.channels[1].share), (1_500_000, 250_000));
}
