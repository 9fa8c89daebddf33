use mi_thermald::ai::channels::{
    are_steppable, cpu_freq_policy, discover_hardware_channels, enrich_from_config, ChannelGroup,
    CoolingChannel, GroupActions, HardwareReadings,
};
use mi_thermald::ai::charging::{charge_current, current_for, heating_rate, ChargeReadings};
use mi_thermald::ai::engine::blank_instance;
use mi_thermald::ai::features::{array_of, DeviceReadings};
use mi_thermald::ai::native::{
    action_for_battery_temp, checkpoint_path, checkpoint_scenario, GroupDraws, NativeController,
    SavedGroup, SavedScenario, TickReadings,
};
use mi_thermald::ai::qtable::Draws;
use mi_thermald::ai::workload::{ProfileReading, WorkloadMode};
use mi_thermald::algorithm::algo_sic;
use mi_thermald::types::Sensor;

fn hardware() -> HardwareReadings {
    HardwareReadings {
        balance_mode: Some(12),
        boost: Some(0),
        charge_current: Some(0),
        charge_current_max: 6_000_000,
        policy0: Some(2_016_000),
        policy3: Some(-1),
        policy7: None,
        gpu: Some(0),
        gpu_frequencies: Some("220000000 x 1100000000 550000000\n".to_string()),
        backlight: Some(100),
        max_backlight: 0,
    }
}

fn nothing() -> HardwareReadings {
    HardwareReadings {
        balance_mode: None,
        boost: None,
        charge_current: None,
        charge_current_max: -1,
        policy0: None,
        policy3: None,
        policy7: None,
        gpu: None,
        gpu_frequencies: None,
        backlight: None,
        max_backlight: -1,
    }
}

fn sensor(name: &str, mc: i32) -> Sensor {
    let mut s = Sensor::new(name);
    s.last_temp_mc = mc;
    s
}

fn readings(tick: u64, stat: Option<String>, batt_temp: i32) -> TickReadings<'static> {
    TickReadings {
        device: DeviceReadings { proc_stat: stat, cpu_freqs: vec![], now_secs: 0 },
        gpu_freq_ratio: 0,
        profile: ProfileReading { now_ms: tick * 1000, content: None },
        brightness: 2048,
        batt_temp,
    }
}

fn channel<'a>(c: &'a Vec<CoolingChannel>, name: &str) -> &'a CoolingChannel {
    c.iter().find(|c| c.name == name).unwrap()
}

#[test]
fn channels_are_discovered() {
    let c = discover_hardware_channels(&hardware());
    let names: Vec<&str> = c.iter().map(|c| c.name.as_str()).collect();
    assert_eq!(
        names,
        vec!["balance_mode", "boost", "charge_current", "cpu_freq0", "cpu_freq3", "gpu", "backlight"]
    );
    assert_eq!(channel(&c, "balance_mode").value, 9);
    assert_eq!(channel(&c, "charge_current").value, 6_000_000);
    assert_eq!(channel(&c, "charge_current").group, ChannelGroup::Charging);
    let f = channel(&c, "cpu_freq3");
    assert_eq!((f.value, f.min_val, f.max_val), (2_803_200, 840_960, 2_803_200));
    let g = channel(&c, "gpu");
    assert_eq!((g.value, g.min_val, g.max_val), (1_100_000_000, 220_000_000, 1_100_000_000));
    assert_eq!(channel(&c, "backlight").max_val, 4095);
    assert!(discover_hardware_channels(&nothing()).is_empty());
    assert_eq!(cpu_freq_policy("cpu_freq7"), Some(7));
    assert_eq!(cpu_freq_policy("gpu"), None);
}

const PID: &str = "[skin]\nalgo_type SIC\nsensor skin\ndevice cpu_freq0\ntrig 30000 40000\n\
target 36000 38000 40000 42000 44000\nks 0\nki 1000\nkc 0\nmax 2000\nmin 600\n\
[gpu]\nalgo_type sic\nsensor skin\ndevice gpu\ntrig 1\n\
[not]\nalgo_type ss\nsensor skin\ndevice boost\ntrig 1\n";

#[test]
fn configured_channels_get_a_pid() {
    let mut c = discover_hardware_channels(&hardware());
    enrich_from_config(&mut c, PID);
    let f = channel(&c, "cpu_freq0");
    assert_eq!(f.group, ChannelGroup::Thermal);
    assert_eq!(f.sensor_name.as_deref(), Some("skin"));
    assert_eq!(f.pid.as_ref().unwrap().targets.len(), 5);
    assert_eq!(channel(&c, "gpu").group, ChannelGroup::Compute);
    assert!(channel(&c, "gpu").pid.is_some());
    assert!(channel(&c, "boost").pid.is_none());
    assert!(are_steppable(&c, &vec![]));
    enrich_from_config(&mut c, "[b]\nalgo_type sic\ndevice boost\ntrig 1\nmax 1\nmin 2\n");
    assert!(!are_steppable(&c, &vec![]));
}

#[test]
fn battery_ladders_match_their_table() {
    let table = [
        (WorkloadMode::Benchmark, vec![(414, 9), (415, 8), (435, 6), (460, 5)]),
        (WorkloadMode::PerfGaming, vec![(379, 9), (380, 8), (400, 7), (420, 6), (440, 5)]),
        (WorkloadMode::Gaming, vec![(359, 9), (360, 8), (380, 7), (400, 6), (420, 5)]),
        (
            WorkloadMode::Moderate,
            vec![(359, 9), (360, 8), (380, 7), (400, 6), (410, 4), (420, 3), (450, 2)],
        ),
        (
            WorkloadMode::Light,
            vec![(339, 9), (340, 8), (360, 7), (380, 6), (400, 4), (430, 2), (450, 0)],
        ),
    ];
    for (mode, rungs) in table {
        for (t, action) in rungs {
            assert_eq!(action_for_battery_temp(mode, t), action);
        }
    }
}

#[test]
fn charge_current_follows_the_ladder() {
    let max = 6_000_000;
    let expected = [
        (319, 6_000_000),
        (320, 6_000_000),
        (335, 5_550_000),
        (350, 5_100_000),
        (370, 4_500_000),
        (390, 3_900_000),
        (420, 2_700_000),
        (450, 1_500_000),
        (465, 1_050_000),
        (480, 600_000),
        (519, 600_000),
        (520, 0),
    ];
    for (t, current) in expected {
        assert_eq!(current_for(max, t), current);
    }
    assert_eq!(charge_current(max, 300, 119_999), 6_000_000);
    assert_eq!(charge_current(max, 300, 120_000), 3_000_000);
    assert_eq!(charge_current(max, 450, 120_000), 1_500_000);
    assert_eq!(heating_rate(0, -999, 300), 0);
    assert_eq!(heating_rate(0, 300, 304), 120_000);
    assert_eq!(heating_rate(120_000, 304, 304), 84_000);
    assert_eq!(heating_rate(0, 300, 299), -30_000);
}

fn charging(usb: &str, batt_temp: i32) -> ChargeReadings {
    ChargeReadings {
        status: Some("Charging\n".to_string()),
        usb_type: Some(usb.to_string()),
        batt_temp,
    }
}

#[test]
fn charge_protection_runs_even_when_disabled() {
    let mut c = NativeController::new(&hardware(), None, &vec![], false, 0);
    c.enabled = false;
    let idle = ChargeReadings { status: Some("Discharging".to_string()), usb_type: None, batt_temp: 300 };
    assert_eq!(c.apply_charge_protection(&idle), None);
    assert_eq!(c.apply_charge_protection(&charging("USB_DCP", 300)), Some(3_000_000));
    assert_eq!(channel(&c.channels, "charge_current").value, 3_000_000);
    assert_eq!(c.apply_charge_protection(&charging(" USB_PD\n", 300)), Some(6_000_000));
    assert_eq!(c.apply_charge_protection(&charging("USB_HVDCP", 304)), Some(3_000_000));
    assert_eq!(c.charge_rate, 120_000);
    assert_eq!(c.apply_charge_protection(&charging("USB_PD", -1)), None);
    assert_eq!(c.apply_charge_protection(&charging("USB_PD", 530)), Some(0));
}

#[test]
fn a_pause_of_charging_is_no_heating() {
    let hw = HardwareReadings { charge_current_max: 12_000_000, ..hardware() };
    let mut c = NativeController::new(&hw, None, &vec![], false, 0);
    let idle = ChargeReadings { status: None, usb_type: None, batt_temp: 310 };
    assert_eq!(c.apply_charge_protection(&charging("USB_PD", 300)), Some(12_000_000));
    assert_eq!(c.apply_charge_protection(&idle), None);
    assert_eq!(c.apply_charge_protection(&charging("USB_PD", 310)), Some(12_000_000));
    assert_eq!(c.apply_charge_protection(&charging("USB", 318)), Some(3_000_000));
    assert_eq!(c.apply_charge_protection(&charging("USB_PD", 318)), Some(12_000_000));
    // Nor is a change over a tick without a reading, which keeps the rate.
    assert_eq!(c.apply_charge_protection(&charging("USB_PD", 319)), Some(12_000_000));
    assert_eq!(c.charge_rate, 30_000);
    assert_eq!(c.apply_charge_protection(&charging("USB_PD", -1)), None);
    assert_eq!(c.apply_charge_protection(&charging("USB_PD", 310)), Some(12_000_000));
    assert_eq!(c.charge_rate, 30_000);
    // Within a run of ticks the heating counts, until the charger pauses.
    assert_eq!(c.apply_charge_protection(&charging("USB_PD", 315)), Some(6_000_000));
    c.apply_charge_protection(&idle);
    assert_eq!(c.apply_charge_protection(&charging("USB_PD", 315)), Some(12_000_000));
}

#[test]
fn a_tick_decides_for_every_group() {
    let mut c = NativeController::new(&hardware(), Some(PID), &vec![], false, 0);
    assert!(c.is_enabled());
    assert_eq!(c.brightness_path().unwrap(), "/sys/class/backlight/panel0-backlight/brightness");
    let v = vec![sensor("cpu0", 50_000), sensor("skin", 39_000)];
    let r = c.tick(&v, &readings(1, None, 300));
    assert!(r.acted && !r.flush_due && !r.save_due);
    let boost = r.writes.iter().find(|w| w.path.ends_with("/boost")).unwrap();
    assert_eq!((boost.value, boost.assumed), (1, true));
    assert!(r.writes.iter().any(|w| w.policy == Some(3)));
    assert!(r.writes.iter().all(|w| !w.path.contains("constant_charge_current")));
    assert!(r.writes.iter().all(|w| !w.path.contains("backlight")));
    c.confirm(boost, false);
    assert_eq!(channel(&c.channels, "boost").value, 1);
    let a = c.models[&0].last_actions.unwrap();
    assert!(a.compute <= 9 && a.display <= 9);
    assert_eq!(c.data_collector.buffer.len(), 0);
    c.tick(&v, &readings(2, None, 300));
    assert_eq!(c.data_collector.buffer.len(), 1);
    assert_eq!(c.data_collector.buffer[0].action, a.compute);
    assert_eq!(c.global_tick_count, 2);
}

#[test]
fn proposals_are_capped_by_safety_load_and_battery() {
    let mut c = NativeController::new(&hardware(), None, &vec![], false, 0);
    let v = vec![sensor("cpu0", 50_000)];
    c.tick(&v, &readings(1, None, 300));
    let state = c.models[&0].last_state.unwrap();
    let high = GroupActions { compute: 8, thermal: 8, charging: 8, display: 8 };
    c.conclude(&state, &high, 300, &v);
    assert_eq!(c.models[&0].last_actions, Some(high));
    c.conclude(&state, &high, 385, &v);
    let six = GroupActions { compute: 6, thermal: 6, charging: 6, display: 6 };
    assert_eq!(c.models[&0].last_actions, Some(six));
    let hot = vec![sensor("cpu0", 90_000)];
    c.conclude(&state, &high, 300, &hot);
    let three = GroupActions { compute: 3, thermal: 3, charging: 3, display: 3 };
    assert_eq!(c.models[&0].last_actions, Some(three));
    c.sustained_load_ticks = 3;
    let low = GroupActions { compute: 1, thermal: 1, charging: 1, display: 1 };
    c.conclude(&state, &low, -1, &v);
    let heavy = GroupActions { compute: 9, thermal: 1, charging: 1, display: 1 };
    assert_eq!(c.models[&0].last_actions, Some(heavy));
}

#[test]
fn writes_follow_the_action() {
    let mut c = NativeController::new(&hardware(), None, &vec![], false, 0);
    let v = vec![];
    c.tick(&v, &readings(1, None, -1));
    let state = c.models[&0].last_state.unwrap();
    let a = GroupActions { compute: 6, thermal: 0, charging: 0, display: 0 };
    let r = c.conclude(&state, &a, -1, &v);
    let by = |end: &str| r.writes.iter().find(|w| w.path.ends_with(end)).map(|w| w.value);
    assert_eq!(by("balance_mode"), Some(4));
    assert_eq!(by("policy0/scaling_max_freq"), Some(1_545_600));
    assert_eq!(by("policy3/scaling_max_freq"), Some(2_149_120));
    assert_eq!(by("devfreq/max_freq"), Some(806_666_666));
    for w in &r.writes {
        c.confirm(w, true);
    }
    let r = c.conclude(&state, &a, -1, &v);
    assert!(r.writes.iter().all(|w| !w.path.ends_with("balance_mode")));
    assert!(r.writes.iter().any(|w| w.path.ends_with("policy0/scaling_max_freq")));
}

#[test]
fn a_pid_channel_follows_its_setpoint() {
    let mut c = NativeController::new(&hardware(), Some(PID), &vec![], false, 0);
    let v = vec![sensor("skin", 39_000)];
    c.tick(&v, &readings(1, None, -1));
    let state = c.models[&0].last_state.unwrap();
    let i = c.channels.iter().position(|c| c.name == "cpu_freq0").unwrap();
    c.channels[i].pid_state.initialized = true;
    c.channels[i].value = 1_000_000;
    let a = GroupActions { compute: 0, thermal: 4, charging: 0, display: 0 };
    let r = c.conclude(&state, &a, -1, &v);
    let w = r.writes.iter().find(|w| w.channel == i).unwrap();
    assert_eq!(w.value, 1_001_000);
    assert_eq!(w.policy, None);
    assert!(!w.assumed);
}

#[test]
fn sustained_load_needs_three_ticks_in_a_row() {
    let mut c = NativeController::new(&hardware(), None, &vec![], false, 0);
    let v = vec![];
    let mut busy = 0u64;
    let mut idle = 100u64;
    let mut tick = 0;
    let mut step = |c: &mut NativeController, loaded: bool| {
        tick += 1;
        if loaded {
            busy += 90;
            idle += 10;
        } else {
            idle += 100;
        }
        let stat = format!("cpu {} 0 0 {} 0", busy, idle);
        c.tick(&v, &readings(tick, Some(stat), -1));
        c.sustained_load_ticks
    };
    step(&mut c, false);
    assert_eq!(step(&mut c, true), 1);
    assert_eq!(step(&mut c, true), 2);
    assert_eq!(step(&mut c, false), 0);
    assert_eq!(step(&mut c, true), 1);
    assert_eq!(step(&mut c, true), 2);
    assert_eq!(step(&mut c, true), 3);
    assert_eq!(c.models[&0].last_actions.unwrap().compute, 9);
    assert_eq!(step(&mut c, false), 3);
    assert_eq!(step(&mut c, false), 3);
    assert_eq!(step(&mut c, false), 0);
}

#[test]
fn the_breaker_disables_and_recovers() {
    let mut c = NativeController::new(&hardware(), None, &vec![], false, 0);
    let hot = vec![sensor("cpu0", 90_000)];
    let cool = vec![sensor("cpu0", 40_000)];
    for tick in 1..=3 {
        assert!(c.tick(&hot, &readings(tick, None, 300)).acted);
    }
    let r = c.tick(&hot, &readings(4, None, 300));
    assert!(!r.acted && r.writes.is_empty());
    assert!(!c.is_enabled());
    assert_eq!(c.disabled_reason().unwrap(), "disabled after 12 safety violations");
    assert!(!c.tick(&cool, &readings(5, None, 300)).acted);
    assert_eq!(c.global_tick_count, 5);
    // The last four of the twelve date from the third tick.
    c.global_tick_count = 3 + 3600 - 2;
    assert!(!c.tick(&cool, &readings(6, None, 300)).acted);
    assert!(c.tick(&cool, &readings(7, None, 300)).acted);
    assert!(c.is_enabled());
    assert!(c.disabled_reason().is_none());
}

#[test]
fn without_channels_it_stays_disabled() {
    let mut c = NativeController::new(&nothing(), None, &vec![], false, 0);
    assert_eq!(c.disabled_reason().unwrap(), "no writable channels");
    assert!(!c.tick(&vec![], &readings(1, None, 300)).acted);
    assert!(!c.is_enabled());
    assert_eq!(c.global_tick_count, 1);
    assert!(!c.switch_scenario(3));
}

#[test]
fn scenarios_keep_their_own_models() {
    let mut c = NativeController::new(&hardware(), None, &vec![], false, 0);
    let v = vec![];
    c.tick(&v, &readings(1, None, 300));
    assert!(c.switch_scenario(7));
    assert!(!c.switch_scenario(7));
    c.tick(&v, &readings(2, None, 300));
    assert_eq!(c.models.len(), 2);
    assert_eq!(c.models[&0].tick_count, 1);
    assert_eq!(c.models[&7].tick_count, 1);
}

fn group(name: &str, weights: Vec<i64>) -> SavedGroup {
    SavedGroup { name: name.to_string(), epsilon: 0, weights }
}

#[test]
fn checkpoints_come_back() {
    let mut w = vec![0i64; 262_144];
    w[5] = 77;
    let saved =
        vec![SavedScenario { scenario: 4, tick_count: 12, groups: vec![group("charging", w)] }];
    let c = NativeController::new(&hardware(), None, &saved, false, 0);
    let out = c.save_checkpoint();
    assert_eq!(out.len(), 1);
    assert_eq!((out[0].scenario, out[0].tick_count), (4, 12));
    let names: Vec<&str> = out[0].groups.iter().map(|g| g.name.as_str()).collect();
    assert_eq!(names, vec!["compute", "thermal", "charging", "display"]);
    assert_eq!(out[0].groups[2].epsilon, 300_000);
    assert_eq!(out[0].groups[2].weights[5], 77);
    let d = NativeController::new(&hardware(), None, &out, false, 0);
    assert_eq!(d.models[&4].tick_count, 12);
    assert_eq!(d.models[&4].tables.get(ChannelGroup::Charging).weights()[5], 77);
    assert_eq!(d.models[&4].tables.get(ChannelGroup::Compute).weights()[5], 0);
}

#[test]
fn every_scenario_is_saved_once() {
    let saved: Vec<SavedScenario> = [4, -1, 9]
        .iter()
        .map(|&scenario| {
            let mut w = vec![0i64; 262_144];
            w[5] = scenario as i64;
            SavedScenario { scenario, tick_count: 3, groups: vec![group("thermal", w)] }
        })
        .collect();
    let c = NativeController::new(&hardware(), None, &saved, false, 0);
    let mut out = c.save_checkpoint();
    out.sort_by_key(|s| s.scenario);
    let scenarios: Vec<i32> = out.iter().map(|s| s.scenario).collect();
    assert_eq!(scenarios, vec![-1, 4, 9]);
    let d = NativeController::new(&hardware(), None, &out, false, 0);
    for n in scenarios {
        assert_eq!(d.models[&n].tables.get(ChannelGroup::Thermal).weights()[5], n as i64);
        assert_eq!(d.models[&n].tick_count, 3);
    }
}

#[test]
fn saved_weights_are_restored() {
    let mut w = vec![0i64; 262_144];
    w[5] = 77;
    let saved = vec![
        SavedScenario {
            scenario: 4,
            tick_count: 999,
            groups: vec![
                group("thermal", w.clone()),
                group("unknown", w.clone()),
                group("display", vec![1, 2, 3]),
            ],
        },
        SavedScenario { scenario: 9, tick_count: 1, groups: vec![group("x", w)] },
    ];
    let mut c = NativeController::new(&hardware(), None, &saved, false, 0);
    assert_eq!(c.models.len(), 1);
    assert_eq!(c.models[&4].tables.get(ChannelGroup::Thermal).weights()[5], 77);
    assert_eq!(c.models[&4].tables.get(ChannelGroup::Display).weights()[5], 0);
    c.switch_scenario(4);
    let r = c.tick(&vec![], &readings(1, None, 300));
    assert!(r.save_due);
}

#[test]
fn checkpoint_names_round_trip() {
    assert_eq!(checkpoint_path(18), "/data/vendor/thermal/ai_data/q_scenario_18.json");
    for n in [-1, 0, 18, i32::MAX] {
        let path = checkpoint_path(n);
        let name = path.rsplit('/').next().unwrap();
        assert_eq!(checkpoint_scenario(name), Some(n));
    }
    assert_eq!(checkpoint_scenario("q_scenario_.json"), None);
    assert_eq!(checkpoint_scenario("q_scenario_7.json.tmp"), None);
    assert_eq!(checkpoint_scenario("q_table.json"), None);
    for g in [
        ChannelGroup::Compute,
        ChannelGroup::Thermal,
        ChannelGroup::Charging,
        ChannelGroup::Display,
    ] {
        assert_eq!(ChannelGroup::from_name(&g.name()), Some(g));
    }
    assert_eq!(ChannelGroup::from_name("Compute"), None);
}

fn draws(compute: Draws, others: Draws) -> GroupDraws {
    GroupDraws { compute, thermal: others, charging: others, display: others }
}

#[test]
fn groups_select_from_their_own_tables() {
    let mut c = NativeController::new(&hardware(), None, &vec![], false, 0);
    let v = vec![sensor("cpu0", 50_000)];
    c.tick(&v, &readings(1, None, 300));
    let s = array_of(&c.models[&0].last_state.unwrap());
    let tables = &mut c.models.get_mut(&0).unwrap().tables;
    tables.compute.update(&s, 2, 1_000_000_000, &s);
    tables.thermal.update(&s, 7, 1_000_000_000, &s);
    tables.charging.update(&s, 0, 1_000_000_000, &s);
    tables.display.update(&s, 9, 1_000_000_000, &s);
    let greedy = Draws { share: 999_999, action: 4, pick: 11 };
    let a = tables.select_with(&s, &draws(greedy, greedy));
    assert_eq!(a, GroupActions { compute: 2, thermal: 7, charging: 0, display: 9 });
    let exploring = Draws { share: 0, ..greedy };
    let a = tables.select_with(&s, &draws(exploring, greedy));
    assert_eq!(a, GroupActions { compute: 4, thermal: 7, charging: 0, display: 9 });
}

#[test]
fn a_tick_follows_from_its_draws() {
    let mut c = NativeController::new(&hardware(), None, &vec![], false, 0);
    let v = vec![sensor("cpu0", 50_000)];
    let six = Draws { share: 0, action: 6, pick: 0 };
    let two = Draws { share: 0, action: 2, pick: 0 };
    let r = c.tick_drawn(&v, &readings(1, None, 300), &draws(six, two));
    assert!(r.acted);
    let expected = GroupActions { compute: 6, thermal: 2, charging: 2, display: 2 };
    assert_eq!(c.models[&0].last_actions, Some(expected));
    let by = |end: &str| r.writes.iter().find(|w| w.path.ends_with(end)).map(|w| w.value);
    assert_eq!(by("balance_mode"), Some(4));
    assert_eq!(by("policy0/scaling_max_freq"), Some(1_545_600));
}

#[test]
fn a_channel_is_controlled_like_an_instance() {
    let mut c = NativeController::new(&hardware(), Some(PID), &vec![], false, 0);
    let i = c.channels.iter().position(|c| c.name == "cpu_freq0").unwrap();
    let mut inst = blank_instance();
    inst.threshold.trig = vec![30_000, 40_000];
    inst.threshold.target = vec![40_000];
    inst.threshold.ks = vec![0];
    inst.threshold.ki = vec![1_000];
    inst.threshold.kc = vec![0];
    inst.threshold.max_out = vec![2_000];
    inst.threshold.min_out = vec![600];
    c.channels[i].value = 1_000_000;
    c.channels[i].pid_state.initialized = true;
    let mut history = c.channels[i].pid_state;
    // The fourth action selects the setpoint of 40 degrees.
    let four = Draws { share: 0, action: 4, pick: 0 };
    for (tick, temp) in [39_000, 39_500, 37_250].into_iter().enumerate() {
        inst.current_value = c.channels[i].value;
        let expected = algo_sic(&inst, temp, &mut history);
        let v = vec![sensor("skin", temp)];
        let r = c.tick_drawn(&v, &readings(tick as u64 + 1, None, -1), &draws(four, four));
        let w = r.writes.iter().find(|w| w.channel == i).unwrap();
        assert_eq!(w.value, expected);
        assert_eq!(c.channels[i].pid_state, history);
        c.confirm(w, true);
    }
}
