use mi_thermald::ai::channels::HardwareReadings;
use mi_thermald::ai::charging::ChargeReadings;
use mi_thermald::ai::engine::{
    direct_probe_paths, has_ordered_readings, AIEngine, DecisionReadings,
};
use mi_thermald::ai::features::DeviceReadings;
use mi_thermald::ai::native::{GroupDraws, NativeController, TickReadings};
use mi_thermald::ai::qtable::Draws;
use mi_thermald::ai::workload::ProfileReading;
use mi_thermald::engine::{
    android_prio_to_syslog, apply_traditional_level, boot_freq_caps, charge_to_write,
    control_mode, frequency_to_write, is_debug_enabled, log_upto, parse_log_level,
    property_get_str, ControlMode, DebugSwitch, Engine, InstanceReadings, Start, TickKind,
};
use mi_thermald::resolve::MapInput;
use mi_thermald::types::{Action, ActionType, AlgoType, Instance, Sensor, Threshold};

const MAP: &str = "[0:a.conf]\n[5:b.conf]\n";
const CONFIG: &str = "[V]\nalgo_type virtual\nsensors z0 z1\nweight 1 1\nweight_sum 2\n\
[SS]\nalgo_type ss\nsensor V\ndevice cpu0+hotplug_cpu4\ntrig 40000 50000\nclr 38000 48000\n\
target 0+0 1800000+1 900000+0\n\
[SIC]\nalgo_type sic\nsensor z0\ndevice thermal_fcc_override\ntrig 30000\ntarget 37000\n\
ki 100\nmax 6000\nmin 1000\n";

fn device() -> DeviceReadings {
    DeviceReadings { proc_stat: None, cpu_freqs: vec![], now_secs: 0 }
}

fn readings(n: usize, direct: Vec<i32>) -> InstanceReadings<'static> {
    InstanceReadings {
        device: device(),
        decision: DecisionReadings {
            gpu_freq_ratio: 0,
            profile: ProfileReading { now_ms: 1_000, content: None },
        },
        direct: vec![direct; n],
        defaults: vec![vec![2_000_000]; n],
    }
}

fn loaded(ai: Option<AIEngine>) -> Engine {
    let zones = vec![Some("z0".to_string()), Some("z1".to_string())];
    let extras = vec![-1; 6];
    let mut e = Engine::new();
    let input = MapInput {
        map_content: Some(MAP),
        sconfig: 0,
        zone_types: &zones,
        extra_readings: &extras,
        default_config: Some(CONFIG),
        target_config: Some(CONFIG),
    };
    assert_eq!(e.init(Start::Configured { input, ai }), 0);
    e
}

fn index(e: &Engine, name: &str) -> usize {
    e.instances.iter().position(|i| i.name == name).unwrap()
}

#[test]
fn settings_are_read() {
    let args = |v: &[&str]| v.iter().map(|s| s.to_string()).collect::<Vec<String>>();
    assert_eq!(parse_log_level(&args(&["mi_thermald"])), 6);
    assert_eq!(parse_log_level(&args(&["mi_thermald", "-d", "-l", "7"])), 7);
    assert_eq!(parse_log_level(&args(&["mi_thermald", "-l", "x"])), 6);
    assert_eq!(parse_log_level(&args(&["mi_thermald", "-l"])), 6);
    assert_eq!(parse_log_level(&args(&["mi_thermald", "-l", "3", "-l", "4"])), 4);
    assert_eq!(log_upto(6), 127);
    assert_eq!(log_upto(3), 15);
    assert_eq!(log_upto(-1), 0);
    assert_eq!(log_upto(29), 0x3fff_ffff);
    let severities: Vec<i32> = (1..=8).map(android_prio_to_syslog).collect();
    assert_eq!(severities, vec![6, 7, 7, 6, 4, 3, 3, 6]);
    assert_eq!(control_mode("true"), ControlMode::Native);
    assert_eq!(control_mode("1"), ControlMode::Native);
    assert_eq!(control_mode("engine"), ControlMode::Augmented);
    assert_eq!(control_mode("false"), ControlMode::Configured);
    assert_eq!(property_get_str(Some(" sm8550\n"), "default"), "sm8550");
    assert_eq!(property_get_str(Some("\n"), "default"), "default");
    assert_eq!(property_get_str(None, "default"), "default");
    assert!(is_debug_enabled("1") && is_debug_enabled("true") && !is_debug_enabled("0"));
    assert_eq!(boot_freq_caps(), vec![(0, 1_209_600), (3, 1_681_920), (7, 1_808_640)]);
    assert_eq!(frequency_to_write(0), None);
    assert_eq!(frequency_to_write(5), Some(5));
    assert_eq!(charge_to_write(5, 5), None);
    assert_eq!(charge_to_write(6, 5), Some(6));
    assert_eq!(charge_to_write(0, 5), None);
}

#[test]
fn a_configuration_is_needed() {
    let (zones, extras) = (vec![], vec![-1; 6]);
    let mut e = Engine::new();
    let input = MapInput {
        map_content: None,
        sconfig: 0,
        zone_types: &zones,
        extra_readings: &extras,
        default_config: None,
        target_config: None,
    };
    assert_eq!(e.init(Start::Configured { input, ai: None }), -1);
    assert_eq!(loaded(None).instances.len(), 3);
}

#[test]
fn virtual_sensors_are_evaluated_and_levels_applied() {
    let mut e = loaded(None);
    e.sensors[0].poll(44_000);
    e.sensors[1].poll(40_000);
    e.evaluate_virtual_sensors();
    let v = e.sensors.iter().position(|s| s.name == "V").unwrap();
    assert_eq!(e.sensors[v].last_temp_mc, 42_000);
    assert_eq!(e.tick_kind(0), TickKind::Evaluate);
    assert_eq!(e.tick_kind(-1), TickKind::Evaluate);
    assert_eq!(e.tick_kind(5), TickKind::Reload);
    let i = index(&e, "SS");
    assert!(e.instance_is_ready(i));
    let out = e.tick_instance(i, &readings(6, vec![]), false);
    assert_eq!(e.instances[i].current_level, 1);
    assert_eq!(out.plans.len(), 2);
    assert_eq!(out.plans[0].value, 1_800_000);
    assert_eq!(out.plans[1].paths, vec!["/sys/devices/system/cpu/cpu4/online"]);
    assert_eq!(out.charge_target, None);
    let virt = index(&e, "V");
    assert!(e.tick_instance(virt, &readings(0, vec![]), false).plans.is_empty());
}

#[test]
fn level_zero_asserts_the_live_values() {
    let mut e = loaded(None);
    let i = index(&e, "SS");
    let out = e.tick_instance(i, &readings(6, vec![]), false);
    assert_eq!(out.plans[0].value, 2_000_000);
    assert_eq!(out.plans[1].value, 1);
    assert_eq!(e.instances[i].actions[0].value, 2_000_000);
}

#[test]
fn a_pid_instance_writes_its_output() {
    let mut e = loaded(None);
    e.sensors[0].poll(38_000);
    let i = index(&e, "SIC");
    let out = e.tick_instance(i, &readings(2, vec![]), false);
    assert_eq!(e.instances[i].current_value, 5_999_900);
    assert_eq!(out.charge_target, Some(5_999_900));
    assert_eq!(out.plans[0].value, 5_999_900);
    let out = e.tick_instance(i, &readings(2, vec![]), false);
    assert_eq!(out.charge_target, Some(5_999_800));
}

#[test]
fn levels_beyond_the_actions_do_nothing() {
    let mut threshold = Threshold::default();
    threshold.trig = vec![];
    let mut inst = Instance {
        name: "x".to_string(),
        sensor_idx: None,
        algo: AlgoType::Monitor,
        sample_ms: 0,
        reverse: false,
        threshold,
        actions: vec![Action { type_: ActionType::Cdsp, target: String::new(), value: 3 }],
        current_level: 0,
        current_value: 0,
    };
    assert!(apply_traditional_level(&mut inst, 1, &vec![vec![]]).plans.is_empty());
    assert_eq!(apply_traditional_level(&mut inst, 0, &vec![vec![]]).plans[0].value, 3);
}

#[test]
fn a_new_scenario_is_loaded() {
    let mut e = loaded(None);
    let (zones, extras) = (vec![], vec![-1; 6]);
    let input = MapInput {
        map_content: Some(MAP),
        sconfig: 5,
        zone_types: &zones,
        extra_readings: &extras,
        default_config: None,
        target_config: Some("[X]\nsensor z0\n"),
    };
    e.reload_scenario(5, &input);
    assert_eq!(e.current_scenario_idx, 5);
    assert_eq!(e.instances.len(), 1);
    assert_eq!(e.tick_kind(5), TickKind::Evaluate);
    assert!(e.reloads_on_change());
}

#[test]
fn the_dump_lists_sensors_and_instances() {
    let mut e = loaded(None);
    e.sensors.truncate(1);
    e.sensors[0].poll(38_000);
    e.instances.truncate(1);
    let dump = e.dump_state();
    assert_eq!(
        dump,
        "# mi_thermald v2.1 dump\nn_sensors=1 n_instances=1\nsensor z0=38000 mC\n\
         instance V algo=1 level=0 actions=0\n"
    );
}

#[test]
fn a_turn_follows_from_its_draws() {
    let ai = AIEngine::new(None, false, 0).unwrap();
    let mut e = loaded(Some(ai));
    let i = index(&e, "SS");
    let draws = Draws { share: 0, action: 6, pick: 0 };
    let out = e.tick_instance_drawn(i, &readings(6, vec![3_000_000, 300_000]), true, &draws);
    assert_eq!(e.ai_engine.as_ref().unwrap().last_action, Some(6));
    assert_eq!(e.instances[i].current_level, 0);
    assert_eq!(out.plans[0].value, 2_100_000);
    assert_eq!(out.plans[1].value, 1);
}

#[test]
fn decisions_follow_from_draws() {
    let mut ai = AIEngine::new(None, false, 0).unwrap();
    let e = loaded(None);
    let inst = &e.instances[index(&e, "SS")];
    let direct = vec![vec![3_000_000, 300_000]; 6];
    let cool = vec![Sensor::new("cpu0")];
    let state = ai.collect_state(&cool, inst, 1, &device());
    let decision = DecisionReadings {
        gpu_freq_ratio: 0,
        profile: ProfileReading { now_ms: 0, content: None },
    };
    let exploring = Draws { share: 0, action: 9, pick: 0 };
    let d = ai.decide_drawn(&state, 1, inst, &cool, &decision, &direct, &exploring);
    assert_eq!((d.level, d.actions[0].value), (0, 3_000_000));
    // Every action of a fresh table is as good as the others.
    let greedy = Draws { share: 999_999, action: 9, pick: 10 };
    let d = ai.decide_drawn(&state, 1, inst, &cool, &decision, &direct, &greedy);
    assert_eq!((d.level, d.actions[0].value), (2, 300_000));
    assert_eq!(ai.last_action, Some(0));
}

#[test]
fn the_learning_layer_replaces_the_level() {
    let ai = AIEngine::new(None, false, 0).unwrap();
    let mut e = loaded(Some(ai));
    assert!(e.ai_is_enabled());
    let i = index(&e, "SS");
    let out = e.tick_instance(i, &readings(6, vec![3_000_000, 300_000]), true);
    let engine = e.ai_engine.as_ref().unwrap();
    let action = engine.last_action.unwrap();
    let level = 2 * (9 - action as i32) / 9;
    assert_eq!(e.instances[i].current_level, level);
    assert_eq!(out.plans[0].value, 300_000 + action as i32 * 300_000);
    assert_eq!(out.plans[1].value, if action == 0 { 0 } else { 1 });
    let r = e.end_tick(&device());
    assert!(!r.flush_due && !r.save_due);
    let engine = e.ai_engine.as_ref().unwrap();
    assert_eq!(engine.tick_count, 1);
    assert_eq!(engine.data_collector.buffer.len(), 1);
    assert!(engine.last_action.is_none());
}

#[test]
fn decisions_follow_from_proposals() {
    let mut ai = AIEngine::new(None, false, 0).unwrap();
    let e = loaded(None);
    let inst = &e.instances[index(&e, "SS")];
    let direct = vec![vec![3_000_000, 300_000]; 6];
    let cool = vec![Sensor::new("cpu0")];
    let state = ai.collect_state(&cool, inst, 1, &device());
    assert_eq!(state.thermal_level_traditional, 500_000);
    let d = ai.decide_with(&state, 0, 1, inst, &cool, &direct);
    assert_eq!(d.level, 2);
    assert_eq!(d.actions.len(), 2);
    assert_eq!(d.actions[0].value, 300_000);
    let d = ai.decide_with(&state, 9, 1, inst, &cool, &direct);
    assert_eq!((d.level, d.actions[0].value), (0, 3_000_000));
    let mut hot = Sensor::new("cpu0");
    hot.last_temp_mc = 86_000;
    let hot = vec![hot];
    let d = ai.decide_with(&state, 9, 1, inst, &hot, &direct);
    assert_eq!(ai.last_action, Some(3));
    assert_eq!(d.level, 1);
    assert_eq!(ai.safety_monitor.violations(), 2);
    for _ in 0..3 {
        ai.decide_with(&state, 9, 1, inst, &hot, &direct);
    }
    assert!(ai.is_enabled());
    let d = ai.decide_with(&state, 9, 1, inst, &hot, &direct);
    assert!(!ai.is_enabled());
    assert_eq!(ai.disabled_reason().unwrap(), "disabled after 10 safety violations");
    assert_eq!((d.level, d.actions.len()), (1, 6));
    let decision = DecisionReadings {
        gpu_freq_ratio: 0,
        profile: ProfileReading { now_ms: 0, content: None },
    };
    let d = ai.decide_action(&state, 2, inst, &cool, &decision, &direct);
    assert_eq!((d.level, d.actions.len()), (2, 6));
}

#[test]
fn direct_values_come_from_probes() {
    let a = Action { type_: ActionType::CpuFreq, target: "cpu2".to_string(), value: 5 };
    assert_eq!(direct_probe_paths(&a).len(), 2);
    let b = Action { type_: ActionType::Bcl, target: String::new(), value: 0 };
    assert_eq!(
        direct_probe_paths(&b),
        vec!["/sys/class/power_supply/battery/constant_charge_current"]
    );
    let c = Action { type_: ActionType::Fcc, target: String::new(), value: 7 };
    assert!(direct_probe_paths(&c).is_empty());
    let v = vec![a, b];
    assert!(has_ordered_readings(&v, &vec![vec![10, 5], vec![]]));
    assert!(!has_ordered_readings(&v, &vec![vec![10, 15], vec![]]));
    assert!(has_ordered_readings(&v, &vec![vec![], vec![]]));
}

#[test]
fn saved_weights_start_the_engine() {
    let mut w = vec![0i64; 262_144];
    w[3] = 9;
    let e = AIEngine::new(Some(&w), true, 7).unwrap();
    assert_eq!(e.q_table.weights()[3], 9);
    assert!(e.workload_detector.sconfig_available);
    let e = AIEngine::new(Some(&vec![1, 2]), false, 0).unwrap();
    assert_eq!(e.q_table.weights().len(), 262_144);
}

#[test]
fn the_native_engine_starts_from_discovery() {
    let hw = HardwareReadings {
        balance_mode: Some(3),
        boost: None,
        charge_current: None,
        charge_current_max: -1,
        policy0: None,
        policy3: None,
        policy7: None,
        gpu: None,
        gpu_frequencies: None,
        backlight: None,
        max_backlight: -1,
    };
    let controller = NativeController::new(&hw, None, &vec![], false, 0);
    let zones = vec![Some("z".to_string())];
    let extras = vec![-1; 6];
    let mut e = Engine::new();
    let start = Start::Native { zone_types: &zones, extra_readings: &extras, controller };
    assert_eq!(e.init(start), 0);
    assert_eq!(e.sensors.len(), 7);
    assert_eq!(e.tick_kind(3), TickKind::Native);
    assert!(!e.reloads_on_change());
    assert!(!e.switch_native(-1));
    assert!(e.switch_native(3));
    assert_eq!(e.current_scenario_idx, 3);
    assert!(!e.switch_native(3));
}

#[test]
fn discovery_appends_to_the_sensors_that_are_there() {
    let hw = HardwareReadings {
        balance_mode: Some(3),
        boost: None,
        charge_current: None,
        charge_current_max: -1,
        policy0: None,
        policy3: None,
        policy7: None,
        gpu: None,
        gpu_frequencies: None,
        backlight: None,
        max_backlight: -1,
    };
    let controller = NativeController::new(&hw, None, &vec![], false, 0);
    let mut e = loaded(None);
    let before: Vec<String> = e.sensors.iter().map(|s| s.name.clone()).collect();
    let zones = vec![None, Some("late".to_string())];
    let extras = vec![1, 2, 3, 4, 5, 6];
    let start = Start::Native { zone_types: &zones, extra_readings: &extras, controller };
    assert_eq!(e.init(start), 0);
    let n = before.len();
    assert_eq!(e.sensors.len(), n + 7);
    for (s, name) in e.sensors.iter().zip(&before) {
        assert_eq!(&s.name, name);
    }
    assert_eq!(e.sensors[n].name, "late");
    assert_eq!(e.sensors[n].zone_id, 1);
    assert_eq!(e.sensors[n + 1].name, "ambient_sensor_temp");
}

#[test]
fn the_first_debug_value_is_kept() {
    let mut s = DebugSwitch::new();
    assert!(s.is_enabled("true"));
    assert!(s.is_enabled("0"));
    let mut s = DebugSwitch::new();
    assert!(!s.is_enabled("0"));
    assert!(!s.is_enabled("1"));
    assert_eq!(s.answer, Some(false));
}

#[test]
fn a_native_tick_follows_from_its_draws() {
    let hw = HardwareReadings {
        balance_mode: Some(3),
        boost: None,
        charge_current: None,
        charge_current_max: -1,
        policy0: None,
        policy3: None,
        policy7: None,
        gpu: None,
        gpu_frequencies: None,
        backlight: None,
        max_backlight: -1,
    };
    let controller = NativeController::new(&hw, None, &vec![], false, 0);
    let zones = vec![Some("cpu-0".to_string())];
    let extras = vec![-1; 6];
    let mut e = Engine::new();
    e.init(Start::Native { zone_types: &zones, extra_readings: &extras, controller });
    let charge = ChargeReadings { status: None, usb_type: None, batt_temp: 300 };
    let r = TickReadings {
        device: device(),
        gpu_freq_ratio: 0,
        profile: ProfileReading { now_ms: 1_000, content: None },
        brightness: 0,
        batt_temp: 300,
    };
    let nine = Draws { share: 0, action: 9, pick: 0 };
    let draws = GroupDraws { compute: nine, thermal: nine, charging: nine, display: nine };
    let t = e.tick_native_drawn(&charge, &r, &draws);
    assert!(t.report.acted && t.disabled.is_none());
    let w = t.report.writes.iter().find(|w| w.path.ends_with("balance_mode")).unwrap();
    assert_eq!(w.value, 7);
}

#[test]
fn every_native_tick_protects_charging() {
    let hw = HardwareReadings {
        balance_mode: Some(3),
        boost: None,
        charge_current: Some(1_000_000),
        charge_current_max: 6_000_000,
        policy0: None,
        policy3: None,
        policy7: None,
        gpu: None,
        gpu_frequencies: None,
        backlight: None,
        max_backlight: -1,
    };
    let controller = NativeController::new(&hw, None, &vec![], false, 0);
    let zones = vec![Some("cpu-0".to_string())];
    let extras = vec![-1; 6];
    let mut e = Engine::new();
    e.init(Start::Native { zone_types: &zones, extra_readings: &extras, controller });
    e.sensors[0].poll(90_000);
    let charge = ChargeReadings {
        status: Some("Charging".to_string()),
        usb_type: Some("USB_PD".to_string()),
        batt_temp: 500,
    };
    let mut reports = Vec::new();
    for tick in 1..6 {
        let r = TickReadings {
            device: device(),
            gpu_freq_ratio: 0,
            profile: ProfileReading { now_ms: tick * 1000, content: None },
            brightness: 0,
            batt_temp: 500,
        };
        let t = e.tick_native(&charge, &r);
        assert_eq!(t.charge_current, Some(600_000));
        reports.push((t.report.acted, t.disabled.is_some()));
    }
    let nc = e.native_controller.as_ref().unwrap();
    assert_eq!(nc.global_tick_count, 5);
    assert!(!nc.is_enabled());
    assert_eq!(reports[0], (true, false));
    assert_eq!(reports[4], (false, true));
}
