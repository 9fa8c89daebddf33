use mi_thermald::algorithm::{
    algo_sic, evaluate_instance, evaluate_virtual_sensor, is_evaluable,
};
use mi_thermald::types::{AlgoType, Instance, Sensor, SicState, Threshold};

fn instance(algo: AlgoType, trig: Vec<i32>, clr: Vec<i32>) -> Instance {
    let mut threshold = Threshold::default();
    threshold.trig = trig;
    threshold.clr = clr;
    Instance {
        name: "x".to_string(),
        sensor_idx: Some(0),
        algo,
        sample_ms: 1000,
        reverse: false,
        threshold,
        actions: Vec::new(),
        current_level: 0,
        current_value: 0,
    }
}

fn sensor(name: &str, mc: i32) -> Sensor {
    let mut s = Sensor::new(name);
    s.last_temp_mc = mc;
    s
}

#[test]
fn virtual_sensor_is_a_weighted_mean() {
    let mut v = vec![sensor("a", 40_000), sensor("b", 50_000), sensor("v", 0)];
    v[2].inputs = vec![0, 1];
    v[2].weights = vec![300, 700];
    v[2].weight_sum = 1000;
    v[2].compensation = -500;
    assert_eq!(evaluate_virtual_sensor(&mut v, 2), 46_500);
    assert_eq!(v[2].last_temp_mc, 46_500);
    v[2].weights = vec![300];
    assert_eq!(evaluate_virtual_sensor(&mut v, 2), 11_500);
    v[0].last_temp_mc = -41;
    v[2].weights = vec![1];
    v[2].weight_sum = 2;
    v[2].compensation = 0;
    assert_eq!(evaluate_virtual_sensor(&mut v, 2), -20);
    v[2].weight_sum = 0;
    assert_eq!(evaluate_virtual_sensor(&mut v, 2), -1);
    assert_eq!(v[2].last_temp_mc, -20);
    v[2].inputs = vec![];
    v[2].weight_sum = 5;
    assert_eq!(evaluate_virtual_sensor(&mut v, 2), -1);
}

#[test]
fn levels_follow_triggers_with_hysteresis() {
    let mut inst = instance(AlgoType::Monitor, vec![40_000, 45_000, 50_000], vec![38_000, 43_000, 48_000]);
    let mut st = SicState::default();
    assert_eq!(evaluate_instance(&mut inst, 39_999, &mut st), 0);
    assert_eq!(evaluate_instance(&mut inst, 40_000, &mut st), 1);
    assert_eq!(evaluate_instance(&mut inst, 51_000, &mut st), 3);
    assert_eq!(evaluate_instance(&mut inst, 48_001, &mut st), 3);
    assert_eq!(evaluate_instance(&mut inst, 48_000, &mut st), 2);
    assert_eq!(evaluate_instance(&mut inst, 10_000, &mut st), 0);
    assert_eq!(inst.current_level, 0);
}

#[test]
fn reverse_levels_trigger_downwards() {
    let mut inst = instance(AlgoType::Ss, vec![5_000, 0], vec![7_000, 2_000]);
    inst.reverse = true;
    let mut st = SicState::default();
    assert_eq!(evaluate_instance(&mut inst, 6_000, &mut st), 0);
    assert_eq!(evaluate_instance(&mut inst, 5_000, &mut st), 1);
    assert_eq!(evaluate_instance(&mut inst, -1, &mut st), 2);
    assert_eq!(evaluate_instance(&mut inst, 1_999, &mut st), 2);
    assert_eq!(evaluate_instance(&mut inst, 2_000, &mut st), 1);
}

#[test]
fn missing_clear_points_do_not_hold_a_level() {
    let mut inst = instance(AlgoType::Monitor, vec![10, 20], vec![]);
    let mut st = SicState::default();
    assert_eq!(evaluate_instance(&mut inst, 25, &mut st), 2);
    assert_eq!(evaluate_instance(&mut inst, 15, &mut st), 1);
    let mut none = instance(AlgoType::Monitor, vec![], vec![]);
    none.current_level = 1;
    assert_eq!(evaluate_instance(&mut none, 15, &mut st), 0);
    assert_eq!(none.current_level, 1);
}

fn pid() -> Instance {
    let mut inst = instance(AlgoType::Sic, vec![30_000, 40_000], vec![]);
    inst.threshold.target = vec![38_000, 42_000];
    inst.threshold.ks = vec![100, 200];
    inst.threshold.kc = vec![10, 20];
    inst.threshold.ki = vec![1, 3];
    inst.threshold.max_out = vec![6_000, 5_000];
    inst.threshold.min_out = vec![1_000, 500];
    inst
}

#[test]
fn pid_step_adds_the_rounded_increment() {
    let mut inst = pid();
    let mut st = SicState::default();
    assert_eq!(algo_sic(&inst, 41_000, &mut st), 5_000_000);
    assert_eq!(st, SicState { ek_1: 1_000, ek_2: 1_000, initialized: true, initial_value: 6_000_000 });
    inst.current_value = 2_000_000;
    assert_eq!(algo_sic(&inst, 43_000, &mut st), 2_000_000 - 443);
    assert_eq!((st.ek_1, st.ek_2), (-1_000, 1_000));
    inst.current_value = 0;
    assert_eq!(algo_sic(&inst, 43_000, &mut st), 500_000);
}

#[test]
fn pid_rounds_halves_away_from_zero() {
    let mut inst = pid();
    inst.threshold.ks = vec![];
    inst.threshold.kc = vec![];
    inst.threshold.ki = vec![1];
    inst.threshold.min_out = vec![];
    inst.threshold.max_out = vec![];
    inst.current_value = 100;
    let mut st = SicState { ek_1: 0, ek_2: 0, initialized: true, initial_value: 0 };
    inst.threshold.target = vec![32_500];
    assert_eq!(algo_sic(&inst, 32_000, &mut st), 101);
    inst.threshold.target = vec![31_500];
    assert_eq!(algo_sic(&inst, 32_000, &mut st), 99);
    inst.threshold.target = vec![32_499];
    assert_eq!(algo_sic(&inst, 32_000, &mut st), 100);
}

#[test]
fn pid_instance_sets_level_and_value() {
    let mut inst = pid();
    let mut st = SicState::default();
    assert_eq!(evaluate_instance(&mut inst, 41_000, &mut st), 2);
    assert_eq!(inst.current_value, 5_000_000);
    assert!(st.initialized);
}

#[test]
fn output_bounds_are_tested() {
    let mut inst = pid();
    assert!(is_evaluable(&inst, 41_000) && is_evaluable(&inst, 31_000));
    inst.threshold.min_out = vec![0, 5_001];
    assert!(!is_evaluable(&inst, 41_000));
    assert!(is_evaluable(&inst, 31_000));
    inst.threshold.min_out = vec![0, 0, 9_999];
    assert!(is_evaluable(&inst, 41_000));
    inst.threshold.min_out = vec![0, 5_001];
    inst.threshold.trig = vec![];
    assert!(is_evaluable(&inst, 41_000));
    inst.threshold.trig = vec![30_000, 40_000];
    inst.algo = AlgoType::Ss;
    assert!(is_evaluable(&inst, 41_000));
}
