use mi_thermald::ai::channels::ChannelGroup;
use mi_thermald::ai::features::{
    array_of, parse_cpu_times, CpuTimes, DeviceReadings, FeatureExtractor, StateVector,
};
use mi_thermald::ai::engine::blank_instance;
use mi_thermald::ai::qtable::{Draws, QTable, EPSILON_MIN, EPSILON_START, PICKS};
use mi_thermald::ai::rewards::RewardCalculator;
use mi_thermald::ai::workload::WorkloadMode;
use mi_thermald::types::Sensor;

fn sensor(name: &str, mc: i32) -> Sensor {
    let mut s = Sensor::new(name);
    s.last_temp_mc = mc;
    s
}

fn device(stat: Option<&str>) -> DeviceReadings {
    DeviceReadings {
        proc_stat: stat.map(|s| s.to_string()),
        cpu_freqs: vec![],
        now_secs: 18 * 3600,
    }
}

fn state() -> StateVector {
    let mut e = FeatureExtractor::new();
    e.extract(&vec![], &blank_instance(), 0, &device(None))
}

#[test]
fn temperatures_are_normalized() {
    let mut e = FeatureExtractor::new();
    let v = vec![
        sensor("cpu0", 50_000),
        sensor("tsens1", 70_000),
        sensor("board-1", 41_000),
        sensor("battery", 33_000),
        sensor("battery_current", -3_000_000),
        sensor("battery_voltage", 4_200_000),
        sensor("BAT_SOC", 80),
        sensor("ambient", -5_000),
        sensor("kgsl", 200_000),
        sensor("charger", 44_444),
    ];
    let s = e.extract(&v, &blank_instance(), 0, &device(None));
    assert_eq!(s.t_cpu_max, 700_000);
    assert_eq!(s.t_cpu_avg, 600_000);
    assert_eq!(s.t_board_max, 410_000);
    assert_eq!(s.t_battery, 330_000);
    assert_eq!(s.t_ambient, 0);
    assert_eq!(s.t_gpu, 1_000_000);
    assert_eq!(s.t_charger, 444_440);
    assert_eq!(s.battery_soc, 800_000);
    assert_eq!(s.is_charging, 1_000_000);
    assert_eq!(s.battery_current, 500_000);
    assert_eq!(s.dt_cpu, 70_000);
    assert_eq!(s.dt_battery, 66_000);
    assert_eq!(s.temp_headroom_cpu, 176_470);
    assert_eq!(s.temp_headroom_battery, 266_666);
    assert_eq!(s.time_of_day, 750_000);
    assert_eq!(s.cpu_freq_ratio, 800_000);
    assert_eq!(s.screen_on, 1_000_000);
    let s = e.extract(&v, &blank_instance(), 0, &device(None));
    assert_eq!(s.dt_cpu, 0);
}

#[test]
fn spread_ignores_readings_that_are_no_temperatures() {
    let mut e = FeatureExtractor::new();
    let v = vec![sensor("a", 30_000), sensor("b", 50_000), sensor("BAT_SOC", 99)];
    let s = e.extract(&v, &blank_instance(), 0, &device(None));
    assert_eq!(s.temp_variance, 500_000);
    let v = vec![sensor("a", 30_000), sensor("battery_voltage", 4_000_000)];
    let s = e.extract(&v, &blank_instance(), 0, &device(None));
    assert_eq!(s.temp_variance, 0);
    let v = vec![sensor("a", 0), sensor("b", 100_000)];
    let s = e.extract(&v, &blank_instance(), 0, &device(None));
    assert_eq!(s.temp_variance, 1_000_000);
}

#[test]
fn averages_cover_ten_ticks() {
    let mut e = FeatureExtractor::new();
    let mut inst = blank_instance();
    inst.threshold.trig = vec![1, 2, 3, 4];
    let mut last = state();
    for k in 1..=12 {
        let v = vec![sensor("cpu", k * 1_000)];
        last = e.extract(&v, &inst, 2, &device(None));
    }
    assert_eq!(last.t_cpu_ma_10, 75_000);
    assert_eq!(last.thermal_level_traditional, 500_000);
    assert_eq!(last.thermal_level_ma_10, 500_000);
    assert_eq!(e.cpu_temp_history.len(), 10);
}

#[test]
fn processor_load_is_measured_between_readings() {
    let mut e = FeatureExtractor::new();
    let first = "cpu  100 0 100 800 5\ncpu0 1 2 3 4\n";
    assert_eq!(parse_cpu_times(first), Some(CpuTimes { idle: 800, total: 1_000 }));
    assert_eq!(parse_cpu_times("cpu 1 2 3"), None);
    assert_eq!(parse_cpu_times(""), None);
    let none = vec![];
    let s = e.extract(&none, &blank_instance(), 0, &device(Some(first)));
    assert_eq!(s.cpu_load, 0);
    let s = e.extract(&none, &blank_instance(), 0, &device(Some("cpu 150 0 125 825 9")));
    assert_eq!(s.cpu_load, 750_000);
    let s = e.extract(&none, &blank_instance(), 0, &device(Some("cpu 150 0 125 825 9")));
    assert_eq!(s.cpu_load, 0);
}

#[test]
fn frequency_ratio_is_averaged() {
    let mut e = FeatureExtractor::new();
    let mut d = device(None);
    d.cpu_freqs = vec![(1_000, 2_000), (-1, 3_000), (3_000, 3_000)];
    let s = e.extract(&vec![], &blank_instance(), 0, &d);
    assert_eq!(s.cpu_freq_ratio, 750_000);
}

#[test]
fn states_have_34_dimensions_in_order() {
    let mut s = state();
    s.t_cpu_max = 1;
    s.temp_variance = 20;
    s.charge_current_ratio = 34;
    let a = array_of(&s);
    assert_eq!(a.len(), 34);
    assert_eq!((a[0], a[19], a[33]), (1, 20, 34));
    assert_eq!(FeatureExtractor::new().to_array(&s), a);
}

#[test]
fn rewards_match_their_formula() {
    let mut r = RewardCalculator::new();
    let mut s = state();
    s.cpu_freq_ratio = 500_000;
    assert_eq!(r.compute_reward(&s, 2, 2), 500_000_000);
    assert_eq!(r.compute_reward(&s, 2, 4), -100_000_000);
    s.t_cpu_max = 800_000;
    assert_eq!(r.compute_reward(&s, 0, 0), 500_000_000 - 2_500_000_000);
    s.t_cpu_max = 860_000;
    assert_eq!(r.compute_reward(&s, 0, 0), 500_000_000 - 50_000_000_000);
    s.t_cpu_max = 0;
    s.t_battery = 370_000;
    assert_eq!(r.compute_reward(&s, 0, 0), 500_000_000 - 4 * 400_000_000);
    s.t_battery = 340_000;
    assert_eq!(r.compute_reward(&s, 0, 0), 500_000_000 - 4 * 100_000_000);
    s.t_battery = 381_000;
    assert_eq!(r.compute_reward(&s, 0, 0), 500_000_000 - 4 * 10_000_000_000);
    s.t_battery = 0;
    s.dt_battery = 1_000;
    assert_eq!(r.compute_reward(&s, 0, 0), 500_000_000 - 4 * 4_000_000);
    s.dt_battery = -1_000;
    assert_eq!(r.compute_reward(&s, 0, 0), 500_000_000 + 4 * 500_000);
    r.set_workload_mode(WorkloadMode::PerfGaming);
    assert_eq!(r.compute_reward(&s, 0, 0), 1_750_000_000 + 875_000);
    s.is_charging = 1_000_000;
    s.battery_current = 200_000;
    assert_eq!(r.compute_reward(&s, 0, 0), 1_750_875_000 + 100_000_000);
}

#[test]
fn group_rewards_match_their_table() {
    let r = RewardCalculator::new();
    let mut s = state();
    s.cpu_freq_ratio = 600_000;
    s.gpu_freq_ratio = 400_000;
    s.brightness_ratio = 250_000;
    s.charge_current_ratio = 800_000;
    s.t_cpu_max = 800_000;
    s.last_action_compute = 1_000_000;
    let temp = -500_000_000i128;
    assert_eq!(
        r.compute_group_reward(&s, ChannelGroup::Compute, 9),
        temp + 800_000_000
    );
    assert_eq!(
        r.compute_group_reward(&s, ChannelGroup::Compute, 7),
        temp + 800_000_000 - 600_000_000
    );
    assert_eq!(r.compute_group_reward(&s, ChannelGroup::Thermal, 0), temp);
    assert_eq!(r.compute_group_reward(&s, ChannelGroup::Charging, 0), 400_000_000);
    assert_eq!(
        r.compute_group_reward(&s, ChannelGroup::Display, 1),
        temp / 2 + 500_000_000 - 300_000_000
    );
    s.t_cpu_max = 900_000;
    s.brightness_ratio = 0;
    assert_eq!(r.compute_group_reward(&s, ChannelGroup::Thermal, 0), -10_000_000_000);
    assert_eq!(r.compute_group_reward(&s, ChannelGroup::Display, 0), -5_000_000_000);
}

#[test]
fn fresh_tables_value_everything_the_same() {
    let q = QTable::new();
    let s = array_of(&state());
    assert_eq!(q.weights().len(), 262_144);
    assert_eq!(q.get_q_value(&s, 4), 0);
    assert_eq!(q.best_actions(&s), vec![0, 1, 2, 3, 4, 5, 6, 7, 8, 9]);
    assert_eq!(q.epsilon(), EPSILON_START);
}

#[test]
fn learning_moves_the_value_towards_the_reward() {
    let mut q = QTable::new();
    let s = array_of(&state());
    q.update(&s, 4, 1_000_000_000, &s);
    let tiles = q.tile_coding.get_tiles(&s, 4);
    let mut distinct = tiles.clone();
    distinct.sort();
    distinct.dedup();
    assert_eq!(distinct.len(), 8);
    assert_eq!(q.weights()[tiles[0]], 12_500_000);
    assert_eq!(q.get_q_value(&s, 4), 100_000_000);
    assert_eq!(q.best_actions(&s), vec![4]);
    assert_eq!(q.greedy_action(&s), 4);
    q.update(&s, 4, 1_000_000_000, &s);
    assert_eq!(q.get_q_value(&s, 4), 100_000_000 + 8 * 12_437_500 - 0);
    let mut q = QTable::new();
    q.update(&s, 2, -8_000, &s);
    assert_eq!(q.get_q_value(&s, 2), -800);
    assert_eq!(q.best_actions(&s).len(), 9);
}

#[test]
fn exploration_decays_over_a_week() {
    let mut q = QTable::new();
    let s = array_of(&state());
    assert!(q.select_action(&s) < 10);
    assert_eq!(q.tick_count, 1);
    q.tick_count = 302_399;
    q.select_action(&s);
    assert_eq!(q.epsilon(), 175_000);
    q.tick_count = 700_000;
    q.select_action(&s);
    assert_eq!(q.epsilon(), EPSILON_MIN);
}

#[test]
fn selections_explore_and_exploit() {
    let best = vec![3, 8];
    assert_eq!(QTable::choice(300_000, 299_999, 6, &best, 1), 6);
    assert_eq!(QTable::choice(300_000, 300_000, 6, &best, 1), 8);
    let mut q = QTable::new();
    q.tick_count = 700_000;
    let s = array_of(&state());
    q.update(&s, 5, 1_000_000_000, &s);
    let mut greedy = 0;
    let mut seen = std::collections::HashSet::new();
    for _ in 0..2_000 {
        let a = q.select_action(&s);
        assert!(a < 10);
        seen.insert(a);
        if a == 5 {
            greedy += 1;
        }
    }
    assert!(greedy > 1_700);
    assert!(seen.len() > 5);
}

#[test]
fn weights_are_taken_over_whole() {
    let mut a = QTable::new();
    let s = array_of(&state());
    a.update(&s, 7, 5_000_000_000, &s);
    let mut b = QTable::new();
    assert!(b.set_weights(a.weights()).is_some());
    assert_eq!(b.get_q_value(&s, 7), a.get_q_value(&s, 7));
    assert!(b.set_weights(&vec![0; 10]).is_none());
    assert_eq!(b.get_q_value(&s, 7), 500_000_000);
}

#[test]
fn drawn_values_decide_the_selection() {
    let s = array_of(&state());
    let mut q = QTable::new();
    q.update(&s, 5, -1_000_000_000, &s);
    let best = vec![0, 1, 2, 3, 4, 6, 7, 8, 9];
    assert_eq!(q.best_actions(&s), best);
    // Below the exploration rate the drawn action is taken, the worst one too.
    assert_eq!(q.select_with(&s, 299_998, 5, 0), 5);
    assert_eq!(q.tick_count, 1);
    // Above it the pick chooses among the best.
    assert_eq!(q.select_with(&s, 300_000, 5, 5), 6);
    assert_eq!(q.select_with(&s, 999_999, 5, 8), 9);
    for pick in 0..20 {
        let d = Draws { share: 999_999, action: 5, pick };
        assert_eq!(q.select_drawn(&s, &d), best[pick % 9]);
    }
    q.update(&s, 7, 1_000_000_000, &s);
    for pick in 0..20 {
        let d = Draws { share: 999_999, action: 5, pick };
        assert_eq!(q.select_drawn(&s, &d), 7);
    }
    q.tick_count = 604_800;
    assert_eq!(q.select_with(&s, 49_999, 2, 0), 2);
    assert_eq!(q.select_with(&s, 50_000, 2, 0), 7);
}

#[test]
fn every_draw_is_in_range() {
    for _ in 0..200 {
        let d = Draws::draw();
        assert!(d.share < 1_000_000 && d.action < 10 && d.pick < PICKS);
    }
}
