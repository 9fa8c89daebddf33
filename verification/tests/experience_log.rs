use mi_thermald::ai::data_collector::{temp_path, DataCollector, Experience};
use mi_thermald::ai::engine::blank_instance;
use mi_thermald::ai::features::{DeviceReadings, FeatureExtractor, StateVector};

fn state() -> StateVector {
    let d = DeviceReadings { proc_stat: None, cpu_freqs: vec![], now_secs: 0 };
    FeatureExtractor::new().extract(&vec![], &blank_instance(), 0, &d)
}

#[test]
fn rows_have_four_decimals() {
    let mut s = state();
    s.t_cpu_max = 123_456;
    s.dt_cpu = -50_049;
    s.dt_board = -1;
    s.workload_mode = 1_000_000;
    let e = Experience { state: s, action: 7, reward: -2_345_678_912 };
    let row = e.to_csv_row();
    let cells: Vec<&str> = row.split(',').collect();
    assert_eq!(cells.len(), 34);
    assert_eq!(cells[0], "0.1235");
    assert_eq!(cells[5], "-0.0500");
    assert_eq!(cells[6], "-0.0000");
    assert_eq!(cells[16], "0.8000");
    assert_eq!(cells[31], "1.0000");
    assert_eq!(cells[32], "7");
    assert_eq!(cells[33], "-2.3457");
    assert_eq!(Experience::csv_header().split(',').count(), 34);
    assert!(Experience::csv_header().starts_with("t_cpu_max,t_cpu_avg,"));
    assert!(Experience::csv_header().ends_with(",cpu_load,workload_mode,action,reward"));
}

#[test]
fn batches_flush_every_hundred_records() {
    let mut c = DataCollector::new();
    let s = state();
    assert!(c.flush(false).is_none());
    for _ in 0..99 {
        assert!(!c.record(&s, 1, 0));
    }
    assert!(c.record(&s, 2, 1_000_000_000));
    let text = c.flush(false).unwrap();
    assert_eq!(text.lines().count(), 101);
    assert!(text.starts_with("t_cpu_max,"));
    assert!(text.ends_with(",2,1.0000\n"));
    assert!(c.buffer.is_empty());
    c.record(&s, 3, 0);
    let more = c.flush(true).unwrap();
    assert_eq!(more.lines().count(), 1);
    c.enabled = false;
    assert!(!c.record(&s, 3, 0));
    assert!(c.flush(true).is_none());
}

#[test]
fn files_have_their_names() {
    let c = DataCollector::new();
    assert_eq!(
        c.log_path(86_400 * 20_000 + 5),
        "/data/vendor/thermal/ai_data/experiences_20000.csv"
    );
    assert_eq!(c.qtable_path(), "/data/vendor/thermal/ai_data/q_table.json");
    assert_eq!(c.qtable_backup_path(), "/data/vendor/thermal/ai_data/q_table_backup.json");
    assert_eq!(temp_path("/a/b.json"), "/a/b.json.tmp");
}

#[test]
fn old_logs_expire_after_a_week() {
    let now = 1_000_000;
    let week = 7 * 86_400;
    assert!(DataCollector::is_expired_log("experiences_3.csv", now - week - 1, now));
    assert!(!DataCollector::is_expired_log("experiences_3.csv", now - week, now));
    assert!(!DataCollector::is_expired_log("q_table.json", 0, now));
    assert!(!DataCollector::is_expired_log("experiences_3.csv.tmp", 0, now));
}
