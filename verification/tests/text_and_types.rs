use mi_thermald::ai::lerp_by_action;
use mi_thermald::text::{
    chars_of, contains, ends_with, int_text, lines_of, parse_int, parse_int_or, parse_unsigned,
    push_int, split_at, starts_with, string_of, text_after_last, trimmed, words_of,
};
use mi_thermald::types::{AlgoType, Sensor, SensorType, SicState, Threshold};

fn s(v: &Vec<char>) -> String {
    string_of(v)
}

#[test]
fn text_is_trimmed_and_split() {
    assert_eq!(s(&trimmed(&chars_of(" \t ab c \r\n"))), "ab c");
    let w: Vec<String> = words_of(&chars_of("  a  bc\td ")).iter().map(s).collect();
    assert_eq!(w, vec!["a", "bc", "d"]);
    let l: Vec<String> = lines_of(&chars_of("x\r\ny\n\nz")).iter().map(s).collect();
    assert_eq!(l, vec!["x", "y", "", "z"]);
    let p: Vec<String> = split_at(&chars_of("1+2++3"), '+').iter().map(s).collect();
    assert_eq!(p, vec!["1", "2", "", "3"]);
}

#[test]
fn parts_are_found() {
    let v = chars_of("cpu-cluster-12");
    assert!(starts_with(&v, "cpu"));
    assert!(ends_with(&v, "-12"));
    assert!(contains(&v, "cluster"));
    assert!(!contains(&v, "gpu"));
    assert_eq!(text_after_last(&v, '-').map(|t| s(&t)), Some("12".to_string()));
    assert!(text_after_last(&v, '#').is_none());
}

#[test]
fn numbers_read_and_write() {
    assert_eq!(parse_int(&chars_of("-2147483648")), Some(i32::MIN));
    assert_eq!(parse_int(&chars_of("2147483648")), None);
    assert_eq!(parse_int(&chars_of("+7")), Some(7));
    assert_eq!(parse_int(&chars_of("")), None);
    assert_eq!(parse_int(&chars_of("-")), None);
    assert_eq!(parse_int(&chars_of("4 ")), None);
    assert_eq!(parse_int_or(&chars_of("x"), -1), -1);
    assert_eq!(parse_unsigned(&chars_of("65535"), 65535), Some(65535));
    assert_eq!(parse_unsigned(&chars_of("65536"), 65535), None);
    for n in [i32::MIN, -10, -1, 0, 9, 10, 12345, i32::MAX] {
        assert_eq!(parse_int(&chars_of(&int_text(n as i64))), Some(n));
    }
    let mut out = String::from("n=");
    push_int(&mut out, -42);
    assert_eq!(out, "n=-42");
}

#[test]
fn types_have_their_codes() {
    assert_eq!(SensorType::from_i32(1), SensorType::Virtual);
    assert_eq!(SensorType::from_i32(2), SensorType::Formula);
    assert_eq!(SensorType::from_i32(77), SensorType::ThermalZone);
    assert_eq!(AlgoType::from_str("SIC"), AlgoType::Sic);
    assert_eq!(AlgoType::from_str("Virtual"), AlgoType::Virtual);
    assert_eq!(AlgoType::from_str("sS"), AlgoType::Ss);
    assert_eq!(AlgoType::from_str("simulated"), AlgoType::Simulated);
    assert_eq!(AlgoType::from_str("what"), AlgoType::Monitor);
    assert_eq!(AlgoType::Sic.code(), 4);
    assert_eq!(AlgoType::Monitor.label(), "Monitor");
}

#[test]
fn new_values_are_as_documented() {
    let x = Sensor::new("cpu0");
    assert_eq!(x.name, "cpu0");
    assert_eq!((x.zone_id, x.cdev_id, x.poll_ms, x.last_temp_mc), (-1, -1, 1000, 0));
    assert_eq!(Threshold::default().n_levels(), 0);
    assert_eq!(SicState::default().initial_value, 6_000_000);
}

#[test]
fn interpolation_matches_the_frequency_table() {
    let policies = [(604_800, 2_016_000), (840_960, 2_803_200), (904_320, 3_014_400)];
    let expected = [
        [604_800, 1_075_200, 1_545_600, 2_016_000],
        [840_960, 1_495_040, 2_149_120, 2_803_200],
        [904_320, 1_607_680, 2_311_040, 3_014_400],
    ];
    for (k, (lo, hi)) in policies.iter().enumerate() {
        for (j, action) in [0u8, 3, 6, 9].iter().enumerate() {
            assert_eq!(lerp_by_action(*action, *lo, hi - lo, true), expected[k][j]);
        }
    }
    assert_eq!(lerp_by_action(0, 0, 5, false), 5);
    assert_eq!(lerp_by_action(9, 0, 5, false), 0);
    assert_eq!(lerp_by_action(4, 0, 5, false), 2);
    assert_eq!(lerp_by_action(200, 10, 90, true), 100);
    assert_eq!(lerp_by_action(9, 0, 1_100_000_000, true), 1_100_000_000);
}
