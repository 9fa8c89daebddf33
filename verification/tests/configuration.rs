use mi_thermald::config::{
    device_to_action, find_scenario_name, parse_config_blocks, parse_int_array, split_devices,
};
use mi_thermald::resolve::{load_scenario_config, load_thermal_map, target_index, MapInput};
use mi_thermald::sensor::{read_int, read_string, CoolingEntry, EngineDiscovery};
use mi_thermald::types::{ActionType, AlgoType, Sensor, SensorType};

const CONFIG: &str = "
# comment
[VIRTUAL-SENSOR0]
algo_type virtual
sensors cpu_therm battery missing
weight 500 400 100
weight_sum 1000
compensation 250
polling 2000
device none

[SS-CPU]
algo_type ss
sensor VIRTUAL-SENSOR0
device cpu0+cpu4
trig 40000 45000
clr 39000 43000
target 1+2 3+4 5+6
reverse 0

[SIC-BATT] # trailing
algo_type SIC
sensor battery
device thermal_fcc_override
trig 35000
target 37000
ks 100
ki 3
kc 5
max 6000
min 1000
";

fn names(v: &Vec<Sensor>) -> Vec<&str> {
    v.iter().map(|s| s.name.as_str()).collect()
}

#[test]
fn nodes_are_read() {
    assert_eq!(read_int(Some(" 42\n")), 42);
    assert_eq!(read_int(Some("4x")), -1);
    assert_eq!(read_int(None), -1);
    assert_eq!(read_string(Some(" a b\n")), Some("a b".to_string()));
    assert_eq!(read_string(None), None);
    assert_eq!(EngineDiscovery::read_sconfig_idx(Some("18\n")), 18);
    assert_eq!(EngineDiscovery::read_sconfig_idx(None), -1);
    let mut s = Sensor::new("x");
    assert_eq!(s.poll(5), 5);
    assert_eq!(s.poll(-7), -7);
    assert_eq!(s.last_temp_mc, 5);
}

#[test]
fn devices_map_to_actions() {
    assert_eq!(device_to_action("cpu7"), ActionType::CpuFreq);
    assert_eq!(device_to_action("hotplug_cpu3"), ActionType::CpuHotplug);
    assert_eq!(device_to_action("VIRTUAL-SENSOR0"), ActionType::NoAction);
    assert_eq!(device_to_action("gpu"), ActionType::GpuBoost);
    assert_eq!(device_to_action("battery"), ActionType::Bcl);
    assert_eq!(device_to_action("thermal_fcc_override"), ActionType::Fcc);
    assert_eq!(device_to_action("anything"), ActionType::CpuFreq);
    assert_eq!(parse_int_array("1 2 x 4", 3), vec![1, 2, 4]);
    assert_eq!(split_devices("a+b", 16), vec!["a", "b"]);
}

#[test]
fn blocks_are_parsed() {
    let b = parse_config_blocks(CONFIG);
    assert_eq!(b.len(), 3);
    assert_eq!(b[0].block_name, "VIRTUAL-SENSOR0");
    assert_eq!(b[0].sensor_list, vec!["cpu_therm", "battery", "missing"]);
    assert_eq!(b[0].weights, vec![500, 400, 100]);
    assert_eq!((b[0].weight_sum, b[0].compensation, b[0].polling), (1000, 250, 2000));
    assert_eq!(b[1].devices, vec!["cpu0", "cpu4"]);
    assert_eq!(b[1].threshold.trig, vec![40000, 45000]);
    assert_eq!(b[1].threshold.target, vec![1, 2, 3, 4, 5, 6]);
    assert_eq!(b[2].block_name, "SIC-BATT");
    assert_eq!(b[2].threshold.max_out, vec![6000]);
    assert!(parse_config_blocks("key value\n# nothing\n").is_empty());
}

#[test]
fn scenario_names_come_from_the_map() {
    let map = "[0:thermal-normal.conf]\n[18:thermal-mgame.conf]\n [6:indented.conf]\n[x:y]\n";
    assert_eq!(find_scenario_name(map, 18), "thermal-mgame.conf");
    assert_eq!(find_scenario_name(map, 6), "thermal-normal.conf");
    assert_eq!(find_scenario_name(map, -1), "y");
    assert_eq!(target_index(-1), 0);
    assert_eq!(target_index(9), 9);
}

#[test]
fn sensors_are_discovered() {
    let mut v = Vec::new();
    let zones = vec![Some("cpu_therm".to_string()), None, Some("battery".to_string())];
    EngineDiscovery::sensor_init(&mut v, &zones, &vec![-1; 6]);
    assert_eq!(v[0].path, "/sys/class/thermal/thermal_zone0/temp");
    assert_eq!(v[1].zone_id, 2);
    assert!(names(&v).contains(&"battery"));
    assert_eq!(EngineDiscovery::find_sensor(&v, &vec![], "battery"), Some(1));
    assert_eq!(EngineDiscovery::find_sensor(&v, &vec![0], "nobody"), None);
}

#[test]
fn extra_sensors_follow_the_zones() {
    let extras = EngineDiscovery::extra_sensors();
    assert_eq!(extras.len(), 6);
    let mut v = Vec::new();
    EngineDiscovery::sensor_init(&mut v, &vec![], &vec![1, 2, 3, 4, 5, 6]);
    assert_eq!(v.len(), 6);
    for (s, (name, path)) in v.iter().zip(extras.iter()) {
        assert_eq!(&s.name, name);
        assert_eq!(&s.path, path);
    }
}

#[test]
fn message_nodes_become_virtual_sensors() {
    let mut sensors = vec![Sensor::new("z")];
    let found = EngineDiscovery::vsns_init(&mut sensors);
    assert_eq!(found, vec![1, 2, 3, 4, 5, 6, 7, 8]);
    assert_eq!(sensors[1].name, "board_sensor_temp");
    assert_eq!(sensors[8].name, "dynamic_tj");
    assert_eq!(sensors[8].path, "/sys/class/thermal/thermal_message/dynamic_tj");
    assert_eq!(sensors[8].type_, SensorType::Virtual);
    let mut full: Vec<Sensor> = (0..126).map(|_| Sensor::new("z")).collect();
    assert_eq!(EngineDiscovery::vsns_init(&mut full), vec![126, 127]);
    EngineDiscovery::formula_init();
}

#[test]
fn cooling_devices_are_scanned() {
    let e = vec![
        CoolingEntry {
            dir_name: "cooling_device0".to_string(),
            type_text: Some("thermal-cpufreq-0".to_string()),
            max_state: 20,
            cur_state: 1,
        },
        CoolingEntry {
            dir_name: "thermal_zone3".to_string(),
            type_text: Some("no".to_string()),
            max_state: 1,
            cur_state: 0,
        },
    ];
    let d = EngineDiscovery::scan_cooling_devices(&e);
    assert_eq!(d.len(), 1);
    assert_eq!(d[0].name, "thermal-cpufreq-0");
    assert_eq!((d[0].max_state, d[0].cur_state), (20, 1));
}

#[test]
fn configurations_resolve_to_instances() {
    let mut sensors = vec![Sensor::new("cpu_therm"), Sensor::new("battery")];
    let (mut inst, mut sics) = (Vec::new(), Vec::new());
    assert_eq!(load_scenario_config(&mut sensors, &vec![], &mut inst, &mut sics, CONFIG), 0);
    assert_eq!(inst.len(), 3);
    assert_eq!(sics.len(), 3);
    let v = &sensors[2];
    assert_eq!(v.name, "VIRTUAL-SENSOR0");
    assert_eq!(v.type_, SensorType::Virtual);
    assert_eq!(v.inputs, vec![0, 1, 3]);
    assert_eq!(v.weights, vec![500, 400, 100]);
    assert_eq!(sensors[3].path, "/sys/class/thermal/thermal_message/missing");
    assert_eq!(inst[1].sensor_idx, Some(2));
    assert_eq!(inst[1].actions.len(), 6);
    assert_eq!(inst[1].actions[3].value, 4);
    assert_eq!(inst[1].actions[3].target, "cpu4");
    assert_eq!(inst[2].algo, AlgoType::Sic);
    assert_eq!(inst[2].actions.len(), 2);
    assert_eq!(load_scenario_config(&mut sensors, &vec![], &mut inst, &mut sics, ""), -1);
}

#[test]
fn the_default_scenario_lends_its_virtual_sensors() {
    let map = "[0:a.conf]\n[5:b.conf]\n";
    let zones = vec![Some("cpu_therm".to_string()), Some("battery".to_string())];
    let extras = vec![-1; 6];
    let other = "[SS]\nalgo_type ss\nsensor VIRTUAL-SENSOR0\ndevice cpu0\ntrig 50000\n";
    let input = MapInput {
        map_content: Some(map),
        sconfig: 5,
        zone_types: &zones,
        extra_readings: &extras,
        default_config: Some(CONFIG),
        target_config: Some(other),
    };
    let mut sensors = Vec::new();
    let (mut virt, mut inst, mut sics) = (Vec::new(), Vec::new(), Vec::new());
    let r = load_thermal_map(&mut sensors, &mut virt, &mut inst, &mut sics, &input);
    assert_eq!(r, 0);
    assert_eq!(inst.len(), 1);
    assert_eq!(virt, vec![8]);
    assert_eq!(sensors[8].inputs, vec![0, 1, 9]);
    assert_eq!(inst[0].sensor_idx, Some(8));
    let before = names(&sensors).len();
    let again = MapInput { default_config: None, target_config: Some(CONFIG), ..input };
    assert_eq!(load_thermal_map(&mut sensors, &mut virt, &mut inst, &mut sics, &again), 0);
    assert_eq!(sensors.len(), before);
    assert_eq!(inst.len(), 3);
    let none = MapInput { map_content: None, ..again };
    assert_eq!(load_thermal_map(&mut sensors, &mut virt, &mut inst, &mut sics, &none), -1);
    assert_eq!(inst.len(), 3);
    let gone = MapInput { map_content: Some(map), target_config: None, ..none };
    assert_eq!(load_thermal_map(&mut sensors, &mut virt, &mut inst, &mut sics, &gone), -1);
    assert!(inst.is_empty());
}
