use mi_thermald::action::{
    action_apply, action_apply_multi, cpuinfo_max_path, cpuinfo_min_path, default_probe_paths,
    resolve_default_action_value, set_bcl, set_boost_limit, set_brightness, set_cpu_freq,
    set_cpu_hotplug, set_max_brightness, set_shutdown_policy, set_temp_aware, WritePlan,
};
use mi_thermald::types::{Action, ActionType};

fn act(type_: ActionType, target: &str, value: i32) -> Action {
    Action { type_, target: target.to_string(), value }
}

fn run(plan: &WritePlan, accepts: &[&str]) -> (i32, Option<String>) {
    let mut failures = 0;
    while let Some(path) = plan.attempt(failures) {
        if accepts.contains(&path.as_str()) {
            return (plan.status(failures), Some(path));
        }
        failures += 1;
    }
    (plan.status(failures), None)
}

#[test]
fn processor_paths() {
    assert_eq!(
        cpuinfo_max_path("cpu4"),
        "/sys/devices/system/cpu/cpu4/cpufreq/cpuinfo_max_freq"
    );
    assert_eq!(
        cpuinfo_min_path("cpu-cluster-7"),
        "/sys/devices/system/cpu/cpufreq/policy7/cpuinfo_min_freq"
    );
    assert_eq!(
        cpuinfo_max_path("policy3"),
        "/sys/devices/system/cpu/cpufreq/policy3/cpuinfo_max_freq"
    );
    assert_eq!(
        set_cpu_freq("policy7", 1).paths,
        vec!["/sys/devices/system/cpu/cpufreq/policy7/scaling_max_freq"]
    );
    let plan = set_cpu_freq("cpu-cluster-3", 1_800_000);
    assert_eq!(plan.paths, vec!["/sys/devices/system/cpu/cpufreq/policy3/scaling_max_freq"]);
    assert_eq!(plan.value, 1_800_000);
    let plan = set_cpu_hotplug("hotplug_cpu6", false);
    assert_eq!(plan.paths, vec!["/sys/devices/system/cpu/cpu6/online"]);
    assert_eq!(plan.value, 0);
    assert_eq!(set_cpu_hotplug("cpu5", true).paths, vec!["/sys/devices/system/cpu/cpu5/online"]);
    assert_eq!(set_cpu_hotplug("4", true).paths, vec!["/sys/devices/system/cpu/cpu4/online"]);
}

#[test]
fn fallbacks_are_tried_in_order() {
    let plan = set_brightness(300);
    assert_eq!(plan.paths.len(), 3);
    assert_eq!(
        run(&plan, &["/sys/class/leds/lcd-backlight/brightness"]),
        (0, Some("/sys/class/leds/lcd-backlight/brightness".to_string()))
    );
    assert_eq!(run(&plan, &[]), (-1, None));
    let both = [
        "/sys/class/power_supply/battery/current_max",
        "/sys/class/power_supply/battery/constant_charge_current",
    ];
    assert_eq!(
        run(&set_bcl(2_000_000), &both).1.unwrap(),
        "/sys/class/power_supply/battery/constant_charge_current"
    );
    assert_eq!(set_max_brightness(5).paths[1], "/sys/class/thermal/thermal_message/thermal_max_brightness");
    assert_eq!(set_temp_aware(true).paths[0], "/sys/class/power_debug/temp_aware");
    assert_eq!(set_boost_limit(true).value, 1);
    assert_eq!(set_shutdown_policy(false).paths, vec!["/data/vendor/thermal/shutdown_policy0"]);
}

#[test]
fn actions_are_dispatched() {
    let p = action_apply(&act(ActionType::ModemLimit, "", 7)).unwrap();
    assert_eq!((p.paths[0].as_str(), p.value), ("/sys/class/thermal/thermal_message/modem_limit", 1));
    let p = action_apply(&act(ActionType::WifiLimit, "", 7)).unwrap();
    assert_eq!((p.paths[0].as_str(), p.value), ("/sys/class/thermal/thermal_message/wifi_limit", 7));
    let p = action_apply(&act(ActionType::Fcc, "", 9)).unwrap();
    assert_eq!(p.paths, vec!["/sys/class/power_supply/battery/constant_charge_current"]);
    assert!(action_apply(&act(ActionType::NoAction, "", 1)).is_none());
    let p = action_apply(&act(ActionType::GpuBoost, "gpu", 500_000_000)).unwrap();
    let gpu = "/sys/class/kgsl/kgsl-3d0/devfreq/max_freq";
    assert_eq!((p.paths[0].as_str(), p.value), (gpu, 500_000_000));
    assert_eq!(run(&p, &[gpu]), (0, Some(gpu.to_string())));
    assert_eq!(run(&p, &[]).0, -1);
    let all = vec![
        act(ActionType::Cdsp, "", 2),
        act(ActionType::NoAction, "", 3),
        act(ActionType::CpuHotplug, "hotplug_cpu1", 5),
    ];
    let plans = action_apply_multi(&all);
    assert_eq!(plans.len(), 2);
    assert_eq!(plans[0].paths, vec!["/sys/class/thermal/thermal_message/cdsp"]);
    assert_eq!(plans[1].value, 1);
}

#[test]
fn defaults_are_resolved_from_probes() {
    let mut a = act(ActionType::CpuFreq, "cpu0", 0);
    assert_eq!(
        default_probe_paths(&a),
        vec!["/sys/devices/system/cpu/cpu0/cpufreq/cpuinfo_max_freq"]
    );
    resolve_default_action_value(&mut a, &vec![2_016_000]);
    assert_eq!(a.value, 2_016_000);
    assert!(default_probe_paths(&a).is_empty());
    resolve_default_action_value(&mut a, &vec![1]);
    assert_eq!(a.value, 2_016_000);

    let mut a = act(ActionType::CpuFreq, "cpu0", 0);
    resolve_default_action_value(&mut a, &vec![-1]);
    assert_eq!(a.value, 3_000_000);
    let mut a = act(ActionType::CpuHotplug, "cpu3", 0);
    resolve_default_action_value(&mut a, &vec![0]);
    assert_eq!(a.value, 1);
    let mut a = act(ActionType::Bcl, "", 0);
    resolve_default_action_value(&mut a, &vec![0]);
    assert_eq!(a.value, 5_000_000);
    let mut a = act(ActionType::Fcc, "", 0);
    assert_eq!(default_probe_paths(&a).len(), 2);
    resolve_default_action_value(&mut a, &vec![-1, 4_500_000]);
    assert_eq!(a.value, 4_500_000);
    let mut a = act(ActionType::Fcc, "", 0);
    resolve_default_action_value(&mut a, &vec![0, 0]);
    assert_eq!(a.value, 6_000_000);
    let mut a = act(ActionType::Brightness, "", 0);
    resolve_default_action_value(&mut a, &vec![5]);
    assert_eq!(a.value, 0);
}
