//! Sensor discovery and polling, over readings taken by the caller.

use vstd::prelude::*;

use crate::text::{chars_of, int_text, join, parse_int_or, same_text, starts_with, trimmed};
#[allow(unused_imports)]
use crate::text::{has_prefix, int_or, show, trim};
use crate::types::{
    CoolingDevice, Sensor, SensorType, MI_MAX_CDEV, MI_MAX_SENSORS, MI_MAX_VSNS,
    MI_POLL_INTERVAL_MS_DEFAULT,
};
#[allow(unused_imports)]
use crate::types::{
    fresh_sensor, lemma_sensor_views_push, sensor_views, SensorView,
};

verus! {

// ---------------------------------------------------------------------------
// Node contents
// ---------------------------------------------------------------------------

/// What an integer node reads as: its trimmed text as a number, and -1 when the
/// node is unreadable or holds no number.
pub open spec fn node_int(content: Option<Seq<char>>) -> i32 {
    match content {
        Some(c) => int_or(trim(c), -1i32),
        None => -1i32,
    }
}

/// The integer value of a device node, given the node's content if it could be read.
pub fn read_int(content: Option<&str>) -> (r: i32)
    ensures
        r == node_int(match content {
            Some(c) => Some(c@),
            None => None,
        }),
{
    match content {
        Some(c) => {
            let v = chars_of(c);
            let t = trimmed(&v);
            parse_int_or(&t, -1)
        },
        None => -1,
    }
}

/// The trimmed text of a device node, if it could be read.
pub fn read_string(content: Option<&str>) -> (r: Option<String>)
    ensures
        match content {
            Some(c) => r is Some && r->Some_0@ == trim(c@),
            None => r is None,
        },
{
    match content {
        Some(c) => {
            let v = chars_of(c);
            Some(crate::text::string_of(&trimmed(&v)))
        },
        None => None,
    }
}

/// A sensor after a reading.
pub open spec fn polled(s: SensorView, reading: i32) -> SensorView {
    SensorView {
        last_temp_mc: if reading >= 0 {
            reading
        } else {
            s.last_temp_mc
        },
        ..s
    }
}

impl Sensor {
    /// Takes over a reading; negative readings leave the last value in place.
    pub fn poll(&mut self, reading: i32) -> (r: i32)
        ensures
            r == reading,
            final(self)@ == polled(old(self)@, reading),
    {
        if reading >= 0 {
            self.last_temp_mc = reading;
        }
        reading
    }
}

// ---------------------------------------------------------------------------
// Discovery
// ---------------------------------------------------------------------------

pub struct EngineDiscovery;

/// The position of the first sensor called `name`, or the number of sensors.
pub open spec fn named_at(s: Seq<SensorView>, name: Seq<char>) -> int
    decreases s.len(),
{
    if s.len() == 0 || s[0].name == name {
        0
    } else {
        1 + named_at(s.drop_first(), name)
    }
}

/// The first sensor called `name`.
pub open spec fn sensor_named(s: Seq<SensorView>, name: Seq<char>) -> Option<usize> {
    if named_at(s, name) < s.len() {
        Some(named_at(s, name) as usize)
    } else {
        None
    }
}

pub proof fn lemma_named_at(s: Seq<SensorView>, name: Seq<char>)
    ensures
        0 <= named_at(s, name) <= s.len(),
        named_at(s, name) < s.len() ==> s[named_at(s, name)].name == name,
        forall|i: int| 0 <= i < named_at(s, name) ==> (#[trigger] s[i]).name != name,
    decreases s.len(),
{
    if s.len() != 0 && s[0].name != name {
        let t = s.drop_first();
        lemma_named_at(t, name);
        assert forall|i: int| 0 <= i < named_at(s, name) implies (#[trigger] s[i]).name != name by {
            if i > 0 {
                assert(t[i - 1] == s[i]);
            }
        }
    }
}

/// The path of a file of a thermal zone.
pub open spec fn zone_path(z: int, leaf: Seq<char>) -> Seq<char> {
    "/sys/class/thermal/thermal_zone"@ + show(z) + leaf
}

pub fn zone_file(z: i32, leaf: &str) -> (r: String)
    ensures
        r@ == zone_path(z as int, leaf@),
{
    let base = join("/sys/class/thermal/thermal_zone", int_text(z as i64).as_str());
    join(base.as_str(), leaf)
}

/// The sensor of thermal zone `z`.
pub open spec fn zone_sensor(z: int, name: Seq<char>) -> SensorView {
    SensorView { zone_id: z as i32, path: zone_path(z, "/temp"@), ..fresh_sensor(name) }
}

/// The thermal zones among the first `n` that report a type, appended while
/// the sensor table has room.
pub open spec fn with_zones(
    s: Seq<SensorView>,
    types: Seq<Option<Seq<char>>>,
    n: int,
) -> Seq<SensorView>
    decreases n,
{
    if n <= 0 {
        s
    } else {
        let t = with_zones(s, types, n - 1);
        match types[n - 1] {
            Some(name) if t.len() < MI_MAX_SENSORS => t.push(zone_sensor(n - 1, name)),
            _ => t,
        }
    }
}

/// The fixed sensors outside the thermal zones: name and path.
pub open spec fn extra_sensor_paths() -> Seq<(Seq<char>, Seq<char>)> {
    seq![
        (
            "ambient_sensor_temp"@,
            "/sys/class/thermal/thermal_message/ambient_sensor_temp"@,
        ),
        ("connector_temp"@, "/sys/class/qcom-battery/connector_temp"@),
        ("BAT_SOC"@, "/sys/class/power_supply/battery/capacity"@),
        ("battery_current"@, "/sys/class/power_supply/battery/current_now"@),
        ("battery_temp"@, "/sys/class/power_supply/battery/temp"@),
        ("battery_voltage"@, "/sys/class/power_supply/battery/voltage_now"@),
    ]
}

/// The fixed sensor `k` with its first reading; a negative reading counts as 0.
pub open spec fn extra_sensor(k: int, reading: i32) -> SensorView {
    SensorView {
        path: extra_sensor_paths()[k].1,
        last_temp_mc: if reading >= 0 {
            reading
        } else {
            0
        },
        ..fresh_sensor(extra_sensor_paths()[k].0)
    }
}

/// The first `n` fixed sensors, appended while the sensor table has room.
pub open spec fn with_extras(s: Seq<SensorView>, readings: Seq<i32>, n: int) -> Seq<SensorView>
    decreases n,
{
    if n <= 0 {
        s
    } else {
        let t = with_extras(s, readings, n - 1);
        if t.len() < MI_MAX_SENSORS {
            t.push(extra_sensor(n - 1, readings[n - 1]))
        } else {
            t
        }
    }
}

/// The nodes that the virtual board sensors are read from.
pub open spec fn vsn_paths() -> Seq<(Seq<char>, Seq<char>)> {
    seq![
        ("board_sensor_temp"@, "/sys/class/thermal/thermal_message/board_sensor_temp"@),
        (
            "board_sensor_second_temp"@,
            "/sys/class/thermal/thermal_message/board_sensor_second_temp"@,
        ),
        (
            "board_sensor_charge_temp"@,
            "/sys/class/thermal/thermal_message/board_sensor_charge_temp"@,
        ),
        (
            "board_sensor_other_temp"@,
            "/sys/class/thermal/thermal_message/board_sensor_other_temp"@,
        ),
        ("ambient_sensor"@, "/sys/class/thermal/thermal_message/ambient_sensor"@),
        ("charger_temp"@, "/sys/class/thermal/thermal_message/charger_temp"@),
        ("display_therm_temp"@, "/sys/class/thermal/thermal_message/display_therm_temp"@),
        ("dynamic_tj"@, "/sys/class/thermal/thermal_message/dynamic_tj"@),
    ]
}

pub open spec fn vsn_sensor(k: int) -> SensorView {
    SensorView {
        path: vsn_paths()[k].1,
        type_: SensorType::Virtual,
        ..fresh_sensor(vsn_paths()[k].0)
    }
}

/// How many of the board sensors the sensor table still takes.
pub open spec fn vsn_count(len: int) -> int {
    let room = MI_MAX_SENSORS - len;
    if room <= 0 {
        0
    } else if room < 8 {
        room
    } else {
        8
    }
}

/// The types that the thermal zones report, as text.
pub open spec fn zone_types(v: Seq<Option<String>>) -> Seq<Option<Seq<char>>> {
    v.map_values(
        |o: Option<String>|
            match o {
                Some(s) => Some(s@),
                None => None,
            },
    )
}

/// A cooling device directory as it was read: its name, the content of its
/// `type` file, and its maximum and current state.
pub struct CoolingEntry {
    pub dir_name: String,
    pub type_text: Option<String>,
    pub max_state: i32,
    pub cur_state: i32,
}

pub struct CoolingView {
    pub name: Seq<char>,
    pub path: Seq<char>,
    pub max_state: i32,
    pub cur_state: i32,
}

impl View for CoolingDevice {
    type V = CoolingView;

    open spec fn view(&self) -> CoolingView {
        CoolingView {
            name: self.name@,
            path: self.path@,
            max_state: self.max_state,
            cur_state: self.cur_state,
        }
    }
}

pub open spec fn cooling_views(v: Seq<CoolingDevice>) -> Seq<CoolingView> {
    v.map_values(|d: CoolingDevice| d@)
}

/// The cooling device of a directory entry.
pub open spec fn cooling_of(e: CoolingEntry) -> CoolingView {
    CoolingView {
        name: match e.type_text {
            Some(t) => t@,
            None => e.dir_name@,
        },
        path: "/sys/class/thermal/"@ + e.dir_name@,
        max_state: e.max_state,
        cur_state: e.cur_state,
    }
}

/// The cooling devices among the first `n` entries, at most `MI_MAX_CDEV` of them.
pub open spec fn cooling_devices_of(v: Seq<CoolingEntry>, n: int) -> Seq<CoolingView>
    decreases n,
{
    if n <= 0 {
        Seq::empty()
    } else {
        let t = cooling_devices_of(v, n - 1);
        if has_prefix(v[n - 1].dir_name@, "cooling_device"@) && t.len() < MI_MAX_CDEV {
            t.push(cooling_of(v[n - 1]))
        } else {
            t
        }
    }
}

fn fixed_sensor(name: &str, path: &str) -> (r: Sensor)
    ensures
        r@ == (SensorView { path: path@, ..fresh_sensor(name@) }),
{
    let mut s = Sensor::new(name);
    s.path = path.to_string();
    s.type_ = SensorType::ThermalZone;
    s.poll_ms = MI_POLL_INTERVAL_MS_DEFAULT;
    s
}

impl EngineDiscovery {
    /// Appends the discovered sensors. `types[z]` is the type that thermal zone
    /// `z` reports, if it exists, and `readings[k]` the first reading of the
    /// fixed sensor `k`.
    pub fn sensor_init(sensors: &mut Vec<Sensor>, types: &Vec<Option<String>>, readings: &Vec<i32>)
        requires
            types.len() <= MI_MAX_SENSORS,
            readings.len() == 6,
        ensures
            sensor_views(final(sensors)@) == with_extras(
                with_zones(sensor_views(old(sensors)@), zone_types(types@), types@.len() as int),
                readings@,
                6,
            ),
    {
        let ghost start = sensor_views(sensors@);
        let ghost zt = zone_types(types@);
        let mut z: usize = 0;
        while z < types.len()
            invariant
                z <= types.len() <= MI_MAX_SENSORS,
                zt == zone_types(types@),
                sensor_views(sensors@) == with_zones(start, zt, z as int),
            decreases types.len() - z,
        {
            assert(zt[z as int] == match types@[z as int] {
                Some(s) => Some(s@),
                None => None,
            });
            match &types[z] {
                Some(name) => {
                    if sensors.len() < MI_MAX_SENSORS {
                        let mut s = Sensor::new(name.as_str());
                        s.zone_id = z as i32;
                        s.path = zone_file(z as i32, "/temp");
                        proof {
                            lemma_sensor_views_push(sensors@, s);
                            assert(s@ == zone_sensor(z as int, name@));
                        }
                        sensors.push(s);
                    }
                },
                None => {},
            }
            z += 1;
        }
        let ghost mid = sensor_views(sensors@);
        let extras = Self::extra_sensors();
        let mut k: usize = 0;
        while k < extras.len()
            invariant
                k <= extras.len() == 6,
                readings.len() == 6,
                forall|i: int|
                    0 <= i < 6 ==> (#[trigger] extras@[i]).0@ == extra_sensor_paths()[i].0
                        && extras@[i].1@ == extra_sensor_paths()[i].1,
                sensor_views(sensors@) == with_extras(mid, readings@, k as int),
            decreases extras.len() - k,
        {
            if sensors.len() < MI_MAX_SENSORS {
                let mut s = fixed_sensor(extras[k].0.as_str(), extras[k].1.as_str());
                let v = readings[k];
                if v >= 0 {
                    s.last_temp_mc = v;
                }
                proof {
                    lemma_sensor_views_push(sensors@, s);
                    assert(s@ == extra_sensor(k as int, readings@[k as int]));
                }
                sensors.push(s);
            }
            k += 1;
        }
    }

    /// The names and paths of the fixed sensors.
    pub fn extra_sensors() -> (r: Vec<(String, String)>)
        ensures
            r.len() == 6,
            forall|i: int|
                0 <= i < 6 ==> (#[trigger] r@[i]).0@ == extra_sensor_paths()[i].0 && r@[i].1@
                    == extra_sensor_paths()[i].1,
    {
        let mut v: Vec<(String, String)> = Vec::new();
        v.push(
            (
                "ambient_sensor_temp".to_string(),
                "/sys/class/thermal/thermal_message/ambient_sensor_temp".to_string(),
            ),
        );
        v.push(("connector_temp".to_string(), "/sys/class/qcom-battery/connector_temp".to_string()));
        v.push(("BAT_SOC".to_string(), "/sys/class/power_supply/battery/capacity".to_string()));
        v.push(
            (
                "battery_current".to_string(),
                "/sys/class/power_supply/battery/current_now".to_string(),
            ),
        );
        v.push(("battery_temp".to_string(), "/sys/class/power_supply/battery/temp".to_string()));
        v.push(
            (
                "battery_voltage".to_string(),
                "/sys/class/power_supply/battery/voltage_now".to_string(),
            ),
        );
        v
    }

    /// The cooling devices of a directory listing.
    pub fn scan_cooling_devices(entries: &Vec<CoolingEntry>) -> (r: Vec<CoolingDevice>)
        ensures
            cooling_views(r@) == cooling_devices_of(entries@, entries@.len() as int),
    {
        let mut out: Vec<CoolingDevice> = Vec::new();
        let mut i: usize = 0;
        assert(cooling_views(out@) =~= Seq::empty());
        while i < entries.len()
            invariant
                i <= entries.len(),
                cooling_views(out@) == cooling_devices_of(entries@, i as int),
            decreases entries.len() - i,
        {
            let e = &entries[i];
            let name = chars_of(e.dir_name.as_str());
            if starts_with(&name, "cooling_device") && out.len() < MI_MAX_CDEV {
                let dev = CoolingDevice {
                    name: match &e.type_text {
                        Some(t) => t.clone(),
                        None => e.dir_name.clone(),
                    },
                    path: join("/sys/class/thermal/", e.dir_name.as_str()),
                    max_state: e.max_state,
                    cur_state: e.cur_state,
                };
                assert(dev@ == cooling_of(entries@[i as int]));
                assert(cooling_views(out@.push(dev)) =~= cooling_views(out@).push(dev@));
                out.push(dev);
            }
            i += 1;
        }
        out
    }

    /// Appends the virtual board sensors and returns their positions.
    pub fn vsns_init(sensors: &mut Vec<Sensor>) -> (r: Vec<usize>)
        requires
            old(sensors).len() <= usize::MAX - 8,
        ensures
            r@.len() == vsn_count(old(sensors)@.len() as int),
            forall|k: int| 0 <= k < r@.len() ==> r@[k] == old(sensors)@.len() + k,
            sensor_views(final(sensors)@) == sensor_views(old(sensors)@) + Seq::new(
                r@.len(),
                |k: int| vsn_sensor(k),
            ),
    {
        let ghost start = sensor_views(sensors@);
        let ghost len0 = sensors@.len();
        let nodes = Self::vsn_nodes();
        let mut found: Vec<usize> = Vec::new();
        let mut k: usize = 0;
        assert(start =~= start + Seq::new(0, |j: int| vsn_sensor(j)));
        while k < nodes.len() && found.len() < MI_MAX_VSNS && sensors.len() < MI_MAX_SENSORS
            invariant
                k <= nodes.len() == 8,
                len0 <= usize::MAX - 8,
                forall|i: int|
                    0 <= i < 8 ==> (#[trigger] nodes@[i]).0@ == vsn_paths()[i].0 && nodes@[i].1@
                        == vsn_paths()[i].1,
                found.len() == k,
                sensors@.len() == len0 + k,
                k <= vsn_count(len0 as int),
                forall|j: int| 0 <= j < k ==> found@[j] == len0 + j,
                sensor_views(sensors@) == start + Seq::new(k as nat, |j: int| vsn_sensor(j)),
            decreases nodes.len() - k,
        {
            let mut s = fixed_sensor(nodes[k].0.as_str(), nodes[k].1.as_str());
            s.type_ = SensorType::Virtual;
            proof {
                lemma_sensor_views_push(sensors@, s);
                assert(s@ == vsn_sensor(k as int));
                assert((start + Seq::new(k as nat, |j: int| vsn_sensor(j))).push(vsn_sensor(k as int))
                    =~= start + Seq::new((k + 1) as nat, |j: int| vsn_sensor(j)));
            }
            found.push(sensors.len());
            sensors.push(s);
            k += 1;
        }
        found
    }

    /// The names and paths of the virtual board sensors. Each sensor is called
    /// after the last component of its path.
    pub fn vsn_nodes() -> (r: Vec<(String, String)>)
        ensures
            r.len() == 8,
            forall|i: int|
                0 <= i < 8 ==> (#[trigger] r@[i]).0@ == vsn_paths()[i].0 && r@[i].1@
                    == vsn_paths()[i].1,
    {
        let mut v: Vec<(String, String)> = Vec::new();
        v.push(
            (
                "board_sensor_temp".to_string(),
                "/sys/class/thermal/thermal_message/board_sensor_temp".to_string(),
            ),
        );
        v.push(
            (
                "board_sensor_second_temp".to_string(),
                "/sys/class/thermal/thermal_message/board_sensor_second_temp".to_string(),
            ),
        );
        v.push(
            (
                "board_sensor_charge_temp".to_string(),
                "/sys/class/thermal/thermal_message/board_sensor_charge_temp".to_string(),
            ),
        );
        v.push(
            (
                "board_sensor_other_temp".to_string(),
                "/sys/class/thermal/thermal_message/board_sensor_other_temp".to_string(),
            ),
        );
        v.push(
            (
                "ambient_sensor".to_string(),
                "/sys/class/thermal/thermal_message/ambient_sensor".to_string(),
            ),
        );
        v.push(
            (
                "charger_temp".to_string(),
                "/sys/class/thermal/thermal_message/charger_temp".to_string(),
            ),
        );
        v.push(
            (
                "display_therm_temp".to_string(),
                "/sys/class/thermal/thermal_message/display_therm_temp".to_string(),
            ),
        );
        v.push(
            (
                "dynamic_tj".to_string(),
                "/sys/class/thermal/thermal_message/dynamic_tj".to_string(),
            ),
        );
        v
    }

    /// Formula sensors need no setup.
    pub fn formula_init() {
    }

    /// The sensor called `name`: the first one in the list. The virtual sensors
    /// are members of the list, so looking through them finds nothing new.
    pub fn find_sensor(sensors: &Vec<Sensor>, virtual_sensors: &Vec<usize>, name: &str) -> (r: Option<
        usize,
    >)
        requires
            forall|k: int| 0 <= k < virtual_sensors@.len() ==> virtual_sensors@[k] < sensors@.len(),
        ensures
            r == sensor_named(sensor_views(sensors@), name@),
    {
        let ghost sv = sensor_views(sensors@);
        proof {
            lemma_named_at(sv, name@);
        }
        let mut i: usize = 0;
        while i < sensors.len()
            invariant
                i <= sensors.len(),
                sv == sensor_views(sensors@),
                forall|k: int| 0 <= k < i ==> (#[trigger] sv[k]).name != name@,
                forall|k: int| 0 <= k < named_at(sv, name@) ==> (#[trigger] sv[k]).name != name@,
                0 <= named_at(sv, name@) <= sv.len(),
                named_at(sv, name@) < sv.len() ==> sv[named_at(sv, name@)].name == name@,
            decreases sensors.len() - i,
        {
            assert(sv[i as int] == sensors@[i as int]@);
            if same_text(sensors[i].name.as_str(), name) {
                return Some(i);
            }
            i += 1;
        }
        let mut k: usize = 0;
        while k < virtual_sensors.len()
            invariant
                k <= virtual_sensors.len(),
                sv == sensor_views(sensors@),
                forall|j: int|
                    0 <= j < virtual_sensors@.len() ==> virtual_sensors@[j] < sensors@.len(),
                forall|j: int| 0 <= j < sv.len() ==> (#[trigger] sv[j]).name != name@,
            decreases virtual_sensors.len() - k,
        {
            let idx = virtual_sensors[k];
            assert(sv[idx as int] == sensors@[idx as int]@);
            if same_text(sensors[idx].name.as_str(), name) {
                return Some(idx);
            }
            k += 1;
        }
        None
    }

    /// The scenario index of the `sconfig` node, given its content.
    pub fn read_sconfig_idx(content: Option<&str>) -> (r: i32)
        ensures
            r == node_int(match content {
                Some(c) => Some(c@),
                None => None,
            }),
    {
        read_int(content)
    }
}

/// A node reads as the number that its text is, apart from the whitespace around it; a node
/// that cannot be read, or holds no number, reads as -1.
pub proof fn law_nodes_are_numbers(a: Seq<char>, text: Seq<char>, b: Seq<char>, n: i32)
    requires
        crate::text::all_ws(a),
        crate::text::all_ws(b),
        crate::text::is_trim(text),
    ensures
        crate::text::int_of(text) == Some(n) ==> node_int(Some(a + text + b)) == n,
        crate::text::int_of(text) is None ==> node_int(Some(a + text + b)) == -1,
        node_int(None) == -1,
{
    crate::text::law_trim_takes_the_ends_off(a, text, b);
}

/// A sensor is found by its name; of several with the same name the first.
pub proof fn law_first_sensor_with_a_name(s: Seq<SensorView>, name: Seq<char>, i: int)
    requires
        s.len() <= usize::MAX,
    ensures
        0 <= i < s.len() && s[i].name == name && (forall|k: int|
            0 <= k < i ==> (#[trigger] s[k]).name != name) ==> sensor_named(s, name) == Some(
            i as usize,
        ),
        (forall|k: int| 0 <= k < s.len() ==> (#[trigger] s[k]).name != name) ==> sensor_named(
            s,
            name,
        ) is None,
{
    lemma_named_at(s, name);
}

/// A zone that reports its type becomes a sensor of that name, with the number and the
/// temperature file of the zone, while there are fewer than 128; any other zone is left out.
pub proof fn law_zones_become_sensors(
    s: Seq<SensorView>,
    types: Seq<Option<Seq<char>>>,
    n: int,
)
    requires
        0 <= n < types.len() <= i32::MAX,
    ensures
        ({
            let before = with_zones(s, types, n);
            let after = with_zones(s, types, n + 1);
            &&& types[n] is None || before.len() >= 128 ==> after == before
            &&& types[n] is Some && before.len() < 128 ==> {
                &&& after.len() == before.len() + 1
                &&& after.take(before.len() as int) == before
                &&& after.last().name == types[n]->0
                &&& after.last().zone_id == n
                &&& after.last().path == "/sys/class/thermal/thermal_zone"@ + show(n) + "/temp"@
                &&& after.last().type_ == SensorType::ThermalZone
                &&& after.last().last_temp_mc == 0
                &&& after.last().poll_ms == 1000
                &&& after.last().inputs.len() == 0
            }
        }),
        with_zones(s, types, 0) == s,
{
    let before = with_zones(s, types, n);
    let after = with_zones(s, types, n + 1);
    if after.len() > before.len() {
        assert(after.take(before.len() as int) =~= before);
    }
}

/// The fixed sensors and their nodes.
pub proof fn law_fixed_sensors(k: int, reading: i32)
    requires
        0 <= k < 6,
    ensures
        ({
            let x = extra_sensor(k, reading);
            &&& k == 0 ==> x.name == "ambient_sensor_temp"@ && x.path
                == "/sys/class/thermal/thermal_message/ambient_sensor_temp"@
            &&& k == 1 ==> x.name == "connector_temp"@ && x.path
                == "/sys/class/qcom-battery/connector_temp"@
            &&& k == 2 ==> x.name == "BAT_SOC"@ && x.path
                == "/sys/class/power_supply/battery/capacity"@
            &&& k == 3 ==> x.name == "battery_current"@ && x.path
                == "/sys/class/power_supply/battery/current_now"@
            &&& k == 4 ==> x.name == "battery_temp"@ && x.path
                == "/sys/class/power_supply/battery/temp"@
            &&& k == 5 ==> x.name == "battery_voltage"@ && x.path
                == "/sys/class/power_supply/battery/voltage_now"@
            &&& reading >= 0 ==> x.last_temp_mc == reading
            &&& reading < 0 ==> x.last_temp_mc == 0
            &&& x.type_ == SensorType::ThermalZone && x.zone_id == -1 && x.inputs.len() == 0
        }),
{
}

/// The fixed sensors follow each other, each with its own reading, while there are fewer
/// than 128.
pub proof fn law_fixed_sensors_follow(s: Seq<SensorView>, readings: Seq<i32>, n: int)
    requires
        0 <= n < 6,
    ensures
        ({
            let before = with_extras(s, readings, n);
            let after = with_extras(s, readings, n + 1);
            &&& before.len() >= 128 ==> after == before
            &&& before.len() < 128 ==> {
                &&& after.len() == before.len() + 1
                &&& after.take(before.len() as int) == before
                &&& after.last() == extra_sensor(n, readings[n])
            }
        }),
        with_extras(s, readings, 0) == s,
{
    let before = with_extras(s, readings, n);
    let after = with_extras(s, readings, n + 1);
    if after.len() > before.len() {
        assert(after.take(before.len() as int) =~= before);
    }
}

/// The board sensors are virtual ones behind the message node of their own name, as many as
/// there is room for among 128.
pub proof fn law_board_sensors(k: int, len: int)
    requires
        0 <= k < 8,
        0 <= len,
    ensures
        vsn_sensor(k).type_ == SensorType::Virtual,
        k == 0 ==> vsn_sensor(k).name == "board_sensor_temp"@,
        k == 1 ==> vsn_sensor(k).name == "board_sensor_second_temp"@,
        k == 2 ==> vsn_sensor(k).name == "board_sensor_charge_temp"@,
        k == 3 ==> vsn_sensor(k).name == "board_sensor_other_temp"@,
        k == 4 ==> vsn_sensor(k).name == "ambient_sensor"@,
        k == 5 ==> vsn_sensor(k).name == "charger_temp"@,
        k == 6 ==> vsn_sensor(k).name == "display_therm_temp"@,
        k == 7 ==> vsn_sensor(k).name == "dynamic_tj"@,
        vsn_sensor(k).path == "/sys/class/thermal/thermal_message/"@ + vsn_sensor(k).name,
        len <= 120 ==> vsn_count(len) == 8,
        120 <= len <= 128 ==> vsn_count(len) + len == 128,
        len >= 128 ==> vsn_count(len) == 0,
{
    reveal_strlit("/sys/class/thermal/thermal_message/");
    if k == 0 {
        reveal_strlit("board_sensor_temp");
        reveal_strlit("/sys/class/thermal/thermal_message/board_sensor_temp");
        assert("/sys/class/thermal/thermal_message/"@ + "board_sensor_temp"@
            =~= "/sys/class/thermal/thermal_message/board_sensor_temp"@);
    }
    if k == 1 {
        reveal_strlit("board_sensor_second_temp");
        reveal_strlit("/sys/class/thermal/thermal_message/board_sensor_second_temp");
        assert("/sys/class/thermal/thermal_message/"@ + "board_sensor_second_temp"@
            =~= "/sys/class/thermal/thermal_message/board_sensor_second_temp"@);
    }
    if k == 2 {
        reveal_strlit("board_sensor_charge_temp");
        reveal_strlit("/sys/class/thermal/thermal_message/board_sensor_charge_temp");
        assert("/sys/class/thermal/thermal_message/"@ + "board_sensor_charge_temp"@
            =~= "/sys/class/thermal/thermal_message/board_sensor_charge_temp"@);
    }
    if k == 3 {
        reveal_strlit("board_sensor_other_temp");
        reveal_strlit("/sys/class/thermal/thermal_message/board_sensor_other_temp");
        assert("/sys/class/thermal/thermal_message/"@ + "board_sensor_other_temp"@
            =~= "/sys/class/thermal/thermal_message/board_sensor_other_temp"@);
    }
    if k == 4 {
        reveal_strlit("ambient_sensor");
        reveal_strlit("/sys/class/thermal/thermal_message/ambient_sensor");
        assert("/sys/class/thermal/thermal_message/"@ + "ambient_sensor"@
            =~= "/sys/class/thermal/thermal_message/ambient_sensor"@);
    }
    if k == 5 {
        reveal_strlit("charger_temp");
        reveal_strlit("/sys/class/thermal/thermal_message/charger_temp");
        assert("/sys/class/thermal/thermal_message/"@ + "charger_temp"@
            =~= "/sys/class/thermal/thermal_message/charger_temp"@);
    }
    if k == 6 {
        reveal_strlit("display_therm_temp");
        reveal_strlit("/sys/class/thermal/thermal_message/display_therm_temp");
        assert("/sys/class/thermal/thermal_message/"@ + "display_therm_temp"@
            =~= "/sys/class/thermal/thermal_message/display_therm_temp"@);
    }
    if k == 7 {
        reveal_strlit("dynamic_tj");
        reveal_strlit("/sys/class/thermal/thermal_message/dynamic_tj");
        assert("/sys/class/thermal/thermal_message/"@ + "dynamic_tj"@
            =~= "/sys/class/thermal/thermal_message/dynamic_tj"@);
    }
}

/// Each directory entry of a cooling device becomes one, named by its type or else by its
/// directory, in their order and up to 32; other entries are left out.
pub proof fn law_cooling_devices_in_order(v: Seq<CoolingEntry>, n: int)
    requires
        0 <= n < v.len(),
    ensures
        ({
            let before = cooling_devices_of(v, n);
            let after = cooling_devices_of(v, n + 1);
            let taken = has_prefix(v[n].dir_name@, "cooling_device"@) && before.len() < 32;
            &&& !taken ==> after == before
            &&& taken ==> {
                &&& after.len() == before.len() + 1
                &&& after.take(before.len() as int) == before
                &&& after.last().path == "/sys/class/thermal/"@ + v[n].dir_name@
                &&& after.last().max_state == v[n].max_state
                &&& after.last().cur_state == v[n].cur_state
                &&& v[n].type_text is Some ==> after.last().name == v[n].type_text->0@
                &&& v[n].type_text is None ==> after.last().name == v[n].dir_name@
            }
        }),
        cooling_devices_of(v, 0).len() == 0,
{
    let before = cooling_devices_of(v, n);
    let after = cooling_devices_of(v, n + 1);
    if after.len() > before.len() {
        assert(after.take(before.len() as int) =~= before);
    }
}

/// A reading that is not negative is taken over, and nothing else of the sensor changes; a
/// negative one changes nothing.
pub proof fn law_polling(s: SensorView, reading: i32)
    ensures
        reading >= 0 ==> polled(s, reading).last_temp_mc == reading,
        reading < 0 ==> polled(s, reading) == s,
        polled(s, reading) == (SensorView {
            last_temp_mc: polled(s, reading).last_temp_mc,
            ..s
        }),
{
}

} // verus!
