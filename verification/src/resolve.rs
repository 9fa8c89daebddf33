//! Resolving configuration blocks into sensors and controller instances.

use vstd::prelude::*;

#[allow(unused_imports)]
use crate::arith::upper_of;
use crate::config::{device_to_action, find_scenario_name, parse_config_blocks, ConfigBlock};
#[allow(unused_imports)]
use crate::config::{block_views, blocks_of, device_action, scenario_name, BlockView};
use crate::sensor::EngineDiscovery;
#[allow(unused_imports)]
use crate::sensor::{
    extra_sensor, lemma_named_at, sensor_named, with_extras, with_zones, zone_sensor, zone_types,
};
use crate::text::{join, same_text};
use crate::types::{
    Action, AlgoType, Instance, Sensor, SensorType, SicState, MI_MAX_CONFIGS,
    MI_MAX_INPUTS_PER_VSN, MI_MAX_SENSORS,
};
#[allow(unused_imports)]
use crate::types::{
    action_views, algo_of, fresh_sensor, fresh_sic_state, inputs_in_range, instance_views,
    lemma_action_views_push, lemma_instance_views_push, lemma_sensor_views_push,
    lemma_sensor_views_update, sensor_views, ActionView, InstanceView, SensorView, ThresholdView,
};

verus! {

// ---------------------------------------------------------------------------
// What a block resolves to
// ---------------------------------------------------------------------------

/// A virtual sensor of the given name.
pub open spec fn virtual_sensor(name: Seq<char>) -> SensorView {
    SensorView { type_: SensorType::Virtual, ..fresh_sensor(name) }
}

/// The sensor behind a message node of the given name.
pub open spec fn message_sensor(name: Seq<char>) -> SensorView {
    SensorView { path: "/sys/class/thermal/thermal_message/"@ + name, ..fresh_sensor(name) }
}

/// The sensor called `name`, created as a virtual one when it is missing and
/// there is room.
pub open spec fn ensure_virtual(s: Seq<SensorView>, name: Seq<char>) -> (
    Seq<SensorView>,
    Option<usize>,
) {
    match sensor_named(s, name) {
        Some(i) => (s, Some(i)),
        None => if s.len() < MI_MAX_SENSORS {
            (s.push(virtual_sensor(name)), Some(s.len() as usize))
        } else {
            (s, None)
        },
    }
}

/// The sensor that a block names. Simulated blocks create none.
pub open spec fn named_sensor(s: Seq<SensorView>, b: BlockView) -> (
    Seq<SensorView>,
    Option<usize>,
) {
    if b.sensor_name.len() == 0 {
        (s, None)
    } else if algo_of(b.algo_str) == AlgoType::Simulated {
        (s, sensor_named(s, b.sensor_name))
    } else {
        ensure_virtual(s, b.sensor_name)
    }
}

/// The sensor of a block: the one it names; for a virtual block that names
/// none but lists inputs, the one called like the block.
pub open spec fn block_sensor(s: Seq<SensorView>, b: BlockView) -> (
    Seq<SensorView>,
    Option<usize>,
) {
    let n = named_sensor(s, b);
    if algo_of(b.algo_str) == AlgoType::Virtual && n.1 is None && b.sensor_list.len() > 0 {
        ensure_virtual(n.0, b.block_name)
    } else {
        n
    }
}

/// Sensor `i` with one more weighted input.
pub open spec fn with_input(s: Seq<SensorView>, i: int, input: usize, weight: i32) -> Seq<
    SensorView,
> {
    s.update(
        i,
        SensorView {
            inputs: s[i].inputs.push(input),
            weights: s[i].weights.push(weight),
            ..s[i]
        },
    )
}

/// Sensor `i` with the first `n` listed inputs of the block attached. Missing
/// inputs are created while there is room and left out after that.
pub open spec fn with_inputs(s: Seq<SensorView>, i: int, b: BlockView, n: int) -> Seq<SensorView>
    decreases n,
{
    if n <= 0 {
        s
    } else {
        let t = with_inputs(s, i, b, n - 1);
        let name = b.sensor_list[n - 1];
        let weight = if n - 1 < b.weights.len() {
            b.weights[n - 1]
        } else {
            0
        };
        match sensor_named(t, name) {
            Some(k) => with_input(t, i, k, weight),
            None => if t.len() < MI_MAX_SENSORS {
                with_input(t.push(message_sensor(name)), i, t.len() as usize, weight)
            } else {
                t
            },
        }
    }
}

/// How many listed inputs a virtual sensor takes.
pub open spec fn input_count(b: BlockView) -> int {
    if b.sensor_list.len() < MI_MAX_INPUTS_PER_VSN {
        b.sensor_list.len() as int
    } else {
        MI_MAX_INPUTS_PER_VSN as int
    }
}

/// Defines virtual sensor `i` by the block, unless it has inputs already.
pub open spec fn define_virtual(s: Seq<SensorView>, i: int, b: BlockView) -> Seq<SensorView> {
    if s[i].inputs.len() > 0 {
        s
    } else {
        let t = with_inputs(s, i, b, input_count(b));
        t.update(
            i,
            SensorView { weight_sum: b.weight_sum, compensation: b.compensation, ..t[i] },
        )
    }
}

/// The sensors after a block is resolved.
pub open spec fn sensors_after(s: Seq<SensorView>, b: BlockView) -> Seq<SensorView> {
    let r = block_sensor(s, b);
    match r.1 {
        Some(i) if algo_of(b.algo_str) == AlgoType::Virtual => define_virtual(r.0, i as int, b),
        _ => r.0,
    }
}

/// How many actions a block has: one per device and level, level 0 among them,
/// up to 256.
pub open spec fn action_count(b: BlockView) -> int {
    let levels = b.threshold.trig.len() + 1;
    let n = levels * b.devices.len();
    if n < 256 {
        n as int
    } else {
        256
    }
}

/// Action `k` of a block. The actions are laid out level by level, in the order
/// of the devices; the target values lie in the same order, and 0 stands for a
/// missing one.
pub open spec fn block_action(b: BlockView, k: int) -> ActionView {
    let d = b.devices[k % (b.devices.len() as int)];
    ActionView {
        type_: device_action(d),
        target: d,
        value: if k < b.threshold.target.len() {
            b.threshold.target[k]
        } else {
            0
        },
    }
}

pub open spec fn block_actions(b: BlockView) -> Seq<ActionView> {
    Seq::new(action_count(b) as nat, |k: int| block_action(b, k))
}

/// The controller instance of a block.
pub open spec fn instance_of(s: Seq<SensorView>, b: BlockView) -> InstanceView {
    InstanceView {
        name: b.block_name,
        sensor_idx: block_sensor(s, b).1,
        algo: algo_of(b.algo_str),
        sample_ms: b.polling,
        reverse: b.reverse != 0,
        threshold: ThresholdView { proportion: b.proportion, ..b.threshold },
        actions: block_actions(b),
        current_level: 0,
        current_value: 0,
    }
}

/// Sensors, instances and PID states while a configuration is loaded.
pub struct LoadState {
    pub sensors: Seq<SensorView>,
    pub instances: Seq<InstanceView>,
    pub sic_states: Seq<SicState>,
}

/// The effect of one block. Beyond `MI_MAX_CONFIGS` instances blocks are dropped.
pub open spec fn after_block(st: LoadState, b: BlockView) -> LoadState {
    if st.instances.len() >= MI_MAX_CONFIGS {
        st
    } else {
        LoadState {
            sensors: sensors_after(st.sensors, b),
            instances: st.instances.push(instance_of(st.sensors, b)),
            sic_states: st.sic_states.push(fresh_sic_state()),
        }
    }
}

/// The effect of the blocks, in order.
pub open spec fn after_blocks(st: LoadState, bs: Seq<BlockView>) -> LoadState
    decreases bs.len(),
{
    if bs.len() == 0 {
        st
    } else {
        after_block(after_blocks(st, bs.drop_last()), bs.last())
    }
}

/// The models of the lists that loading works on.
pub open spec fn load_state(
    sensors: Seq<Sensor>,
    instances: Seq<Instance>,
    sic_states: Seq<SicState>,
) -> LoadState {
    LoadState {
        sensors: sensor_views(sensors),
        instances: instance_views(instances),
        sic_states,
    }
}

/// Every listed position is the position of a sensor.
pub open spec fn positions_valid(v: Seq<usize>, len: int) -> bool {
    forall|k: int| 0 <= k < v.len() ==> (#[trigger] v[k]) < len
}

// ---------------------------------------------------------------------------
// Resolving
// ---------------------------------------------------------------------------

fn push_virtual(sensors: &mut Vec<Sensor>, name: &str) -> (r: usize)
    requires
        old(sensors).len() < MI_MAX_SENSORS,
    ensures
        r == old(sensors).len(),
        sensor_views(final(sensors)@) == sensor_views(old(sensors)@).push(virtual_sensor(name@)),
{
    let mut s = Sensor::new(name);
    s.type_ = SensorType::Virtual;
    proof {
        lemma_sensor_views_push(sensors@, s);
        assert(s@ == virtual_sensor(name@));
    }
    let idx = sensors.len();
    sensors.push(s);
    idx
}

fn find_or_push_virtual(sensors: &mut Vec<Sensor>, virtual_sensors: &Vec<usize>, name: &str) -> (r:
    Option<usize>)
    requires
        positions_valid(virtual_sensors@, old(sensors)@.len() as int),
    ensures
        ensure_virtual(sensor_views(old(sensors)@), name@) == (sensor_views(final(sensors)@), r),
        r is Some ==> r->Some_0 < final(sensors)@.len(),
        final(sensors)@.len() >= old(sensors)@.len(),
{
    let ghost before = sensor_views(sensors@);
    proof {
        lemma_named_at(before, name@);
    }
    match EngineDiscovery::find_sensor(sensors, virtual_sensors, name) {
        Some(i) => Some(i),
        None => {
            if sensors.len() < MI_MAX_SENSORS {
                let idx = push_virtual(sensors, name);
                assert(sensor_views(sensors@).len() == sensors@.len());
                Some(idx)
            } else {
                None
            }
        },
    }
}

fn add_input(sensors: &mut Vec<Sensor>, i: usize, input: usize, weight: i32)
    requires
        i < old(sensors).len(),
    ensures
        sensor_views(final(sensors)@) == with_input(
            sensor_views(old(sensors)@),
            i as int,
            input,
            weight,
        ),
        final(sensors)@.len() == old(sensors)@.len(),
{
    let ghost before = sensors@;
    sensors[i].inputs.push(input);
    sensors[i].weights.push(weight);
    proof {
        assert(sensors@ =~= before.update(i as int, sensors@[i as int]));
        lemma_sensor_views_update(before, i as int, sensors@[i as int]);
    }
}

fn attach_inputs(sensors: &mut Vec<Sensor>, virtual_sensors: &Vec<usize>, i: usize, b: &ConfigBlock)
    requires
        i < old(sensors).len(),
        positions_valid(virtual_sensors@, old(sensors)@.len() as int),
    ensures
        sensor_views(final(sensors)@) == with_inputs(
            sensor_views(old(sensors)@),
            i as int,
            b@,
            input_count(b@),
        ),
        final(sensors)@.len() >= old(sensors)@.len(),
{
    let ghost before = sensor_views(sensors@);
    let ghost len0 = sensors@.len();
    let mut n: usize = 0;
    while n < b.sensor_list.len() && n < MI_MAX_INPUTS_PER_VSN
        invariant
            n <= b.sensor_list.len(),
            n <= MI_MAX_INPUTS_PER_VSN,
            i < len0 <= sensors@.len(),
            positions_valid(virtual_sensors@, len0 as int),
            sensor_views(sensors@) == with_inputs(before, i as int, b@, n as int),
        decreases b.sensor_list.len() - n,
    {
        let ghost t = sensor_views(sensors@);
        let name = b.sensor_list[n].as_str();
        assert(b@.sensor_list[n as int] == name@);
        let weight: i32 = if n < b.weights.len() {
            b.weights[n]
        } else {
            0
        };
        match EngineDiscovery::find_sensor(sensors, virtual_sensors, name) {
            Some(k) => {
                add_input(sensors, i, k, weight);
            },
            None => {
                if sensors.len() < MI_MAX_SENSORS {
                    let mut s = Sensor::new(name);
                    s.type_ = SensorType::ThermalZone;
                    s.path = join("/sys/class/thermal/thermal_message/", name);
                    let k = sensors.len();
                    proof {
                        lemma_sensor_views_push(sensors@, s);
                        assert(s@ == message_sensor(name@));
                        assert(t.len() == k);
                    }
                    sensors.push(s);
                    add_input(sensors, i, k, weight);
                }
            },
        }
        n += 1;
    }
}

fn define_sensor(sensors: &mut Vec<Sensor>, virtual_sensors: &Vec<usize>, i: usize, b: &ConfigBlock)
    requires
        i < old(sensors).len(),
        positions_valid(virtual_sensors@, old(sensors)@.len() as int),
    ensures
        sensor_views(final(sensors)@) == define_virtual(
            sensor_views(old(sensors)@),
            i as int,
            b@,
        ),
        final(sensors)@.len() >= old(sensors)@.len(),
{
    assert(sensor_views(sensors@)[i as int] == sensors@[i as int]@);
    if sensors[i].inputs.len() == 0 {
        attach_inputs(sensors, virtual_sensors, i, b);
        let ghost mid = sensors@;
        sensors[i].weight_sum = b.weight_sum;
        sensors[i].compensation = b.compensation;
        proof {
            assert(sensors@ =~= mid.update(i as int, sensors@[i as int]));
            lemma_sensor_views_update(mid, i as int, sensors@[i as int]);
        }
    }
}

fn actions_of(b: &ConfigBlock) -> (r: Vec<Action>)
    ensures
        action_views(r@) == block_actions(b@),
{
    let mut out: Vec<Action> = Vec::new();
    let n_dev = b.devices.len();
    if n_dev == 0 {
        assert(action_count(b@) == 0) by (nonlinear_arith)
            requires
                b@.devices.len() == 0,
        ;
        assert(action_views(out@) =~= block_actions(b@));
        return out;
    }
    let n_lvl: u128 = b.threshold.trig.len() as u128 + 1;
    assert(n_lvl * n_dev <= 0x1_0000_0000_0000_0000 * 0xFFFF_FFFF_FFFF_FFFF) by (nonlinear_arith)
        requires
            n_lvl <= 0x1_0000_0000_0000_0000,
            n_dev <= 0xFFFF_FFFF_FFFF_FFFF,
    ;
    let wanted: u128 = n_lvl * n_dev as u128;
    let total: usize = if wanted < 256 {
        wanted as usize
    } else {
        256
    };
    let mut d: usize = 0;
    let mut k: usize = 0;
    assert(action_views(out@) =~= Seq::new(0, |j: int| block_action(b@, j)));
    while k < total
        invariant
            k <= total <= 256,
            total == action_count(b@),
            n_dev == b.devices.len() == b@.devices.len(),
            d < n_dev,
            d == k as int % n_dev as int,
            action_views(out@) == Seq::new(k as nat, |j: int| block_action(b@, j)),
        decreases total - k,
    {
        let a = Action {
            type_: device_to_action(b.devices[d].as_str()),
            target: b.devices[d].clone(),
            value: if k < b.threshold.target.len() {
                b.threshold.target[k]
            } else {
                0
            },
        };
        proof {
            assert(b@.devices[d as int] == b.devices@[d as int]@);
            assert(a@ == block_action(b@, k as int));
            lemma_action_views_push(out@, a);
            assert(Seq::new(k as nat, |j: int| block_action(b@, j)).push(a@) =~= Seq::new(
                (k + 1) as nat,
                |j: int| block_action(b@, j),
            ));
            lemma_next_mod(k as int, n_dev as int);
        }
        out.push(a);
        k += 1;
        d += 1;
        if d == n_dev {
            d = 0;
        }
    }
    out
}

proof fn lemma_next_mod(k: int, n: int)
    requires
        k >= 0,
        n > 0,
    ensures
        (k + 1) % n == (if k % n + 1 == n {
            0
        } else {
            k % n + 1
        }),
{
    vstd::arithmetic::div_mod::lemma_fundamental_div_mod(k, n);
    let q = k / n;
    let r = k % n;
    if r + 1 == n {
        assert((q + 1) * n == n * q + n) by (nonlinear_arith);
        vstd::arithmetic::div_mod::lemma_fundamental_div_mod_converse(k + 1, n, q + 1, 0);
    } else {
        assert(q * n == n * q) by (nonlinear_arith);
        vstd::arithmetic::div_mod::lemma_fundamental_div_mod_converse(k + 1, n, q, r + 1);
    }
}

/// Resolves one block. Returns 0, or -1 when there are too many instances.
pub fn resolve_block(
    sensors: &mut Vec<Sensor>,
    virtual_sensors: &Vec<usize>,
    instances: &mut Vec<Instance>,
    sic_states: &mut Vec<SicState>,
    b: &ConfigBlock,
) -> (r: i32)
    requires
        positions_valid(virtual_sensors@, old(sensors)@.len() as int),
    ensures
        load_state(final(sensors)@, final(instances)@, final(sic_states)@) == after_block(
            load_state(old(sensors)@, old(instances)@, old(sic_states)@),
            b@,
        ),
        r == (if old(instances)@.len() >= MI_MAX_CONFIGS {
            -1int
        } else {
            0int
        }),
        final(sensors)@.len() >= old(sensors)@.len(),
{
    if instances.len() >= MI_MAX_CONFIGS {
        return -1;
    }
    let ghost s0 = sensor_views(sensors@);
    let algo = AlgoType::from_str(b.algo_str.as_str());
    let mut sensor_idx: Option<usize> = None;
    if !b.sensor_name.as_str().is_empty() {
        if algo == AlgoType::Simulated {
            proof {
                lemma_named_at(s0, b.sensor_name@);
            }
            sensor_idx = EngineDiscovery::find_sensor(
                sensors,
                virtual_sensors,
                b.sensor_name.as_str(),
            );
        } else {
            sensor_idx =
            find_or_push_virtual(sensors, virtual_sensors, b.sensor_name.as_str());
        }
    }
    assert((sensor_views(sensors@), sensor_idx) == named_sensor(s0, b@));
    if algo == AlgoType::Virtual {
        assert(b@.sensor_list.len() == b.sensor_list@.len());
        if sensor_idx.is_none() && b.sensor_list.len() > 0 {
            sensor_idx = find_or_push_virtual(sensors, virtual_sensors, b.block_name.as_str());
        }
        assert((sensor_views(sensors@), sensor_idx) == block_sensor(s0, b@));
        match sensor_idx {
            Some(i) => {
                define_sensor(sensors, virtual_sensors, i, b);
            },
            None => {},
        }
    }
    let mut threshold = b.threshold.clone();
    threshold.proportion = b.proportion;
    let inst = Instance {
        name: b.block_name.clone(),
        sensor_idx,
        algo,
        sample_ms: b.polling,
        reverse: b.reverse != 0,
        threshold,
        actions: actions_of(b),
        current_level: 0,
        current_value: 0,
    };
    proof {
        lemma_instance_views_push(instances@, inst);
        assert(inst@ == instance_of(s0, b@));
    }
    instances.push(inst);
    sic_states.push(SicState::default());
    0
}

/// Loads the blocks of a configuration text. Returns -1, and changes nothing,
/// when it has none.
pub fn load_scenario_config(
    sensors: &mut Vec<Sensor>,
    virtual_sensors: &Vec<usize>,
    instances: &mut Vec<Instance>,
    sic_states: &mut Vec<SicState>,
    content: &str,
) -> (r: i32)
    requires
        positions_valid(virtual_sensors@, old(sensors)@.len() as int),
    ensures
        load_state(final(sensors)@, final(instances)@, final(sic_states)@) == after_blocks(
            load_state(old(sensors)@, old(instances)@, old(sic_states)@),
            blocks_of(content@),
        ),
        r == (if blocks_of(content@).len() == 0 {
            -1int
        } else {
            0int
        }),
        final(sensors)@.len() >= old(sensors)@.len(),
{
    let blocks = parse_config_blocks(content);
    let ghost bv = block_views(blocks@);
    let ghost start = load_state(sensors@, instances@, sic_states@);
    let ghost len0 = sensors@.len();
    if blocks.len() == 0 {
        return -1;
    }
    let mut i: usize = 0;
    assert(bv.take(0) =~= Seq::empty());
    while i < blocks.len()
        invariant
            i <= blocks.len(),
            bv == block_views(blocks@),
            positions_valid(virtual_sensors@, len0 as int),
            sensors@.len() >= len0,
            load_state(sensors@, instances@, sic_states@) == after_blocks(
                start,
                bv.take(i as int),
            ),
        decreases blocks.len() - i,
    {
        proof {
            assert(bv.take(i + 1).drop_last() =~= bv.take(i as int));
            assert(bv.take(i + 1).last() == blocks@[i as int]@);
        }
        resolve_block(sensors, virtual_sensors, instances, sic_states, &blocks[i]);
        i += 1;
    }
    assert(bv.take(blocks@.len() as int) =~= bv);
    0
}

// ---------------------------------------------------------------------------
// Loading the scenario that the map selects
// ---------------------------------------------------------------------------

/// The scenario number of a `sconfig` reading; a failed reading means 0.
pub open spec fn scenario_index(sconfig: i32) -> i32 {
    if sconfig < 0 {
        0
    } else {
        sconfig
    }
}

pub fn target_index(sconfig: i32) -> (r: i32)
    ensures
        r == scenario_index(sconfig),
{
    if sconfig < 0 {
        0
    } else {
        sconfig
    }
}

/// The positions of the virtual sensors, in order.
pub open spec fn virtual_positions(s: Seq<SensorView>) -> Seq<usize>
    decreases s.len(),
{
    if s.len() == 0 {
        Seq::empty()
    } else {
        let before = virtual_positions(s.drop_last());
        if s.last().type_ == SensorType::Virtual {
            before.push((s.len() - 1) as usize)
        } else {
            before
        }
    }
}

proof fn lemma_virtual_positions_valid(s: Seq<SensorView>)
    requires
        s.len() <= usize::MAX,
    ensures
        positions_valid(virtual_positions(s), s.len() as int),
    decreases s.len(),
{
    if s.len() > 0 {
        lemma_virtual_positions_valid(s.drop_last());
    }
}

fn collect_virtual(sensors: &Vec<Sensor>) -> (r: Vec<usize>)
    ensures
        r@ == virtual_positions(sensor_views(sensors@)),
        positions_valid(r@, sensors@.len() as int),
{
    let ghost sv = sensor_views(sensors@);
    let mut out: Vec<usize> = Vec::new();
    let mut i: usize = 0;
    assert(sv.take(0) =~= Seq::empty());
    while i < sensors.len()
        invariant
            i <= sensors.len(),
            sv == sensor_views(sensors@),
            out@ == virtual_positions(sv.take(i as int)),
        decreases sensors.len() - i,
    {
        proof {
            assert(sv.take(i + 1).drop_last() =~= sv.take(i as int));
            assert(sv.take(i + 1).last() == sensors@[i as int]@);
        }
        if sensors[i].type_ == SensorType::Virtual {
            out.push(i);
        }
        i += 1;
    }
    proof {
        assert(sv.take(sensors@.len() as int) =~= sv);
        lemma_virtual_positions_valid(sv);
    }
    out
}

/// Everything that loading a scenario reads: the scenario map, the scenario
/// number, the thermal zones and fixed sensors, and the configurations of the
/// default and the selected scenario. `None` stands for what could not be read.
pub struct MapInput<'a> {
    pub map_content: Option<&'a str>,
    pub sconfig: i32,
    pub zone_types: &'a Vec<Option<String>>,
    pub extra_readings: &'a Vec<i32>,
    pub default_config: Option<&'a str>,
    pub target_config: Option<&'a str>,
}

impl<'a> MapInput<'a> {
    pub open spec fn valid(self) -> bool {
        self.zone_types@.len() <= MI_MAX_SENSORS && self.extra_readings@.len() == 6
    }

    /// Does the map select another scenario than the default one?
    pub open spec fn other_scenario(self) -> bool {
        let map = self.map_content->Some_0@;
        scenario_name(map, 0i32) != scenario_name(map, scenario_index(self.sconfig))
    }
}

/// No sensors, instances or PID states but the given sensors.
pub open spec fn only_sensors(s: Seq<SensorView>) -> LoadState {
    LoadState { sensors: s, instances: Seq::empty(), sic_states: Seq::empty() }
}

/// The sensors before the selected scenario is loaded. The first load discovers
/// them, and takes the virtual sensors of the default scenario along when
/// another one is selected, so that they persist.
pub open spec fn prepared_sensors(s: Seq<SensorView>, input: MapInput) -> Seq<SensorView> {
    if s.len() > 0 {
        s
    } else {
        let types = zone_types(input.zone_types@);
        let found = with_extras(
            with_zones(s, types, types.len() as int),
            input.extra_readings@,
            6,
        );
        match input.default_config {
            Some(c) if input.other_scenario() => after_blocks(
                only_sensors(found),
                blocks_of(c@),
            ).sensors,
            _ => found,
        }
    }
}

/// The state after the selected scenario is loaded.
pub open spec fn after_map(s: Seq<SensorView>, input: MapInput) -> LoadState {
    let p = only_sensors(prepared_sensors(s, input));
    match input.target_config {
        Some(c) => after_blocks(p, blocks_of(c@)),
        None => p,
    }
}

/// Loads the scenario that the map selects. Returns 0, or -1 when there is no
/// map or the scenario has no blocks. Without a map nothing changes.
pub fn load_thermal_map(
    sensors: &mut Vec<Sensor>,
    virtual_sensors: &mut Vec<usize>,
    instances: &mut Vec<Instance>,
    sic_states: &mut Vec<SicState>,
    input: &MapInput,
) -> (r: i32)
    requires
        input.valid(),
        positions_valid(old(virtual_sensors)@, old(sensors)@.len() as int),
    ensures
        input.map_content is None ==> {
            &&& r == -1
            &&& *final(sensors) == *old(sensors)
            &&& *final(virtual_sensors) == *old(virtual_sensors)
            &&& *final(instances) == *old(instances)
            &&& *final(sic_states) == *old(sic_states)
        },
        input.map_content is Some ==> {
            &&& load_state(final(sensors)@, final(instances)@, final(sic_states)@) == after_map(
                sensor_views(old(sensors)@),
                *input,
            )
            &&& final(virtual_sensors)@ == virtual_positions(
                prepared_sensors(sensor_views(old(sensors)@), *input),
            )
            &&& r == (match input.target_config {
                Some(c) if blocks_of(c@).len() > 0 => 0int,
                _ => -1int,
            })
        },
        positions_valid(final(virtual_sensors)@, final(sensors)@.len() as int),
{
    let map = match input.map_content {
        Some(m) => m,
        None => {
            return -1;
        },
    };
    let ghost s0 = sensor_views(sensors@);
    let target = find_scenario_name(map, target_index(input.sconfig));
    instances.clear();
    sic_states.clear();
    assert(instance_views(instances@) =~= Seq::empty());
    if sensors.len() == 0 {
        EngineDiscovery::sensor_init(sensors, input.zone_types, input.extra_readings);
        let default_scenario = find_scenario_name(map, 0);
        if !same_text(default_scenario.as_str(), target.as_str()) {
            match input.default_config {
                Some(c) => {
                    load_scenario_config(sensors, virtual_sensors, instances, sic_states, c);
                },
                None => {},
            }
            instances.clear();
            sic_states.clear();
            assert(instance_views(instances@) =~= Seq::empty());
        }
    }
    assert(sensor_views(sensors@) == prepared_sensors(s0, *input));
    let found = collect_virtual(sensors);
    *virtual_sensors = found;
    match input.target_config {
        Some(c) => load_scenario_config(sensors, virtual_sensors, instances, sic_states, c),
        None => -1,
    }
}

// ---------------------------------------------------------------------------
// Laws of loading
// ---------------------------------------------------------------------------

/// Every position that the state holds is the position of a sensor, there is
/// one PID state per instance, and the tables keep to their limits.
pub open spec fn consistent(st: LoadState) -> bool {
    &&& inputs_in_range(st.sensors)
    &&& st.sensors.len() <= MI_MAX_SENSORS
    &&& st.instances.len() == st.sic_states.len()
    &&& st.instances.len() <= MI_MAX_CONFIGS
    &&& forall|k: int|
        0 <= k < st.instances.len() && (#[trigger] st.instances[k]).sensor_idx is Some
            ==> st.instances[k].sensor_idx->Some_0 < st.sensors.len()
    &&& forall|k: int|
        0 <= k < st.instances.len() ==> level_in_range(#[trigger] st.instances[k])
}

/// Is the level of an instance one that it has? An instance without levels may
/// be switched on.
pub open spec fn level_in_range(inst: InstanceView) -> bool {
    0 <= inst.current_level <= upper_of(inst.threshold.trig.len() as int, 1)
}

proof fn lemma_ensure_virtual(s: Seq<SensorView>, name: Seq<char>)
    requires
        inputs_in_range(s),
        s.len() <= MI_MAX_SENSORS,
    ensures
        inputs_in_range(ensure_virtual(s, name).0),
        s.len() <= ensure_virtual(s, name).0.len() <= MI_MAX_SENSORS,
        ensure_virtual(s, name).1 is Some ==> ensure_virtual(s, name).1->Some_0 < ensure_virtual(
            s,
            name,
        ).0.len(),
        forall|i: int| 0 <= i < s.len() ==> ensure_virtual(s, name).0[i] == s[i],
{
    lemma_named_at(s, name);
    let t = ensure_virtual(s, name).0;
    assert forall|i: int, k: int| 0 <= i < t.len() && 0 <= k < t[i].inputs.len() implies (
    #[trigger] t[i].inputs[k]) < t.len() by {
        if i < s.len() {
            assert(s[i].inputs[k] < s.len());
        }
    }
}

proof fn lemma_with_input(s: Seq<SensorView>, i: int, input: usize, weight: i32)
    requires
        inputs_in_range(s),
        0 <= i < s.len(),
        input < s.len(),
    ensures
        inputs_in_range(with_input(s, i, input, weight)),
{
    let t = with_input(s, i, input, weight);
    assert forall|j: int, k: int| 0 <= j < t.len() && 0 <= k < t[j].inputs.len() implies (
    #[trigger] t[j].inputs[k]) < t.len() by {
        if j == i {
            if k < s[i].inputs.len() {
                assert(s[i].inputs[k] < s.len());
            }
        } else {
            assert(s[j].inputs[k] < s.len());
        }
    }
}

proof fn lemma_with_inputs(s: Seq<SensorView>, i: int, b: BlockView, n: int)
    requires
        inputs_in_range(s),
        s.len() <= MI_MAX_SENSORS,
        0 <= i < s.len(),
        0 <= n,
    ensures
        inputs_in_range(with_inputs(s, i, b, n)),
        s.len() <= with_inputs(s, i, b, n).len() <= MI_MAX_SENSORS,
        forall|j: int| 0 <= j < s.len() && j != i ==> with_inputs(s, i, b, n)[j] == s[j],
        with_inputs(s, i, b, n)[i].name == s[i].name,
    decreases n,
{
    if n > 0 {
        lemma_with_inputs(s, i, b, n - 1);
        let t = with_inputs(s, i, b, n - 1);
        let name = b.sensor_list[n - 1];
        let weight = if n - 1 < b.weights.len() {
            b.weights[n - 1]
        } else {
            0
        };
        lemma_named_at(t, name);
        match sensor_named(t, name) {
            Some(k) => {
                lemma_with_input(t, i, k, weight);
            },
            None => {
                if t.len() < MI_MAX_SENSORS {
                    let u = t.push(message_sensor(name));
                    assert forall|j: int, k: int|
                        0 <= j < u.len() && 0 <= k < u[j].inputs.len() implies (
                    #[trigger] u[j].inputs[k]) < u.len() by {
                        if j < t.len() {
                            assert(t[j].inputs[k] < t.len());
                        }
                    }
                    lemma_with_input(u, i, t.len() as usize, weight);
                }
            },
        }
    }
}

proof fn lemma_sensors_after(s: Seq<SensorView>, b: BlockView)
    requires
        inputs_in_range(s),
        s.len() <= MI_MAX_SENSORS,
    ensures
        inputs_in_range(sensors_after(s, b)),
        s.len() <= sensors_after(s, b).len() <= MI_MAX_SENSORS,
        block_sensor(s, b).1 is Some ==> block_sensor(s, b).1->Some_0 < sensors_after(s, b).len(),
        forall|i: int|
            0 <= i < s.len() && s[i].inputs.len() > 0 ==> sensors_after(s, b)[i] == s[i],
        forall|i: int| 0 <= i < s.len() ==> (#[trigger] sensors_after(s, b)[i]).name == s[i].name,
{
    lemma_named_at(s, b.sensor_name);
    lemma_ensure_virtual(s, b.sensor_name);
    let n = named_sensor(s, b);
    lemma_ensure_virtual(n.0, b.block_name);
    let r = block_sensor(s, b);
    if r.1 is Some && algo_of(b.algo_str) == AlgoType::Virtual {
        let i = r.1->Some_0 as int;
        lemma_with_inputs(r.0, i, b, input_count(b));
        let t = with_inputs(r.0, i, b, input_count(b));
        let u = define_virtual(r.0, i, b);
        assert forall|j: int, k: int| 0 <= j < u.len() && 0 <= k < u[j].inputs.len() implies (
        #[trigger] u[j].inputs[k]) < u.len() by {
            if r.0[i].inputs.len() == 0 {
                assert(u[j].inputs == t[j].inputs);
                assert(t[j].inputs[k] < t.len());
            } else {
                assert(r.0[j].inputs[k] < r.0.len());
            }
        }
    }
}

/// Resolving a block keeps the state consistent.
pub proof fn law_block_keeps_consistency(st: LoadState, b: BlockView)
    requires
        consistent(st),
    ensures
        consistent(after_block(st, b)),
{
    lemma_sensors_after(st.sensors, b);
    let next = after_block(st, b);
    assert forall|k: int|
        0 <= k < next.instances.len() && (#[trigger] next.instances[k]).sensor_idx is Some implies
        next.instances[k].sensor_idx->Some_0 < next.sensors.len() by {
        if k < st.instances.len() {
            assert(next.instances[k] == st.instances[k]);
        }
    }
    assert forall|k: int| 0 <= k < next.instances.len() implies level_in_range(
        #[trigger] next.instances[k],
    ) by {
        if k < st.instances.len() {
            assert(next.instances[k] == st.instances[k]);
        }
    }
}

/// Loading a configuration keeps the state consistent.
pub proof fn law_blocks_keep_consistency(st: LoadState, bs: Seq<BlockView>)
    requires
        consistent(st),
    ensures
        consistent(after_blocks(st, bs)),
    decreases bs.len(),
{
    if bs.len() > 0 {
        law_blocks_keep_consistency(st, bs.drop_last());
        law_block_keeps_consistency(after_blocks(st, bs.drop_last()), bs.last());
    }
}

/// Loading a configuration never moves or renames a sensor, and a virtual
/// sensor that is defined keeps its definition.
pub proof fn law_sensors_persist(st: LoadState, bs: Seq<BlockView>, i: int)
    requires
        consistent(st),
        0 <= i < st.sensors.len(),
    ensures
        i < after_blocks(st, bs).sensors.len(),
        after_blocks(st, bs).sensors[i].name == st.sensors[i].name,
        st.sensors[i].inputs.len() > 0 ==> after_blocks(st, bs).sensors[i] == st.sensors[i],
    decreases bs.len(),
{
    if bs.len() > 0 {
        law_sensors_persist(st, bs.drop_last(), i);
        law_blocks_keep_consistency(st, bs.drop_last());
        let mid = after_blocks(st, bs.drop_last());
        lemma_sensors_after(mid.sensors, bs.last());
    }
}

/// Zones that are appended leave the sensors before them as they are.
proof fn lemma_zones_append(s: Seq<SensorView>, types: Seq<Option<Seq<char>>>, n: int)
    requires
        s.len() <= MI_MAX_SENSORS,
        inputs_in_range(s),
    ensures
        s.len() <= with_zones(s, types, n).len() <= MI_MAX_SENSORS,
        with_zones(s, types, n).take(s.len() as int) == s,
        inputs_in_range(with_zones(s, types, n)),
    decreases n,
{
    if n > 0 {
        lemma_zones_append(s, types, n - 1);
        lemma_push_plain(with_zones(s, types, n - 1), zone_sensor(n - 1, types[n - 1]->Some_0));
        assert(with_zones(s, types, n).take(s.len() as int) =~= with_zones(s, types, n - 1).take(
            s.len() as int,
        ));
    } else {
        assert(s.take(s.len() as int) =~= s);
    }
}

proof fn lemma_extras_append(s: Seq<SensorView>, readings: Seq<i32>, n: int)
    requires
        s.len() <= MI_MAX_SENSORS,
        inputs_in_range(s),
    ensures
        s.len() <= with_extras(s, readings, n).len() <= MI_MAX_SENSORS,
        with_extras(s, readings, n).take(s.len() as int) == s,
        inputs_in_range(with_extras(s, readings, n)),
    decreases n,
{
    if n > 0 {
        lemma_extras_append(s, readings, n - 1);
        lemma_push_plain(with_extras(s, readings, n - 1), extra_sensor(n - 1, readings[n - 1]));
        assert(with_extras(s, readings, n).take(s.len() as int) =~= with_extras(
            s,
            readings,
            n - 1,
        ).take(s.len() as int));
    } else {
        assert(s.take(s.len() as int) =~= s);
    }
}

/// A sensor without inputs may follow any others.
proof fn lemma_push_plain(s: Seq<SensorView>, v: SensorView)
    requires
        inputs_in_range(s),
        v.inputs.len() == 0,
    ensures
        inputs_in_range(s.push(v)),
{
    let t = s.push(v);
    assert forall|j: int, k: int| 0 <= j < t.len() && 0 <= k < t[j].inputs.len() implies (
    #[trigger] t[j].inputs[k]) < t.len() by {
        assert(t[j] == s[j]);
        assert(s[j].inputs[k] < s.len());
    }
}

/// Discovery appends to the sensors that are there: none of them changes or
/// moves, and a consistent state stays consistent.
pub proof fn law_discovery_appends(
    st: LoadState,
    types: Seq<Option<Seq<char>>>,
    readings: Seq<i32>,
)
    requires
        consistent(st),
    ensures
        ({
            let found = with_extras(
                with_zones(st.sensors, types, types.len() as int),
                readings,
                6,
            );
            &&& st.sensors.len() <= found.len()
            &&& found.take(st.sensors.len() as int) == st.sensors
            &&& consistent(LoadState { sensors: found, ..st })
        }),
{
    let zones = with_zones(st.sensors, types, types.len() as int);
    let found = with_extras(zones, readings, 6);
    lemma_zones_append(st.sensors, types, types.len() as int);
    lemma_extras_append(zones, readings, 6);
    assert(found.take(st.sensors.len() as int) =~= found.take(zones.len() as int).take(
        st.sensors.len() as int,
    ));
}

/// Loading a scenario leaves a consistent state, whether or not the sensors
/// were discovered before.
pub proof fn law_map_leaves_consistency(s: Seq<SensorView>, input: MapInput)
    requires
        input.valid(),
        consistent(only_sensors(s)),
    ensures
        consistent(after_map(s, input)),
{
    let types = zone_types(input.zone_types@);
    if s.len() == 0 {
        law_discovery_appends(only_sensors(s), types, input.extra_readings@);
        let zones = with_zones(s, types, types.len() as int);
        let found = with_extras(zones, input.extra_readings@, 6);
        match input.default_config {
            Some(c) => {
                law_blocks_keep_consistency(only_sensors(found), blocks_of(c@));
            },
            None => {},
        }
    }
    let p = only_sensors(prepared_sensors(s, input));
    match input.target_config {
        Some(c) => {
            law_blocks_keep_consistency(p, blocks_of(c@));
        },
        None => {},
    }
}

/// A sensor that a block names is used where it exists. Where it is missing, a virtual one of
/// that name is appended while there are fewer than 128.
pub proof fn law_missing_sensors_are_created(s: Seq<SensorView>, name: Seq<char>, i: int)
    requires
        s.len() <= 128,
    ensures
        0 <= i < s.len() && s[i].name == name && (forall|k: int|
            0 <= k < i ==> (#[trigger] s[k]).name != name) ==> ensure_virtual(s, name) == (
            s,
            Some(i as usize),
        ),
        (forall|k: int| 0 <= k < s.len() ==> (#[trigger] s[k]).name != name) && s.len() < 128
            ==> ({
            let (t, at) = ensure_virtual(s, name);
            &&& at == Some(s.len() as usize)
            &&& t.len() == s.len() + 1
            &&& t.take(s.len() as int) == s
            &&& t.last().name == name
            &&& t.last().type_ == SensorType::Virtual
            &&& t.last().inputs.len() == 0
            &&& t.last().last_temp_mc == 0
        }),
        (forall|k: int| 0 <= k < s.len() ==> (#[trigger] s[k]).name != name) && s.len() == 128
            ==> ensure_virtual(s, name) == (s, None::<usize>),
{
    crate::sensor::law_first_sensor_with_a_name(s, name, i);
    if s.len() < 128 {
        assert(s.push(virtual_sensor(name)).take(s.len() as int) =~= s);
    }
}

/// The sensor of a block is the one that it names; a simulated block only uses one that
/// exists, and a virtual block without a name, but with inputs, is a sensor of its own name.
pub proof fn law_sensor_of_a_block(s: Seq<SensorView>, b: BlockView)
    ensures
        b.sensor_name.len() > 0 && algo_of(b.algo_str) != AlgoType::Simulated && algo_of(b.algo_str)
            != AlgoType::Virtual ==> block_sensor(s, b) == ensure_virtual(s, b.sensor_name),
        b.sensor_name.len() > 0 && algo_of(b.algo_str) == AlgoType::Simulated ==> block_sensor(s, b)
            == (s, sensor_named(s, b.sensor_name)),
        b.sensor_name.len() == 0 && algo_of(b.algo_str) != AlgoType::Virtual ==> block_sensor(s, b)
            == (s, None::<usize>),
        b.sensor_name.len() == 0 && algo_of(b.algo_str) == AlgoType::Virtual
            && b.sensor_list.len() > 0 ==> block_sensor(s, b) == ensure_virtual(s, b.block_name),
        b.sensor_name.len() == 0 && b.sensor_list.len() == 0 ==> block_sensor(s, b) == (
            s,
            None::<usize>,
        ),
        b.sensor_name.len() > 0 && algo_of(b.algo_str) == AlgoType::Virtual && ensure_virtual(
            s,
            b.sensor_name,
        ).1 is Some ==> block_sensor(s, b) == ensure_virtual(s, b.sensor_name),
{
}

/// The listed inputs of a virtual sensor are attached one by one, each with the weight that is
/// listed in the same place, or 0. One that is missing is created behind the message node of
/// its name while there are fewer than 128 sensors, and left out after that.
pub proof fn law_inputs_are_attached_in_place(s: Seq<SensorView>, i: int, b: BlockView, n: int)
    requires
        0 <= n < b.sensor_list.len(),
        0 <= i < s.len() <= 128,
    ensures
        ({
            let before = with_inputs(s, i, b, n);
            let after = with_inputs(s, i, b, n + 1);
            let name = b.sensor_list[n];
            let weight = if n < b.weights.len() {
                b.weights[n]
            } else {
                0i32
            };
            match sensor_named(before, name) {
                Some(k) => {
                    &&& after.len() == before.len()
                    &&& after[i].inputs == before[i].inputs.push(k)
                    &&& after[i].weights == before[i].weights.push(weight)
                },
                None => {
                    &&& before.len() >= 128 ==> after == before
                    &&& before.len() < 128 ==> {
                        &&& after.len() == before.len() + 1
                        &&& after.last().name == name
                        &&& after.last().path == "/sys/class/thermal/thermal_message/"@ + name
                        &&& after.last().type_ == SensorType::ThermalZone
                        &&& after[i].inputs == before[i].inputs.push(before.len() as usize)
                        &&& after[i].weights == before[i].weights.push(weight)
                    }
                },
            }
        }),
        with_inputs(s, i, b, 0) == s,
{
    lemma_inputs_grow(s, i, b, n);
}

proof fn lemma_inputs_grow(s: Seq<SensorView>, i: int, b: BlockView, n: int)
    requires
        0 <= i < s.len(),
    ensures
        with_inputs(s, i, b, n).len() >= s.len(),
    decreases n,
{
    if n > 0 {
        lemma_inputs_grow(s, i, b, n - 1);
    }
}

/// A virtual sensor without inputs takes the first eight listed ones, the sum of the weights
/// and the compensation of its block; one that has inputs stays as it is.
pub proof fn law_virtual_sensor_is_defined_once(s: Seq<SensorView>, i: int, b: BlockView)
    requires
        0 <= i < s.len(),
    ensures
        s[i].inputs.len() > 0 ==> define_virtual(s, i, b) == s,
        s[i].inputs.len() == 0 ==> ({
            let n = if b.sensor_list.len() > 8 {
                8
            } else {
                b.sensor_list.len() as int
            };
            let d = define_virtual(s, i, b);
            let t = with_inputs(s, i, b, n);
            &&& d.len() == t.len()
            &&& d[i].weight_sum == b.weight_sum
            &&& d[i].compensation == b.compensation
            &&& d[i].inputs == t[i].inputs
            &&& d[i].weights == t[i].weights
            &&& d[i].name == t[i].name
            &&& forall|k: int| 0 <= k < t.len() && k != i ==> #[trigger] d[k] == t[k]
        }),
{
    lemma_inputs_grow(s, i, b, input_count(b));
}

/// A virtual block defines its sensor; no other block changes a sensor beyond creating the
/// one that it names.
pub proof fn law_only_virtual_blocks_define(s: Seq<SensorView>, b: BlockView)
    ensures
        algo_of(b.algo_str) != AlgoType::Virtual ==> sensors_after(s, b) == block_sensor(s, b).0,
        algo_of(b.algo_str) == AlgoType::Virtual && block_sensor(s, b).1 is Some ==> sensors_after(
            s,
            b,
        ) == define_virtual(block_sensor(s, b).0, block_sensor(s, b).1->0 as int, b),
{
}

/// The action of a device at a level stands in the row of the level and the column of the
/// device, and its value in the same place of the target values; 0 stands for a missing one.
pub proof fn law_actions_lie_level_by_level(b: BlockView, level: int, d: int)
    requires
        0 <= level <= b.threshold.trig.len(),
        0 <= d < b.devices.len(),
        level * b.devices.len() + d < 256,
    ensures
        ({
            let k = level * b.devices.len() + d;
            let a = block_actions(b)[k];
            &&& k < block_actions(b).len()
            &&& a.target == b.devices[d]
            &&& a.type_ == device_action(b.devices[d])
            &&& k < b.threshold.target.len() ==> a.value == b.threshold.target[k]
            &&& k >= b.threshold.target.len() ==> a.value == 0
        }),
{
    let n = b.devices.len() as int;
    let k = level * n + d;
    assert(level * n == n * level) by (nonlinear_arith);
    vstd::arithmetic::div_mod::lemma_fundamental_div_mod_converse(k, n, level, d);
    let levels = (b.threshold.trig.len() + 1) as int;
    assert(k < levels * n) by (nonlinear_arith)
        requires
            k == level * n + d,
            level + 1 <= levels,
            0 <= d < n,
    ;
    assert(k == level * b.devices.len() + d);
    assert(levels * n == (b.threshold.trig.len() + 1) * b.devices.len());
}

/// There is one action for each device and level, level 0 among them, up to 256.
pub proof fn law_number_of_actions(b: BlockView)
    ensures
        ({
            let n = b.devices.len() * b.threshold.trig.len() + b.devices.len();
            &&& n <= 256 ==> block_actions(b).len() == n
            &&& n > 256 ==> block_actions(b).len() == 256
        }),
{
    let d = b.devices.len();
    let t = b.threshold.trig.len();
    assert((t + 1) * d == d * t + d) by (nonlinear_arith);
}

/// An instance takes everything from its block, starts at level 0 and has a PID history that
/// has not begun.
pub proof fn law_instance_of_a_block(st: LoadState, b: BlockView)
    requires
        st.instances.len() < 256,
    ensures
        ({
            let after = after_block(st, b);
            let x = after.instances.last();
            &&& after.instances.len() == st.instances.len() + 1
            &&& after.instances.take(st.instances.len() as int) == st.instances
            &&& after.sic_states.len() == st.sic_states.len() + 1
            &&& after.sic_states.last().initialized == false
            &&& after.sic_states.last().initial_value == 6_000_000
            &&& after.sensors == sensors_after(st.sensors, b)
            &&& x.name == b.block_name
            &&& x.sensor_idx == block_sensor(st.sensors, b).1
            &&& x.algo == algo_of(b.algo_str)
            &&& x.sample_ms == b.polling
            &&& x.reverse <==> b.reverse != 0
            &&& x.threshold.trig == b.threshold.trig
            &&& x.threshold.clr == b.threshold.clr
            &&& x.threshold.target == b.threshold.target
            &&& x.threshold.ks == b.threshold.ks
            &&& x.threshold.ki == b.threshold.ki
            &&& x.threshold.kc == b.threshold.kc
            &&& x.threshold.max_out == b.threshold.max_out
            &&& x.threshold.min_out == b.threshold.min_out
            &&& x.threshold.proportion == b.proportion
            &&& x.actions == block_actions(b)
            &&& x.current_level == 0
            &&& x.current_value == 0
        }),
{
    assert(after_block(st, b).instances.take(st.instances.len() as int) =~= st.instances);
}

/// Blocks are resolved one after the other; beyond 256 instances they change nothing.
pub proof fn law_blocks_are_resolved_in_order(
    st: LoadState,
    a: Seq<BlockView>,
    b: Seq<BlockView>,
)
    ensures
        after_blocks(st, a + b) == after_blocks(after_blocks(st, a), b),
        after_blocks(st, Seq::empty()) == st,
        a.len() == 1 ==> after_blocks(st, a) == after_block(st, a[0]),
        a.len() > 0 && st.instances.len() >= 256 ==> after_block(st, a[0]) == st,
    decreases b.len(),
{
    if b.len() == 0 {
        assert(a + b =~= a);
    } else {
        law_blocks_are_resolved_in_order(st, a, b.drop_last());
        assert((a + b).drop_last() =~= a + b.drop_last());
        assert((a + b).last() == b.last());
    }
    if a.len() == 1 {
        assert(a.drop_last() =~= Seq::<BlockView>::empty());
        assert(after_blocks(st, a.drop_last()) == st);
    }
}

/// The positions of the virtual sensors are those of all virtual sensors and no others, in
/// rising order.
pub proof fn law_virtual_positions(s: Seq<SensorView>)
    requires
        s.len() <= usize::MAX,
    ensures
        forall|i: int|
            0 <= i < s.len() && (#[trigger] s[i]).type_ == SensorType::Virtual
                ==> virtual_positions(s).contains(i as usize),
        forall|k: int|
            0 <= k < virtual_positions(s).len() ==> (#[trigger] virtual_positions(s)[k]) < s.len()
                && s[virtual_positions(s)[k] as int].type_ == SensorType::Virtual,
        forall|j: int, k: int|
            0 <= j < k < virtual_positions(s).len() ==> (#[trigger] virtual_positions(s)[j]) < (
            #[trigger] virtual_positions(s)[k]),
    decreases s.len(),
{
    if s.len() > 0 {
        let t = s.drop_last();
        law_virtual_positions(t);
        let before = virtual_positions(t);
        let all = virtual_positions(s);
        assert forall|k: int| 0 <= k < all.len() implies (#[trigger] all[k]) < s.len()
            && s[all[k] as int].type_ == SensorType::Virtual by {
            if k < before.len() {
                assert(all[k] == before[k]);
                assert(t[before[k] as int] == s[before[k] as int]);
            }
        }
        assert forall|i: int|
            0 <= i < s.len() && (#[trigger] s[i]).type_ == SensorType::Virtual implies all.contains(
            i as usize,
        ) by {
            if i < t.len() {
                assert(t[i] == s[i]);
                assert(before.contains(i as usize));
                let k = choose|k: int| 0 <= k < before.len() && before[k] == i as usize;
                assert(all[k] == before[k]);
            } else {
                assert(all[all.len() - 1] == i as usize);
            }
        }
    }
}

/// A scenario number that was not read means the first scenario.
pub proof fn law_scenario_numbers(sconfig: i32)
    ensures
        sconfig >= 0 ==> scenario_index(sconfig) == sconfig,
        sconfig < 0 ==> scenario_index(sconfig) == 0,
{
}

/// Sensors that are there stay for the next scenario; the first load discovers the zones and
/// the fixed sensors, and those of the default scenario where another one is selected. Then
/// the selected scenario is resolved.
pub proof fn law_scenario_is_loaded(s: Seq<SensorView>, input: MapInput, c: &str)
    ensures
        s.len() > 0 ==> prepared_sensors(s, input) == s,
        s.len() == 0 && !input.other_scenario() ==> prepared_sensors(s, input) == with_extras(
            with_zones(s, zone_types(input.zone_types@), input.zone_types@.len() as int),
            input.extra_readings@,
            6,
        ),
        s.len() == 0 && input.other_scenario() && input.default_config == Some(c)
            ==> prepared_sensors(s, input) == after_blocks(
            only_sensors(
                with_extras(
                    with_zones(s, zone_types(input.zone_types@), input.zone_types@.len() as int),
                    input.extra_readings@,
                    6,
                ),
            ),
            blocks_of(c@),
        ).sensors,
        input.target_config == Some(c) ==> after_map(s, input) == after_blocks(
            only_sensors(prepared_sensors(s, input)),
            blocks_of(c@),
        ),
        input.target_config is None ==> after_map(s, input).instances.len() == 0
            && after_map(s, input).sensors == prepared_sensors(s, input),
{
}

/// Another scenario is selected where the map has another file for the announced number than
/// for the first; a number that was not read selects the first.
pub proof fn law_other_scenarios(input: MapInput, map: &str)
    requires
        input.map_content == Some(map),
    ensures
        input.sconfig <= 0 ==> !input.other_scenario(),
        input.sconfig > 0 ==> (input.other_scenario() <==> scenario_name(map@, input.sconfig)
            != scenario_name(map@, 0i32)),
{
}

} // verus!
