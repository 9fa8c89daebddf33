//! The experience log: transitions are collected and written in batches as
//! comma-separated values, one file per day.

use vstd::prelude::*;
use vstd::string::*;

use crate::ai::features::StateVector;
use crate::text::{chars_of, ends_with, join, push_decimal, push_fixed4, push_int, starts_with};
#[allow(unused_imports)]
use crate::text::{decimal, fixed4, has_prefix, has_suffix, show};

verus! {

pub const DATA_DIR: &'static str = "/data/vendor/thermal/ai_data";
pub const FLUSH_INTERVAL: usize = 100;
pub const RETENTION_DAYS: u64 = 7;

/// A state, the action taken in it, and the reward in billionths.
#[derive(Debug, Clone, Copy, PartialEq, Eq, Structural)]
pub struct Experience {
    pub state: StateVector,
    pub action: u8,
    pub reward: i128,
}

/// The logged features of a state, in order.
pub open spec fn logged(s: StateVector) -> Seq<i64> {
    seq![
        s.t_cpu_max,
        s.t_cpu_avg,
        s.t_board_max,
        s.t_battery,
        s.t_ambient,
        s.dt_cpu,
        s.dt_board,
        s.dt_battery,
        s.battery_soc,
        s.is_charging,
        s.screen_on,
        s.time_of_day,
        s.thermal_level_traditional,
        s.t_cpu_ma_10,
        s.t_board_ma_10,
        s.thermal_level_ma_10,
        s.cpu_freq_ratio,
        s.temp_headroom_cpu,
        s.temp_headroom_battery,
        s.temp_variance,
        s.last_action,
        s.action_stability,
        s.last_action_compute,
        s.last_action_thermal,
        s.last_action_charging,
        s.last_action_display,
        s.brightness_ratio,
        s.charge_current_ratio,
        s.t_charger,
        s.battery_current,
        s.cpu_load,
        s.workload_mode,
    ]
}

fn logged_features(s: &StateVector) -> (r: Vec<i64>)
    ensures
        r@ == logged(*s),
{
    let mut v: Vec<i64> = Vec::new();
    v.push(s.t_cpu_max);
    v.push(s.t_cpu_avg);
    v.push(s.t_board_max);
    v.push(s.t_battery);
    v.push(s.t_ambient);
    v.push(s.dt_cpu);
    v.push(s.dt_board);
    v.push(s.dt_battery);
    v.push(s.battery_soc);
    v.push(s.is_charging);
    v.push(s.screen_on);
    v.push(s.time_of_day);
    v.push(s.thermal_level_traditional);
    v.push(s.t_cpu_ma_10);
    v.push(s.t_board_ma_10);
    v.push(s.thermal_level_ma_10);
    v.push(s.cpu_freq_ratio);
    v.push(s.temp_headroom_cpu);
    v.push(s.temp_headroom_battery);
    v.push(s.temp_variance);
    v.push(s.last_action);
    v.push(s.action_stability);
    v.push(s.last_action_compute);
    v.push(s.last_action_thermal);
    v.push(s.last_action_charging);
    v.push(s.last_action_display);
    v.push(s.brightness_ratio);
    v.push(s.charge_current_ratio);
    v.push(s.t_charger);
    v.push(s.battery_current);
    v.push(s.cpu_load);
    v.push(s.workload_mode);
    assert(v@ =~= logged(*s));
    v
}

/// The first `n` values, each followed by a comma.
pub open spec fn cells(v: Seq<i64>, n: int) -> Seq<char>
    decreases n,
{
    if n <= 0 {
        Seq::empty()
    } else {
        cells(v, n - 1) + fixed4(v[n - 1] as int, 100) + ","@
    }
}

/// The line of an experience.
pub open spec fn row(e: Experience) -> Seq<char> {
    cells(logged(e.state), logged(e.state).len() as int) + decimal(e.action as int) + ","@ + fixed4(
        e.reward as int,
        100_000,
    )
}

/// The lines of the first `n` experiences.
pub open spec fn rows(b: Seq<Experience>, n: int) -> Seq<char>
    decreases n,
{
    if n <= 0 {
        Seq::empty()
    } else {
        rows(b, n - 1) + row(b[n - 1]) + "\n"@
    }
}

/// The names of the columns.
pub open spec fn header() -> Seq<char> {
    "t_cpu_max,t_cpu_avg,t_board_max,t_battery,t_ambient,dt_cpu,dt_board,dt_battery,battery_soc,is_charging,screen_on,time_of_day,thermal_level_traditional,t_cpu_ma_10,t_board_ma_10,thermal_level_ma_10,cpu_freq_ratio,temp_headroom_cpu,temp_headroom_battery,temp_variance,last_action,action_stability,last_action_compute,last_action_thermal,last_action_charging,last_action_display,brightness_ratio,charge_current_ratio,t_charger,battery_current,cpu_load,workload_mode,action,reward"@
}

/// What a batch appends to its file; a new file starts with the header.
pub open spec fn batch(b: Seq<Experience>, file_exists: bool) -> Seq<char> {
    let head = if file_exists {
        Seq::empty()
    } else {
        header() + "\n"@
    };
    head + rows(b, b.len() as int)
}

impl Experience {
    pub fn csv_header() -> (r: String)
        ensures
            r@ == header(),
    {
        "t_cpu_max,t_cpu_avg,t_board_max,t_battery,t_ambient,dt_cpu,dt_board,dt_battery,battery_soc,is_charging,screen_on,time_of_day,thermal_level_traditional,t_cpu_ma_10,t_board_ma_10,thermal_level_ma_10,cpu_freq_ratio,temp_headroom_cpu,temp_headroom_battery,temp_variance,last_action,action_stability,last_action_compute,last_action_thermal,last_action_charging,last_action_display,brightness_ratio,charge_current_ratio,t_charger,battery_current,cpu_load,workload_mode,action,reward".to_string()
    }

    pub fn to_csv_row(&self) -> (r: String)
        requires
            -0x1_0000_0000_0000_0000_0000_0000 < self.reward < 0x1_0000_0000_0000_0000_0000_0000,
        ensures
            r@ == row(*self),
    {
        let v = logged_features(&self.state);
        let mut out = String::new();
        let mut i: usize = 0;
        assert(out@ =~= cells(v@, 0));
        while i < v.len()
            invariant
                i <= v@.len(),
                out@ == cells(v@, i as int),
            decreases v@.len() - i,
        {
            push_fixed4(&mut out, v[i] as i128, 100);
            out.append(",");
            i += 1;
        }
        push_decimal(&mut out, self.action as u128);
        out.append(",");
        push_fixed4(&mut out, self.reward, 100_000);
        out
    }
}

#[derive(Debug)]
pub struct DataCollector {
    pub buffer: Vec<Experience>,
    pub data_dir: String,
    pub enabled: bool,
}

pub struct CollectorView {
    pub buffer: Seq<Experience>,
    pub data_dir: Seq<char>,
    pub enabled: bool,
}

impl View for DataCollector {
    type V = CollectorView;

    open spec fn view(&self) -> CollectorView {
        CollectorView { buffer: self.buffer@, data_dir: self.data_dir@, enabled: self.enabled }
    }
}

pub open spec fn fresh_collector() -> CollectorView {
    CollectorView { buffer: Seq::empty(), data_dir: DATA_DIR@, enabled: true }
}

impl CollectorView {
    /// Every reward is within the range that can be written.
    pub open spec fn wf(self) -> bool {
        forall|i: int|
            0 <= i < self.buffer.len() ==> -0x1_0000_0000_0000_0000_0000_0000 < (
            #[trigger] self.buffer[i]).reward < 0x1_0000_0000_0000_0000_0000_0000
    }

    /// The collector after an experience.
    pub open spec fn recorded(self, state: StateVector, action: u8, reward: int) -> Self {
        if self.enabled {
            CollectorView {
                buffer: self.buffer.push(Experience { state, action, reward: reward as i128 }),
                ..self
            }
        } else {
            self
        }
    }

    /// Is a batch complete?
    pub open spec fn full(self) -> bool {
        self.enabled && self.buffer.len() >= FLUSH_INTERVAL
    }

    /// The file of a day.
    pub open spec fn log_file(self, now_secs: u64) -> Seq<char> {
        self.data_dir + "/experiences_"@ + show(now_secs as int / 86400) + ".csv"@
    }
}

/// Is a file an experience log that has outlived its retention?
pub open spec fn expired(name: Seq<char>, mtime_secs: u64, now_secs: u64) -> bool {
    has_prefix(name, "experiences_"@) && has_suffix(name, ".csv"@) && mtime_secs < now_secs
        - RETENTION_DAYS * 86400
}

impl DataCollector {
    pub fn new() -> (r: Self)
        ensures
            r@ == fresh_collector(),
            r@.wf(),
    {
        DataCollector { buffer: Vec::new(), data_dir: DATA_DIR.to_string(), enabled: true }
    }

    /// Records an experience. Returns whether the batch is complete and is to be
    /// flushed.
    pub fn record(&mut self, state: &StateVector, action: u8, reward: i128) -> (r: bool)
        requires
            old(self)@.wf(),
            -0x1_0000_0000_0000_0000_0000_0000 < reward < 0x1_0000_0000_0000_0000_0000_0000,
        ensures
            final(self)@ == old(self)@.recorded(*state, action, reward as int),
            r == final(self)@.full(),
            final(self)@.wf(),
    {
        if !self.enabled {
            return false;
        }
        self.buffer.push(Experience { state: *state, action, reward });
        self.buffer.len() >= FLUSH_INTERVAL
    }

    /// Hands out the collected batch as text and forgets it. Without experiences
    /// there is nothing to write.
    pub fn flush(&mut self, file_exists: bool) -> (r: Option<String>)
        requires
            old(self)@.wf(),
        ensures
            match r {
                Some(text) => old(self)@.buffer.len() > 0 && text@ == batch(
                    old(self)@.buffer,
                    file_exists,
                ),
                None => old(self)@.buffer.len() == 0,
            },
            final(self)@ == (CollectorView { buffer: Seq::empty(), ..old(self)@ }),
            final(self)@.wf(),
    {
        if self.buffer.len() == 0 {
            assert(self.buffer@ =~= Seq::empty());
            return None;
        }
        let mut data = String::new();
        if !file_exists {
            let head = Experience::csv_header();
            data.append(head.as_str());
            data.append("\n");
        }
        let ghost head = data@;
        let mut i: usize = 0;
        assert(data@ =~= head + rows(self.buffer@, 0));
        while i < self.buffer.len()
            invariant
                self@.wf(),
                self@ == old(self)@,
                i <= self.buffer@.len(),
                data@ == head + rows(self.buffer@, i as int),
            decreases self.buffer@.len() - i,
        {
            assert(self@.buffer[i as int] == self.buffer@[i as int]);
            let text = self.buffer[i].to_csv_row();
            data.append(text.as_str());
            data.append("\n");
            assert(data@ =~= head + rows(self.buffer@, i + 1));
            i += 1;
        }
        assert(data@ =~= batch(old(self)@.buffer, file_exists));
        self.buffer.clear();
        Some(data)
    }

    /// The file that a batch goes to.
    pub fn log_path(&self, now_secs: u64) -> (r: String)
        ensures
            r@ == self@.log_file(now_secs),
    {
        let mut path = join(self.data_dir.as_str(), "/experiences_");
        push_int(&mut path, (now_secs / 86400) as i64);
        path.append(".csv");
        path
    }

    /// The file of the saved weights.
    pub fn qtable_path(&self) -> (r: String)
        ensures
            r@ == self@.data_dir + "/q_table.json"@,
    {
        join(self.data_dir.as_str(), "/q_table.json")
    }

    /// The copy that is kept of the weights saved before.
    pub fn qtable_backup_path(&self) -> (r: String)
        ensures
            r@ == self@.data_dir + "/q_table_backup.json"@,
    {
        join(self.data_dir.as_str(), "/q_table_backup.json")
    }

    /// Tests whether a file of the directory is to be removed.
    pub fn is_expired_log(name: &str, mtime_secs: u64, now_secs: u64) -> (r: bool)
        requires
            RETENTION_DAYS * 86400 <= now_secs,
        ensures
            r == expired(name@, mtime_secs, now_secs),
    {
        let v = chars_of(name);
        starts_with(&v, "experiences_") && ends_with(&v, ".csv") && mtime_secs < now_secs
            - RETENTION_DAYS * 86400
    }
}

/// A file is written under this name first and then renamed, so that a reader
/// never sees half of it.
pub fn temp_path(path: &str) -> (r: String)
    ensures
        r@ == path@ + ".tmp"@,
{
    join(path, ".tmp")
}

// ---------------------------------------------------------------------------
// Laws
// ---------------------------------------------------------------------------

/// Batches appended to a file one after the other read as one batch: nothing is
/// lost or written twice.
pub proof fn law_batches_concatenate(a: Seq<Experience>, b: Seq<Experience>)
    ensures
        batch(a, false) + batch(b, true) == batch(a + b, false),
{
    lemma_rows_split(a, b, b.len() as int);
    assert(batch(a, false) + batch(b, true) =~= batch(a + b, false));
}

proof fn lemma_rows_split(a: Seq<Experience>, b: Seq<Experience>, n: int)
    requires
        0 <= n <= b.len(),
    ensures
        rows(a + b, a.len() + n) == rows(a, a.len() as int) + rows(b, n),
    decreases n,
{
    if n > 0 {
        lemma_rows_split(a, b, n - 1);
        assert((a + b)[a.len() + n - 1] == b[n - 1]);
        assert(rows(a + b, a.len() + n) =~= rows(a, a.len() as int) + rows(b, n));
    } else {
        lemma_rows_prefix(a, b, a.len() as int);
        assert(rows(a, a.len() as int) + rows(b, 0) =~= rows(a, a.len() as int));
    }
}

proof fn lemma_rows_prefix(a: Seq<Experience>, b: Seq<Experience>, n: int)
    requires
        0 <= n <= a.len(),
    ensures
        rows(a + b, n) == rows(a, n),
    decreases n,
{
    if n > 0 {
        lemma_rows_prefix(a, b, n - 1);
    }
}

/// Each column of the log holds the feature that the header names in its place.
pub proof fn law_columns_of_the_log(s: StateVector)
    ensures
        logged(s).len() == 32,
        logged(s)[0] == s.t_cpu_max,
        logged(s)[1] == s.t_cpu_avg,
        logged(s)[2] == s.t_board_max,
        logged(s)[3] == s.t_battery,
        logged(s)[4] == s.t_ambient,
        logged(s)[5] == s.dt_cpu,
        logged(s)[6] == s.dt_board,
        logged(s)[7] == s.dt_battery,
        logged(s)[8] == s.battery_soc,
        logged(s)[9] == s.is_charging,
        logged(s)[10] == s.screen_on,
        logged(s)[11] == s.time_of_day,
        logged(s)[12] == s.thermal_level_traditional,
        logged(s)[13] == s.t_cpu_ma_10,
        logged(s)[14] == s.t_board_ma_10,
        logged(s)[15] == s.thermal_level_ma_10,
        logged(s)[16] == s.cpu_freq_ratio,
        logged(s)[17] == s.temp_headroom_cpu,
        logged(s)[18] == s.temp_headroom_battery,
        logged(s)[19] == s.temp_variance,
        logged(s)[20] == s.last_action,
        logged(s)[21] == s.action_stability,
        logged(s)[22] == s.last_action_compute,
        logged(s)[23] == s.last_action_thermal,
        logged(s)[24] == s.last_action_charging,
        logged(s)[25] == s.last_action_display,
        logged(s)[26] == s.brightness_ratio,
        logged(s)[27] == s.charge_current_ratio,
        logged(s)[28] == s.t_charger,
        logged(s)[29] == s.battery_current,
        logged(s)[30] == s.cpu_load,
        logged(s)[31] == s.workload_mode,
{
}

/// The cells of two rows of values are those of the one and then those of the other; a single
/// value is written with four decimals and a comma.
pub proof fn law_cells_follow_each_other(a: Seq<i64>, b: Seq<i64>)
    ensures
        cells(a + b, (a + b).len() as int) == cells(a, a.len() as int) + cells(b, b.len() as int),
        a.len() == 1 ==> cells(a, 1) == fixed4(a[0] as int, 100) + seq![','],
    decreases b.len(),
{
    reveal_strlit(",");
    if a.len() == 1 {
        assert(cells(a, 0) =~= Seq::<char>::empty());
        assert(","@ =~= seq![',']);
        assert(cells(a, 1) =~= fixed4(a[0] as int, 100) + seq![',']);
    }
    if b.len() == 0 {
        assert(a + b =~= a);
        assert(cells(b, 0) =~= Seq::<char>::empty());
    } else {
        let c = b.drop_last();
        law_cells_follow_each_other(a, c);
        let n = (a + b).len() as int;
        lemma_cells_of_part(a + b, a + c, n - 1);
        lemma_cells_of_part(b, c, c.len() as int);
        assert((a + b)[n - 1] == b[b.len() - 1]);
        let last = fixed4(b[b.len() - 1] as int, 100);
        assert(cells(a + b, n) =~= cells(a, a.len() as int) + cells(b, b.len() as int));
    }
}

proof fn lemma_cells_of_part(v: Seq<i64>, w: Seq<i64>, n: int)
    requires
        n <= v.len(),
        n <= w.len(),
        forall|i: int| 0 <= i < n ==> v[i] == w[i],
    ensures
        cells(v, n) == cells(w, n),
    decreases n,
{
    if n > 0 {
        lemma_cells_of_part(v, w, n - 1);
    }
}

/// A row ends with the action and the reward: its other cells are the features of the state.
pub proof fn law_row_ends_with_action_and_reward(e: Experience)
    ensures
        ({
            let features = cells(logged(e.state), 32);
            &&& row(e).take(features.len() as int) == features
            &&& row(e).skip(features.len() as int) == decimal(e.action as int) + seq![','] + fixed4(
                e.reward as int,
                100_000,
            )
        }),
{
    reveal_strlit(",");
    assert(","@ =~= seq![',']);
    let features = cells(logged(e.state), 32);
    assert(row(e).take(features.len() as int) =~= features);
    assert(row(e).skip(features.len() as int) =~= decimal(e.action as int) + seq![','] + fixed4(
        e.reward as int,
        100_000,
    ));
}

/// Each experience is a line of its own; a file that is new starts with the header.
pub proof fn law_lines_of_a_batch(e: Experience)
    ensures
        batch(seq![e], true) == row(e) + seq!['\n'],
        batch(Seq::empty(), true) == Seq::<char>::empty(),
        batch(Seq::empty(), false) == header() + seq!['\n'],
{
    reveal_strlit("\n");
    assert("\n"@ =~= seq!['\n']);
    let one = seq![e];
    assert(rows(one, 0) =~= Seq::<char>::empty());
    assert(rows(one, 1) =~= row(e) + seq!['\n']);
    assert(batch(seq![e], true) =~= row(e) + seq!['\n']);
    assert(rows(Seq::<Experience>::empty(), 0) =~= Seq::<char>::empty());
    assert(batch(Seq::empty(), false) =~= header() + seq!['\n']);
}

/// An enabled collector appends every experience and is full at a hundred of them; a disabled
/// one keeps none.
pub proof fn law_collecting(c: CollectorView, state: StateVector, action: u8, reward: int)
    requires
        i128::MIN <= reward <= i128::MAX,
    ensures
        c.enabled ==> ({
            let after = c.recorded(state, action, reward);
            &&& after.buffer.len() == c.buffer.len() + 1
            &&& after.buffer.take(c.buffer.len() as int) == c.buffer
            &&& after.buffer.last().state == state
            &&& after.buffer.last().action == action
            &&& after.buffer.last().reward == reward
            &&& after.full() <==> c.buffer.len() >= 99
            &&& after.data_dir == c.data_dir
        }),
        !c.enabled ==> c.recorded(state, action, reward) == c && !c.full(),
{
    if c.enabled {
        assert(c.recorded(state, action, reward).buffer.take(c.buffer.len() as int) =~= c.buffer);
    }
}

/// All experiences of a day go to one file, which is named by the number of the day.
pub proof fn law_one_file_per_day(c: CollectorView, day: int, now_secs: u64)
    requires
        86_400 * day <= now_secs < 86_400 * (day + 1),
    ensures
        c.log_file(now_secs) == c.data_dir + "/experiences_"@ + show(day) + ".csv"@,
{
}

/// A log expires a week after it was last written; other files never do.
pub proof fn law_logs_expire_after_a_week(name: Seq<char>, mtime_secs: u64, now_secs: u64)
    ensures
        expired("experiences_"@ + name + ".csv"@, mtime_secs, now_secs) <==> mtime_secs + 604_800
            < now_secs,
        !has_prefix(name, "experiences_"@) || !has_suffix(name, ".csv"@) ==> !expired(
            name,
            mtime_secs,
            now_secs,
        ),
{
    let full = "experiences_"@ + name + ".csv"@;
    crate::text::law_parts_of_a_text(
        "experiences_"@ + name,
        ".csv"@,
        Seq::empty(),
    );
    crate::text::law_parts_of_a_text(Seq::empty(), "experiences_"@, name + ".csv"@);
    assert(full =~= "experiences_"@ + (name + ".csv"@));
}

} // verus!
