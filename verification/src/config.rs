//! The thermal configuration: decoding, parsing and resolving it into sensors
//! and controller instances.

use vstd::prelude::*;

use crate::text::{
    chars_of, find, find_blank, lines_of, parse_int, parse_int_or, piece, same_text, spells,
    split_at, starts_with, string_of, trimmed, words_of,
};
#[allow(unused_imports)]
use crate::text::{
    all_ws, blank_at, decimal, digit_char, has_prefix, index_of, int_of, int_or, is_trim, is_word,
    is_ws, law_a_word_is_one_word, law_parts_of_a_text, law_separators_part_pieces,
    law_show_then_parse, law_trim_takes_the_ends_off, law_whitespace, law_whitespace_parts_words,
    lemma_blank_at, lemma_index_of, lemma_texts_push, lemma_trim_front_len, lines, show, split_on,
    texts, trim, trim_back, trim_front, views, words,
};
use crate::types::{
    copy_ints, ActionType, Threshold, MI_MAX_DEVICES_PER_BLOCK, MI_MAX_INPUTS_PER_VSN,
    MI_MAX_LEVELS,
};
#[allow(unused_imports)]
use crate::types::{empty_threshold, ThresholdView};

verus! {

// ---------------------------------------------------------------------------
// Devices
// ---------------------------------------------------------------------------

/// `cpu0` to `cpu7`.
pub open spec fn is_core_name(d: Seq<char>) -> bool {
    d.len() == 4 && d[0] == 'c' && d[1] == 'p' && d[2] == 'u' && 48 <= d[3] as u32 <= 55
}

/// The action that a configured device name stands for. Names that mean
/// nothing else are frequency policies.
pub open spec fn device_action(d: Seq<char>) -> ActionType {
    if is_core_name(d) {
        ActionType::CpuFreq
    } else if has_prefix(d, "hotplug_cpu"@) {
        ActionType::CpuHotplug
    } else if has_prefix(d, "policy"@) || has_prefix(d, "cpu-cluster"@) {
        ActionType::CpuFreq
    } else if has_prefix(d, "VIRTUAL"@) {
        ActionType::NoAction
    } else if d == "gpu"@ {
        ActionType::GpuBoost
    } else if d == "battery"@ {
        ActionType::Bcl
    } else if d == "thermal_fcc_override"@ {
        ActionType::Fcc
    } else if d == "boost_limit"@ {
        ActionType::BoostLimit
    } else if d == "temp_state"@ {
        ActionType::TempState
    } else if d == "thermal_max_brightness"@ {
        ActionType::MaxBrightness
    } else if d == "modem_limit"@ {
        ActionType::ModemLimit
    } else if d == "modem_level"@ {
        ActionType::ModemLevel
    } else if d == "wifi_limit"@ {
        ActionType::WifiLimit
    } else if d == "voice_limit"@ {
        ActionType::VoiceLimit
    } else if d == "torch_level"@ {
        ActionType::TorchLevel
    } else if d == "cdsp"@ {
        ActionType::Cdsp
    } else if d == "market_download_limit"@ {
        ActionType::MarketLimit
    } else if d == "screen_state"@ {
        ActionType::ScreenState
    } else if d == "boost"@ {
        ActionType::Boost
    } else if d == "special_cpu_limit"@ {
        ActionType::SpecialCpuLimit
    } else if d == "cpu_limits"@ {
        ActionType::CpuLimits
    } else {
        ActionType::CpuFreq
    }
}

pub fn device_to_action(dev: &str) -> (r: ActionType)
    ensures
        r == device_action(dev@),
{
    let d = chars_of(dev);
    if d.len() == 4 && d[0] == 'c' && d[1] == 'p' && d[2] == 'u' && 48 <= d[3] as u32 && d[3] as u32
        <= 55 {
        return ActionType::CpuFreq;
    }
    if starts_with(&d, "hotplug_cpu") {
        return ActionType::CpuHotplug;
    }
    if starts_with(&d, "policy") || starts_with(&d, "cpu-cluster") {
        return ActionType::CpuFreq;
    }
    if starts_with(&d, "VIRTUAL") {
        return ActionType::NoAction;
    }
    if same_text(dev, "gpu") {
        ActionType::GpuBoost
    } else if same_text(dev, "battery") {
        ActionType::Bcl
    } else if same_text(dev, "thermal_fcc_override") {
        ActionType::Fcc
    } else if same_text(dev, "boost_limit") {
        ActionType::BoostLimit
    } else if same_text(dev, "temp_state") {
        ActionType::TempState
    } else if same_text(dev, "thermal_max_brightness") {
        ActionType::MaxBrightness
    } else if same_text(dev, "modem_limit") {
        ActionType::ModemLimit
    } else if same_text(dev, "modem_level") {
        ActionType::ModemLevel
    } else if same_text(dev, "wifi_limit") {
        ActionType::WifiLimit
    } else if same_text(dev, "voice_limit") {
        ActionType::VoiceLimit
    } else if same_text(dev, "torch_level") {
        ActionType::TorchLevel
    } else if same_text(dev, "cdsp") {
        ActionType::Cdsp
    } else if same_text(dev, "market_download_limit") {
        ActionType::MarketLimit
    } else if same_text(dev, "screen_state") {
        ActionType::ScreenState
    } else if same_text(dev, "boost") {
        ActionType::Boost
    } else if same_text(dev, "special_cpu_limit") {
        ActionType::SpecialCpuLimit
    } else if same_text(dev, "cpu_limits") {
        ActionType::CpuLimits
    } else {
        ActionType::CpuFreq
    }
}

// ---------------------------------------------------------------------------
// Lists inside a value
// ---------------------------------------------------------------------------

/// At most the first `n` elements.
pub open spec fn cut<T>(s: Seq<T>, n: int) -> Seq<T> {
    if s.len() > n {
        s.take(n)
    } else {
        s
    }
}

/// The numbers among the texts, in order.
pub open spec fn numbers(ts: Seq<Seq<char>>) -> Seq<i32>
    decreases ts.len(),
{
    if ts.len() == 0 {
        Seq::empty()
    } else {
        match int_of(ts.last()) {
            Some(n) => numbers(ts.drop_last()).push(n),
            None => numbers(ts.drop_last()),
        }
    }
}

/// Each text without the whitespace around it.
pub open spec fn trim_all(ts: Seq<Seq<char>>) -> Seq<Seq<char>> {
    ts.map_values(|t: Seq<char>| trim(t))
}

/// The texts that are not empty, in order.
pub open spec fn nonempty(ts: Seq<Seq<char>>) -> Seq<Seq<char>>
    decreases ts.len(),
{
    if ts.len() == 0 {
        Seq::empty()
    } else if ts.last().len() == 0 {
        nonempty(ts.drop_last())
    } else {
        nonempty(ts.drop_last()).push(ts.last())
    }
}

/// The numbers of a target list. A word with `+` in it lists one number per
/// part and skips parts that are none; any other word is one number, 0 if it is
/// none.
pub open spec fn target_numbers(ws: Seq<Seq<char>>) -> Seq<i32>
    decreases ws.len(),
{
    if ws.len() == 0 {
        Seq::empty()
    } else {
        let w = ws.last();
        let before = target_numbers(ws.drop_last());
        if index_of(w, '+') < w.len() {
            before + numbers(trim_all(split_on(w, '+')))
        } else {
            before.push(int_or(w, 0i32))
        }
    }
}

fn numbers_of(ts: &Vec<Vec<char>>) -> (r: Vec<i32>)
    ensures
        r@ == numbers(views(ts@)),
{
    let ghost tv = views(ts@);
    let mut out: Vec<i32> = Vec::new();
    let mut i: usize = 0;
    assert(tv.take(0) =~= Seq::empty());
    while i < ts.len()
        invariant
            i <= ts.len(),
            tv == views(ts@),
            out@ == numbers(tv.take(i as int)),
        decreases ts.len() - i,
    {
        proof {
            assert(tv.take(i + 1).drop_last() =~= tv.take(i as int));
            assert(tv.take(i + 1).last() == ts@[i as int]@);
        }
        match parse_int(&ts[i]) {
            Some(n) => {
                out.push(n);
            },
            None => {},
        }
        i += 1;
    }
    assert(tv.take(ts@.len() as int) =~= tv);
    out
}

fn trimmed_all(ts: &Vec<Vec<char>>) -> (r: Vec<Vec<char>>)
    ensures
        views(r@) == trim_all(views(ts@)),
{
    let mut out: Vec<Vec<char>> = Vec::new();
    let mut i: usize = 0;
    while i < ts.len()
        invariant
            i <= ts.len() == ts@.len(),
            out.len() == i,
            forall|k: int| 0 <= k < i ==> (#[trigger] out@[k])@ == trim(ts@[k]@),
        decreases ts.len() - i,
    {
        out.push(trimmed(&ts[i]));
        i += 1;
    }
    assert(views(out@) =~= trim_all(views(ts@)));
    out
}

fn strings_of(ts: &Vec<Vec<char>>) -> (r: Vec<String>)
    ensures
        texts(r@) == views(ts@),
{
    let mut out: Vec<String> = Vec::new();
    let mut i: usize = 0;
    while i < ts.len()
        invariant
            i <= ts.len() == ts@.len(),
            out.len() == i,
            forall|k: int| 0 <= k < i ==> (#[trigger] out@[k])@ == ts@[k]@,
        decreases ts.len() - i,
    {
        out.push(string_of(&ts[i]));
        i += 1;
    }
    assert(texts(out@) =~= views(ts@));
    out
}

proof fn lemma_cut_texts(v: Seq<String>, n: int)
    requires
        0 <= n,
    ensures
        texts(cut(v, n)) == cut(texts(v), n),
{
    assert(texts(cut(v, n)) =~= cut(texts(v), n));
}

/// The first `max` numbers of a whitespace-separated list; words that are no
/// numbers are skipped.
pub open spec fn int_array(s: Seq<char>, max: int) -> Seq<i32> {
    cut(numbers(words(s)), max)
}

fn int_array_of(v: &Vec<char>, max: usize) -> (r: Vec<i32>)
    ensures
        r@ == int_array(v@, max as int),
{
    let mut out = numbers_of(&words_of(v));
    out.truncate(max);
    assert(out@ =~= int_array(v@, max as int));
    out
}

pub fn parse_int_array(s: &str, max: usize) -> (r: Vec<i32>)
    ensures
        r@ == int_array(s@, max as int),
{
    int_array_of(&chars_of(s), max)
}

/// The first `max` names of a `+`-separated list; empty names are skipped.
pub open spec fn device_list(s: Seq<char>, max: int) -> Seq<Seq<char>> {
    cut(nonempty(trim_all(split_on(s, '+'))), max)
}

fn device_list_of(v: &Vec<char>, max: usize) -> (r: Vec<String>)
    ensures
        texts(r@) == device_list(v@, max as int),
{
    let parts = trimmed_all(&split_at(v, '+'));
    let ghost pv = views(parts@);
    let mut out: Vec<String> = Vec::new();
    let mut i: usize = 0;
    assert(pv.take(0) =~= Seq::empty());
    assert(texts(out@) =~= Seq::empty());
    while i < parts.len()
        invariant
            i <= parts.len(),
            pv == views(parts@),
            texts(out@) == nonempty(pv.take(i as int)),
        decreases parts.len() - i,
    {
        proof {
            assert(pv.take(i + 1).drop_last() =~= pv.take(i as int));
            assert(pv.take(i + 1).last() == parts@[i as int]@);
        }
        if parts[i].len() > 0 {
            let s = string_of(&parts[i]);
            proof {
                lemma_texts_push(out@, s);
            }
            out.push(s);
        }
        i += 1;
    }
    assert(pv.take(parts@.len() as int) =~= pv);
    let ghost full = out@;
    out.truncate(max);
    proof {
        lemma_cut_texts(full, max as int);
        assert(out@ =~= cut(full, max as int));
    }
    out
}

pub fn split_devices(s: &str, max: usize) -> (r: Vec<String>)
    ensures
        texts(r@) == device_list(s@, max as int),
{
    device_list_of(&chars_of(s), max)
}

fn sensor_words(v: &Vec<char>) -> (r: Vec<String>)
    ensures
        texts(r@) == cut(words(v@), MI_MAX_INPUTS_PER_VSN as int),
{
    let mut out = strings_of(&words_of(v));
    let ghost full = out@;
    out.truncate(MI_MAX_INPUTS_PER_VSN);
    proof {
        lemma_cut_texts(full, MI_MAX_INPUTS_PER_VSN as int);
        assert(out@ =~= cut(full, MI_MAX_INPUTS_PER_VSN as int));
    }
    out
}

/// How many target values a block may hold.
pub const MAX_TARGETS: usize = 256;

fn target_list_of(v: &Vec<char>) -> (r: Vec<i32>)
    ensures
        r@ == cut(target_numbers(words(v@)), MAX_TARGETS as int),
{
    let ws = words_of(v);
    let ghost wv = views(ws@);
    let mut out: Vec<i32> = Vec::new();
    let mut i: usize = 0;
    assert(wv.take(0) =~= Seq::empty());
    while i < ws.len()
        invariant
            i <= ws.len(),
            wv == views(ws@),
            out@ == target_numbers(wv.take(i as int)),
        decreases ws.len() - i,
    {
        proof {
            assert(wv.take(i + 1).drop_last() =~= wv.take(i as int));
            assert(wv.take(i + 1).last() == ws@[i as int]@);
        }
        if find(&ws[i], '+') < ws[i].len() {
            let mut ns = numbers_of(&trimmed_all(&split_at(&ws[i], '+')));
            out.append(&mut ns);
        } else {
            out.push(parse_int_or(&ws[i], 0));
        }
        i += 1;
    }
    assert(wv.take(ws@.len() as int) =~= wv);
    let ghost full = out@;
    out.truncate(MAX_TARGETS);
    assert(out@ =~= cut(full, MAX_TARGETS as int));
    out
}

// ---------------------------------------------------------------------------
// Blocks
// ---------------------------------------------------------------------------

/// One `[name]` section of a configuration.
#[derive(Debug)]
pub struct ConfigBlock {
    pub block_name: String,
    pub algo_str: String,
    pub sensor_name: String,
    pub sensor_list: Vec<String>,
    pub devices: Vec<String>,
    pub polling: i32,
    pub weight_sum: i32,
    pub compensation: i32,
    pub weights: Vec<i32>,
    pub threshold: Threshold,
    pub proportion: i32,
    pub reverse: i32,
}

pub struct BlockView {
    pub block_name: Seq<char>,
    pub algo_str: Seq<char>,
    pub sensor_name: Seq<char>,
    pub sensor_list: Seq<Seq<char>>,
    pub devices: Seq<Seq<char>>,
    pub polling: i32,
    pub weight_sum: i32,
    pub compensation: i32,
    pub weights: Seq<i32>,
    pub threshold: ThresholdView,
    pub proportion: i32,
    pub reverse: i32,
}

impl View for ConfigBlock {
    type V = BlockView;

    open spec fn view(&self) -> BlockView {
        BlockView {
            block_name: self.block_name@,
            algo_str: self.algo_str@,
            sensor_name: self.sensor_name@,
            sensor_list: texts(self.sensor_list@),
            devices: texts(self.devices@),
            polling: self.polling,
            weight_sum: self.weight_sum,
            compensation: self.compensation,
            weights: self.weights@,
            threshold: self.threshold@,
            proportion: self.proportion,
            reverse: self.reverse,
        }
    }
}

/// A block in which nothing is set.
pub open spec fn empty_block() -> BlockView {
    BlockView {
        block_name: Seq::empty(),
        algo_str: Seq::empty(),
        sensor_name: Seq::empty(),
        sensor_list: Seq::empty(),
        devices: Seq::empty(),
        polling: 1000,
        weight_sum: 0,
        compensation: 0,
        weights: Seq::empty(),
        threshold: empty_threshold(),
        proportion: 0,
        reverse: 0,
    }
}

impl Default for ConfigBlock {
    fn default() -> (r: Self)
        ensures
            r@ == empty_block(),
    {
        let r = ConfigBlock {
            block_name: String::new(),
            algo_str: String::new(),
            sensor_name: String::new(),
            sensor_list: Vec::new(),
            devices: Vec::new(),
            polling: 1000,
            weight_sum: 0,
            compensation: 0,
            weights: Vec::new(),
            threshold: Threshold::default(),
            proportion: 0,
            reverse: 0,
        };
        assert(texts(r.sensor_list@) =~= Seq::empty());
        assert(texts(r.devices@) =~= Seq::empty());
        r
    }
}

fn copy_strings(v: &Vec<String>) -> (r: Vec<String>)
    ensures
        texts(r@) == texts(v@),
{
    let mut out: Vec<String> = Vec::new();
    let mut i: usize = 0;
    while i < v.len()
        invariant
            i <= v.len() == v@.len(),
            out.len() == i,
            forall|k: int| 0 <= k < i ==> (#[trigger] out@[k])@ == v@[k]@,
        decreases v.len() - i,
    {
        out.push(v[i].clone());
        i += 1;
    }
    assert(texts(out@) =~= texts(v@));
    out
}

impl Clone for ConfigBlock {
    fn clone(&self) -> (r: Self)
        ensures
            r@ == self@,
    {
        ConfigBlock {
            block_name: self.block_name.clone(),
            algo_str: self.algo_str.clone(),
            sensor_name: self.sensor_name.clone(),
            sensor_list: copy_strings(&self.sensor_list),
            devices: copy_strings(&self.devices),
            polling: self.polling,
            weight_sum: self.weight_sum,
            compensation: self.compensation,
            weights: copy_ints(&self.weights),
            threshold: self.threshold.clone(),
            proportion: self.proportion,
            reverse: self.reverse,
        }
    }
}

pub open spec fn block_views(v: Seq<ConfigBlock>) -> Seq<BlockView> {
    v.map_values(|b: ConfigBlock| b@)
}

/// A block after the line `key value`. Unknown keys change nothing.
pub open spec fn with_setting(b: BlockView, key: Seq<char>, value: Seq<char>) -> BlockView {
    let t = b.threshold;
    let levels = MI_MAX_LEVELS as int;
    if key == "algo_type"@ {
        BlockView { algo_str: value, ..b }
    } else if key == "sensor"@ {
        BlockView { sensor_name: value, ..b }
    } else if key == "sensors"@ {
        BlockView { sensor_list: cut(words(value), MI_MAX_INPUTS_PER_VSN as int), ..b }
    } else if key == "weight"@ {
        BlockView { weights: int_array(value, MI_MAX_INPUTS_PER_VSN as int), ..b }
    } else if key == "weight_sum"@ {
        BlockView { weight_sum: int_or(value, 0i32), ..b }
    } else if key == "compensation"@ {
        BlockView { compensation: int_or(value, 0i32), ..b }
    } else if key == "device"@ {
        BlockView { devices: device_list(value, MI_MAX_DEVICES_PER_BLOCK as int), ..b }
    } else if key == "polling"@ {
        BlockView { polling: int_or(value, 1000i32), ..b }
    } else if key == "trig"@ {
        BlockView { threshold: ThresholdView { trig: int_array(value, levels), ..t }, ..b }
    } else if key == "clr"@ {
        BlockView { threshold: ThresholdView { clr: int_array(value, levels), ..t }, ..b }
    } else if key == "target"@ {
        BlockView {
            threshold: ThresholdView {
                target: cut(target_numbers(words(value)), MAX_TARGETS as int),
                ..t
            },
            ..b
        }
    } else if key == "ks"@ {
        BlockView { threshold: ThresholdView { ks: int_array(value, levels), ..t }, ..b }
    } else if key == "ki"@ {
        BlockView { threshold: ThresholdView { ki: int_array(value, levels), ..t }, ..b }
    } else if key == "kc"@ {
        BlockView { threshold: ThresholdView { kc: int_array(value, levels), ..t }, ..b }
    } else if key == "max"@ {
        BlockView { threshold: ThresholdView { max_out: int_array(value, levels), ..t }, ..b }
    } else if key == "min"@ {
        BlockView { threshold: ThresholdView { min_out: int_array(value, levels), ..t }, ..b }
    } else if key == "proportion"@ {
        BlockView { proportion: int_or(value, 0i32), ..b }
    } else if key == "reverse"@ {
        BlockView { reverse: int_or(value, 0i32), ..b }
    } else {
        b
    }
}

fn apply_setting(b: &mut ConfigBlock, key: &Vec<char>, value: &Vec<char>)
    ensures
        final(b)@ == with_setting(old(b)@, key@, value@),
{
    if spells(key, "algo_type") {
        b.algo_str = string_of(value);
    } else if spells(key, "sensor") {
        b.sensor_name = string_of(value);
    } else if spells(key, "sensors") {
        b.sensor_list = sensor_words(value);
    } else if spells(key, "weight") {
        b.weights = int_array_of(value, MI_MAX_INPUTS_PER_VSN);
    } else if spells(key, "weight_sum") {
        b.weight_sum = parse_int_or(value, 0);
    } else if spells(key, "compensation") {
        b.compensation = parse_int_or(value, 0);
    } else if spells(key, "device") {
        b.devices = device_list_of(value, MI_MAX_DEVICES_PER_BLOCK);
    } else if spells(key, "polling") {
        b.polling = parse_int_or(value, 1000);
    } else if spells(key, "trig") {
        b.threshold.trig = int_array_of(value, MI_MAX_LEVELS);
    } else if spells(key, "clr") {
        b.threshold.clr = int_array_of(value, MI_MAX_LEVELS);
    } else if spells(key, "target") {
        b.threshold.target = target_list_of(value);
    } else if spells(key, "ks") {
        b.threshold.ks = int_array_of(value, MI_MAX_LEVELS);
    } else if spells(key, "ki") {
        b.threshold.ki = int_array_of(value, MI_MAX_LEVELS);
    } else if spells(key, "kc") {
        b.threshold.kc = int_array_of(value, MI_MAX_LEVELS);
    } else if spells(key, "max") {
        b.threshold.max_out = int_array_of(value, MI_MAX_LEVELS);
    } else if spells(key, "min") {
        b.threshold.min_out = int_array_of(value, MI_MAX_LEVELS);
    } else if spells(key, "proportion") {
        b.proportion = parse_int_or(value, 0);
    } else if spells(key, "reverse") {
        b.reverse = parse_int_or(value, 0);
    }
}

// ---------------------------------------------------------------------------
// Lines
// ---------------------------------------------------------------------------

/// A line without its comment and the whitespace around it.
pub open spec fn strip_comment(line: Seq<char>) -> Seq<char> {
    let t = trim(line);
    trim(t.take(index_of(t, '#')))
}

/// The name in a `[name` or `[name]` header.
pub open spec fn header_name(l: Seq<char>) -> Seq<char> {
    l.subrange(1, index_of(l, ']'))
}

/// Does the stripped line open a block?
pub open spec fn is_header(l: Seq<char>) -> bool {
    l.len() > 0 && l[0] == '['
}

/// What has been read so far: the finished blocks and the one being read.
pub struct ParseState {
    pub done: Seq<BlockView>,
    pub current: Option<BlockView>,
}

/// The finished blocks, the current one among them.
pub open spec fn all_blocks(st: ParseState) -> Seq<BlockView> {
    match st.current {
        Some(b) => st.done.push(b),
        None => st.done,
    }
}

/// The effect of one stripped line. A header starts a new block; `key value`
/// inside a block sets a field; anything else changes nothing.
pub open spec fn after_stripped(st: ParseState, l: Seq<char>) -> ParseState {
    if is_header(l) {
        ParseState {
            done: all_blocks(st),
            current: Some(BlockView { block_name: header_name(l), ..empty_block() }),
        }
    } else {
        match st.current {
            Some(b) if l.len() > 0 && blank_at(l) < l.len() => ParseState {
                done: st.done,
                current: Some(
                    with_setting(b, trim(l.take(blank_at(l))), trim(l.skip(blank_at(l) + 1))),
                ),
            },
            _ => st,
        }
    }
}

/// The state after the given lines.
pub open spec fn after_lines(ls: Seq<Seq<char>>) -> ParseState
    decreases ls.len(),
{
    if ls.len() == 0 {
        ParseState { done: Seq::empty(), current: None }
    } else {
        after_stripped(after_lines(ls.drop_last()), strip_comment(ls.last()))
    }
}

/// The blocks of a configuration text.
pub open spec fn blocks_of(content: Seq<char>) -> Seq<BlockView> {
    all_blocks(after_lines(lines(content)))
}

fn stripped_line(line: &Vec<char>) -> (r: Vec<char>)
    ensures
        r@ == strip_comment(line@),
{
    let t = trimmed(line);
    let hash = find(&t, '#');
    let head = piece(&t, 0, hash);
    assert(t@.subrange(0, hash as int) =~= t@.take(hash as int));
    trimmed(&head)
}

/// The blocks of the configuration text, in order.
pub fn parse_config_blocks(content: &str) -> (r: Vec<ConfigBlock>)
    ensures
        block_views(r@) == blocks_of(content@),
{
    let text = chars_of(content);
    let ls = lines_of(&text);
    let ghost lv = views(ls@);
    let mut blocks: Vec<ConfigBlock> = Vec::new();
    let mut current: ConfigBlock = ConfigBlock::default();
    let mut in_block: bool = false;
    let mut i: usize = 0;
    assert(lv.take(0) =~= Seq::empty());
    assert(block_views(blocks@) =~= Seq::empty());
    while i < ls.len()
        invariant
            i <= ls.len(),
            lv == views(ls@),
            block_views(blocks@) == after_lines(lv.take(i as int)).done,
            after_lines(lv.take(i as int)).current == (if in_block {
                Some(current@)
            } else {
                None
            }),
        decreases ls.len() - i,
    {
        let ghost st = after_lines(lv.take(i as int));
        let line = stripped_line(&ls[i]);
        proof {
            assert(lv.take(i + 1).drop_last() =~= lv.take(i as int));
            assert(lv.take(i + 1).last() == ls@[i as int]@);
            lemma_index_of(line@, ']');
            lemma_blank_at(line@);
        }
        if line.len() > 0 && line[0] == '[' {
            let mut b = ConfigBlock::default();
            let end = find(&line, ']');
            b.block_name = string_of(&piece(&line, 1, end));
            if in_block {
                assert(block_views(blocks@.push(current)) =~= block_views(blocks@).push(current@));
                blocks.push(current);
            }
            current = b;
            in_block = true;
        } else if in_block && line.len() > 0 {
            let at = find_blank(&line);
            if at < line.len() {
                let key = trimmed(&piece(&line, 0, at));
                let value = trimmed(&piece(&line, at + 1, line.len()));
                proof {
                    assert(line@.subrange(0, at as int) =~= line@.take(at as int));
                    assert(line@.subrange(at + 1, line@.len() as int) =~= line@.skip(at + 1));
                }
                apply_setting(&mut current, &key, &value);
            }
        }
        i += 1;
    }
    assert(lv.take(ls@.len() as int) =~= lv);
    if in_block {
        assert(block_views(blocks@.push(current)) =~= block_views(blocks@).push(current@));
        blocks.push(current);
    }
    blocks
}

// ---------------------------------------------------------------------------
// Laws of the parser
// ---------------------------------------------------------------------------

/// The names of the header lines, in order.
pub open spec fn header_names(ls: Seq<Seq<char>>) -> Seq<Seq<char>>
    decreases ls.len(),
{
    if ls.len() == 0 {
        Seq::empty()
    } else {
        let l = strip_comment(ls.last());
        let before = header_names(ls.drop_last());
        if is_header(l) {
            before.push(header_name(l))
        } else {
            before
        }
    }
}

/// The names of blocks, in order.
pub open spec fn block_names(bs: Seq<BlockView>) -> Seq<Seq<char>> {
    bs.map_values(|b: BlockView| b.block_name)
}

proof fn lemma_block_names(ls: Seq<Seq<char>>)
    ensures
        block_names(all_blocks(after_lines(ls))) == header_names(ls),
    decreases ls.len(),
{
    if ls.len() == 0 {
        assert(block_names(all_blocks(after_lines(ls))) =~= Seq::empty());
    } else {
        lemma_block_names(ls.drop_last());
        let st = after_lines(ls.drop_last());
        let l = strip_comment(ls.last());
        let next = after_stripped(st, l);
        if is_header(l) {
            assert(block_names(all_blocks(next)) =~= block_names(all_blocks(st)).push(
                header_name(l),
            ));
        } else {
            assert(block_names(all_blocks(next)) =~= block_names(all_blocks(st)));
        }
    }
}

/// A configuration has one block per header line, in the order and under the
/// names of the headers.
pub proof fn law_blocks_follow_headers(content: Seq<char>)
    ensures
        block_names(blocks_of(content)) == header_names(lines(content)),
{
    lemma_block_names(lines(content));
}

/// A line that holds nothing but whitespace and a comment changes nothing.
pub proof fn law_blank_lines_are_ignored(before: Seq<Seq<char>>, line: Seq<char>)
    requires
        strip_comment(line).len() == 0,
    ensures
        after_lines(before.push(line)) == after_lines(before),
{
    assert(before.push(line).drop_last() =~= before);
}

/// The limits on the lists of a block.
pub open spec fn within_limits(b: BlockView) -> bool {
    &&& b.sensor_list.len() <= MI_MAX_INPUTS_PER_VSN
    &&& b.weights.len() <= MI_MAX_INPUTS_PER_VSN
    &&& b.devices.len() <= MI_MAX_DEVICES_PER_BLOCK
    &&& b.threshold.trig.len() <= MI_MAX_LEVELS
    &&& b.threshold.clr.len() <= MI_MAX_LEVELS
    &&& b.threshold.target.len() <= MI_MAX_LEVELS * MI_MAX_DEVICES_PER_BLOCK
    &&& b.threshold.ks.len() <= MI_MAX_LEVELS
    &&& b.threshold.ki.len() <= MI_MAX_LEVELS
    &&& b.threshold.kc.len() <= MI_MAX_LEVELS
    &&& b.threshold.max_out.len() <= MI_MAX_LEVELS
    &&& b.threshold.min_out.len() <= MI_MAX_LEVELS
}

proof fn lemma_blocks_within_limits(ls: Seq<Seq<char>>)
    ensures
        forall|i: int|
            0 <= i < all_blocks(after_lines(ls)).len() ==> within_limits(
                #[trigger] all_blocks(after_lines(ls))[i],
            ),
    decreases ls.len(),
{
    if ls.len() > 0 {
        lemma_blocks_within_limits(ls.drop_last());
        let st = after_lines(ls.drop_last());
        let l = strip_comment(ls.last());
        let next = after_stripped(st, l);
        let old_all = all_blocks(st);
        let new_all = all_blocks(next);
        assert forall|i: int| 0 <= i < new_all.len() implies within_limits(#[trigger] new_all[i]) by {
            if is_header(l) {
                if i < old_all.len() {
                    assert(new_all[i] == old_all[i]);
                }
            } else {
                assert(within_limits(old_all[i]));
                if st.current is Some {
                    assert(old_all.last() == st.current->Some_0);
                    if i < st.done.len() {
                        assert(new_all[i] == old_all[i]);
                    }
                }
            }
        }
    }
}

/// No list of a parsed block is longer than its limit.
pub proof fn law_blocks_are_within_limits(content: Seq<char>, i: int)
    requires
        0 <= i < blocks_of(content).len(),
    ensures
        within_limits(blocks_of(content)[i]),
{
    lemma_blocks_within_limits(lines(content));
}

// ---------------------------------------------------------------------------
// The scenario map
// ---------------------------------------------------------------------------

/// The number and file name of a `[number:file]` line of the scenario map. A
/// number that cannot be read counts as -1.
pub open spec fn map_entry(line: Seq<char>) -> Option<(i32, Seq<char>)> {
    if line.len() > 0 && line[0] == '[' && index_of(line, ']') < line.len() {
        let inner = line.subrange(1, index_of(line, ']'));
        let colon = index_of(inner, ':');
        if colon < inner.len() {
            Some((int_or(inner.take(colon), -1i32), inner.skip(colon + 1)))
        } else {
            None
        }
    } else {
        None
    }
}

/// The file of the first entry with number `idx`, or the default scenario.
pub open spec fn scenario_in(ls: Seq<Seq<char>>, idx: i32) -> Seq<char>
    decreases ls.len(),
{
    if ls.len() == 0 {
        "thermal-normal.conf"@
    } else {
        match map_entry(ls[0]) {
            Some(e) if e.0 == idx => e.1,
            _ => scenario_in(ls.drop_first(), idx),
        }
    }
}

/// The scenario file that the map gives for `idx`.
pub open spec fn scenario_name(map: Seq<char>, idx: i32) -> Seq<char> {
    scenario_in(lines(map), idx)
}

pub fn find_scenario_name(map_content: &str, idx: i32) -> (r: String)
    ensures
        r@ == scenario_name(map_content@, idx),
{
    let text = chars_of(map_content);
    let ls = lines_of(&text);
    let ghost lv = views(ls@);
    let mut i: usize = 0;
    assert(lv.skip(0) =~= lv);
    while i < ls.len()
        invariant
            i <= ls.len(),
            lv == views(ls@),
            lv == lines(map_content@),
            scenario_in(lv, idx) == scenario_in(lv.skip(i as int), idx),
        decreases ls.len() - i,
    {
        let line = &ls[i];
        proof {
            assert(lv.skip(i as int)[0] == ls@[i as int]@);
            assert(lv.skip(i as int).drop_first() =~= lv.skip(i + 1));
            lemma_index_of(line@, ']');
        }
        if line.len() > 0 && line[0] == '[' {
            let end = find(line, ']');
            if end < line.len() {
                let inner = piece(line, 1, end);
                let colon = find(&inner, ':');
                if colon < inner.len() {
                    let number = piece(&inner, 0, colon);
                    assert(inner@.subrange(0, colon as int) =~= inner@.take(colon as int));
                    if parse_int_or(&number, -1) == idx {
                        assert(inner@.subrange(colon + 1, inner@.len() as int) =~= inner@.skip(
                            colon + 1,
                        ));
                        return string_of(&piece(&inner, colon + 1, inner.len()));
                    }
                }
            }
        }
        i += 1;
    }
    assert(lv.skip(i as int).len() == 0);
    "thermal-normal.conf".to_string()
}

// ---------------------------------------------------------------------------
// Laws of single lines
// ---------------------------------------------------------------------------

/// Is there no `#` in a text?
pub open spec fn uncommented(s: Seq<char>) -> bool {
    forall|i: int| 0 <= i < s.len() ==> s[i] != '#'
}

proof fn lemma_trim_back_keeps(s: Seq<char>, b: Seq<char>)
    requires
        s.len() > 0,
        !is_ws(s.last()),
    ensures
        trim_back(s + b) == s + trim_back(b),
    decreases b.len(),
{
    if b.len() == 0 {
        assert(s + b =~= s);
        assert(s + trim_back(b) =~= s);
    } else {
        assert((s + b).last() == b.last());
        if is_ws(b.last()) {
            assert((s + b).drop_last() =~= s + b.drop_last());
            lemma_trim_back_keeps(s, b.drop_last());
        }
    }
}

/// The text of a line is what is left without the whitespace around it and without
/// the comment behind it.
pub proof fn law_lines_are_stripped(
    front: Seq<char>,
    core: Seq<char>,
    back: Seq<char>,
    comment: Seq<char>,
)
    requires
        all_ws(front),
        all_ws(back),
        is_trim(core),
        core.len() > 0,
        uncommented(core),
    ensures
        strip_comment(front + core + back) == core,
        strip_comment((front + core + back).push('#') + comment) == core,
{
    law_trim_takes_the_ends_off(front, core, back);
    lemma_index_of(core, '#');
    assert(core.take(core.len() as int) =~= core);
    let none = Seq::<char>::empty();
    law_trim_takes_the_ends_off(none, core, none);
    assert(none + core + none =~= core);
    let line = (front + core + back).push('#') + comment;
    let head = (core + back).push('#');
    assert(line =~= front + (head + comment));
    assert(!is_ws('#'));
    assert(trim_front(front + (head + comment)) == head + comment) by {
        lemma_trim_front_keeps(front, head + comment);
    }
    lemma_trim_back_keeps(head, comment);
    let t = head + trim_back(comment);
    assert(trim(line) == t);
    lemma_index_of(t, '#');
    let n = (core + back).len() as int;
    assert(t[n] == '#');
    assert forall|i: int| 0 <= i < n implies t[i] != '#' by {
        if i < core.len() {
            assert(t[i] == core[i]);
        } else {
            assert(t[i] == back[i - core.len()]);
            assert(is_ws(back[i - core.len()]));
        }
    }
    assert(index_of(t, '#') == n);
    assert(t.take(n) =~= none + core + back);
    law_trim_takes_the_ends_off(none, core, back);
}

proof fn lemma_trim_front_keeps(a: Seq<char>, s: Seq<char>)
    requires
        all_ws(a),
        s.len() > 0,
        !is_ws(s[0]),
    ensures
        trim_front(a + s) == s,
    decreases a.len(),
{
    if a.len() == 0 {
        assert(a + s =~= s);
    } else {
        assert((a + s)[0] == a[0]);
        assert((a + s).drop_first() =~= a.drop_first() + s);
        lemma_trim_front_keeps(a.drop_first(), s);
    }
}

proof fn lemma_blank_of_word(w: Seq<char>, sep: char, rest: Seq<char>)
    requires
        forall|i: int| 0 <= i < w.len() ==> !is_ws(#[trigger] w[i]),
        sep == ' ' || sep == '\t',
    ensures
        blank_at(w.push(sep) + rest) == w.len(),
    decreases w.len(),
{
    let s = w.push(sep) + rest;
    if w.len() == 0 {
        assert(s[0] == sep);
    } else {
        assert(s[0] == w[0]);
        assert(!is_ws(w[0]));
        assert(is_ws(' ') && is_ws('\t'));
        assert(s.drop_first() =~= w.drop_first().push(sep) + rest);
        lemma_blank_of_word(w.drop_first(), sep, rest);
    }
}

/// A line inside a block is a key and its value with a space or tab, and any further
/// whitespace, between them. It changes the block that is being read, and no other.
pub proof fn law_line_is_key_and_value(
    before: Seq<Seq<char>>,
    line: Seq<char>,
    key: Seq<char>,
    sep: char,
    pad: Seq<char>,
    value: Seq<char>,
)
    requires
        after_lines(before).current is Some,
        strip_comment(line) == key.push(sep) + pad + value,
        is_word(key),
        key[0] != '[',
        sep == ' ' || sep == '\t',
        all_ws(pad),
        is_trim(value),
    ensures
        after_lines(before.push(line)) == (ParseState {
            done: after_lines(before).done,
            current: Some(with_setting(after_lines(before).current->Some_0, key, value)),
        }),
{
    assert(before.push(line).drop_last() =~= before);
    let l = strip_comment(line);
    assert(l =~= key.push(sep) + (pad + value));
    lemma_blank_of_word(key, sep, pad + value);
    let n = key.len() as int;
    assert(l[0] == key[0]);
    assert(l.take(n) =~= key);
    assert(l.skip(n + 1) =~= pad + value);
    let none = Seq::<char>::empty();
    law_trim_takes_the_ends_off(none, key, none);
    assert(none + key + none =~= key);
    law_trim_takes_the_ends_off(pad, value, none);
    assert(pad + value + none =~= pad + value);
}

/// Each key sets the field of its name to what the value says, and no other field.
/// An unknown key sets nothing.
pub proof fn law_each_key_sets_its_field(b: BlockView, value: Seq<char>, key: Seq<char>)
    ensures
        with_setting(b, "algo_type"@, value).algo_str == value,
        (BlockView { algo_str: b.algo_str, ..with_setting(b, "algo_type"@, value) }) == b,
        with_setting(b, "sensor"@, value).sensor_name == value,
        (BlockView { sensor_name: b.sensor_name, ..with_setting(b, "sensor"@, value) }) == b,
        with_setting(b, "sensors"@, value).sensor_list == cut(words(value), 8),
        (BlockView { sensor_list: b.sensor_list, ..with_setting(b, "sensors"@, value) }) == b,
        with_setting(b, "weight"@, value).weights == int_array(value, 8),
        (BlockView { weights: b.weights, ..with_setting(b, "weight"@, value) }) == b,
        with_setting(b, "weight_sum"@, value).weight_sum == int_or(value, 0i32),
        (BlockView { weight_sum: b.weight_sum, ..with_setting(b, "weight_sum"@, value) }) == b,
        with_setting(b, "compensation"@, value).compensation == int_or(value, 0i32),
        (BlockView { compensation: b.compensation, ..with_setting(b, "compensation"@, value) }) == b,
        with_setting(b, "device"@, value).devices == device_list(value, 16),
        (BlockView { devices: b.devices, ..with_setting(b, "device"@, value) }) == b,
        with_setting(b, "polling"@, value).polling == int_or(value, 1000i32),
        (BlockView { polling: b.polling, ..with_setting(b, "polling"@, value) }) == b,
        with_setting(b, "trig"@, value).threshold.trig == int_array(value, 16),
        (BlockView {
            threshold: ThresholdView {
                trig: b.threshold.trig,
                ..with_setting(b, "trig"@, value).threshold
            },
            ..with_setting(b, "trig"@, value)
        }) == b,
        with_setting(b, "clr"@, value).threshold.clr == int_array(value, 16),
        (BlockView {
            threshold: ThresholdView {
                clr: b.threshold.clr,
                ..with_setting(b, "clr"@, value).threshold
            },
            ..with_setting(b, "clr"@, value)
        }) == b,
        with_setting(b, "target"@, value).threshold.target == cut(target_numbers(words(value)), 256),
        (BlockView {
            threshold: ThresholdView {
                target: b.threshold.target,
                ..with_setting(b, "target"@, value).threshold
            },
            ..with_setting(b, "target"@, value)
        }) == b,
        with_setting(b, "ks"@, value).threshold.ks == int_array(value, 16),
        (BlockView {
            threshold: ThresholdView {
                ks: b.threshold.ks,
                ..with_setting(b, "ks"@, value).threshold
            },
            ..with_setting(b, "ks"@, value)
        }) == b,
        with_setting(b, "ki"@, value).threshold.ki == int_array(value, 16),
        (BlockView {
            threshold: ThresholdView {
                ki: b.threshold.ki,
                ..with_setting(b, "ki"@, value).threshold
            },
            ..with_setting(b, "ki"@, value)
        }) == b,
        with_setting(b, "kc"@, value).threshold.kc == int_array(value, 16),
        (BlockView {
            threshold: ThresholdView {
                kc: b.threshold.kc,
                ..with_setting(b, "kc"@, value).threshold
            },
            ..with_setting(b, "kc"@, value)
        }) == b,
        with_setting(b, "max"@, value).threshold.max_out == int_array(value, 16),
        (BlockView {
            threshold: ThresholdView {
                max_out: b.threshold.max_out,
                ..with_setting(b, "max"@, value).threshold
            },
            ..with_setting(b, "max"@, value)
        }) == b,
        with_setting(b, "min"@, value).threshold.min_out == int_array(value, 16),
        (BlockView {
            threshold: ThresholdView {
                min_out: b.threshold.min_out,
                ..with_setting(b, "min"@, value).threshold
            },
            ..with_setting(b, "min"@, value)
        }) == b,
        with_setting(b, "proportion"@, value).proportion == int_or(value, 0i32),
        (BlockView { proportion: b.proportion, ..with_setting(b, "proportion"@, value) }) == b,
        with_setting(b, "reverse"@, value).reverse == int_or(value, 0i32),
        (BlockView { reverse: b.reverse, ..with_setting(b, "reverse"@, value) }) == b,
        !known_key(key) ==> with_setting(b, key, value) == b,
{
    lemma_keys_differ();
}

/// The keys that a configuration may set.
pub open spec fn known_key(key: Seq<char>) -> bool {
    ||| key == "algo_type"@
    ||| key == "sensor"@
    ||| key == "sensors"@
    ||| key == "weight"@
    ||| key == "weight_sum"@
    ||| key == "compensation"@
    ||| key == "device"@
    ||| key == "polling"@
    ||| key == "trig"@
    ||| key == "clr"@
    ||| key == "target"@
    ||| key == "ks"@
    ||| key == "ki"@
    ||| key == "kc"@
    ||| key == "max"@
    ||| key == "min"@
    ||| key == "proportion"@
    ||| key == "reverse"@
}

proof fn lemma_keys_differ()
    ensures
        "sensor"@ != "algo_type"@,
        "sensors"@ != "algo_type"@,
        "sensors"@ != "sensor"@,
        "weight"@ != "algo_type"@,
        "weight"@ != "sensor"@,
        "weight"@ != "sensors"@,
        "weight_sum"@ != "algo_type"@,
        "weight_sum"@ != "sensor"@,
        "weight_sum"@ != "sensors"@,
        "weight_sum"@ != "weight"@,
        "compensation"@ != "algo_type"@,
        "compensation"@ != "sensor"@,
        "compensation"@ != "sensors"@,
        "compensation"@ != "weight"@,
        "compensation"@ != "weight_sum"@,
        "device"@ != "algo_type"@,
        "device"@ != "sensor"@,
        "device"@ != "sensors"@,
        "device"@ != "weight"@,
        "device"@ != "weight_sum"@,
        "device"@ != "compensation"@,
        "polling"@ != "algo_type"@,
        "polling"@ != "sensor"@,
        "polling"@ != "sensors"@,
        "polling"@ != "weight"@,
        "polling"@ != "weight_sum"@,
        "polling"@ != "compensation"@,
        "polling"@ != "device"@,
        "trig"@ != "algo_type"@,
        "trig"@ != "sensor"@,
        "trig"@ != "sensors"@,
        "trig"@ != "weight"@,
        "trig"@ != "weight_sum"@,
        "trig"@ != "compensation"@,
        "trig"@ != "device"@,
        "trig"@ != "polling"@,
        "clr"@ != "algo_type"@,
        "clr"@ != "sensor"@,
        "clr"@ != "sensors"@,
        "clr"@ != "weight"@,
        "clr"@ != "weight_sum"@,
        "clr"@ != "compensation"@,
        "clr"@ != "device"@,
        "clr"@ != "polling"@,
        "clr"@ != "trig"@,
        "target"@ != "algo_type"@,
        "target"@ != "sensor"@,
        "target"@ != "sensors"@,
        "target"@ != "weight"@,
        "target"@ != "weight_sum"@,
        "target"@ != "compensation"@,
        "target"@ != "device"@,
        "target"@ != "polling"@,
        "target"@ != "trig"@,
        "target"@ != "clr"@,
        "ks"@ != "algo_type"@,
        "ks"@ != "sensor"@,
        "ks"@ != "sensors"@,
        "ks"@ != "weight"@,
        "ks"@ != "weight_sum"@,
        "ks"@ != "compensation"@,
        "ks"@ != "device"@,
        "ks"@ != "polling"@,
        "ks"@ != "trig"@,
        "ks"@ != "clr"@,
        "ks"@ != "target"@,
        "ki"@ != "algo_type"@,
        "ki"@ != "sensor"@,
        "ki"@ != "sensors"@,
        "ki"@ != "weight"@,
        "ki"@ != "weight_sum"@,
        "ki"@ != "compensation"@,
        "ki"@ != "device"@,
        "ki"@ != "polling"@,
        "ki"@ != "trig"@,
        "ki"@ != "clr"@,
        "ki"@ != "target"@,
        "ki"@ != "ks"@,
        "kc"@ != "algo_type"@,
        "kc"@ != "sensor"@,
        "kc"@ != "sensors"@,
        "kc"@ != "weight"@,
        "kc"@ != "weight_sum"@,
        "kc"@ != "compensation"@,
        "kc"@ != "device"@,
        "kc"@ != "polling"@,
        "kc"@ != "trig"@,
        "kc"@ != "clr"@,
        "kc"@ != "target"@,
        "kc"@ != "ks"@,
        "kc"@ != "ki"@,
        "max"@ != "algo_type"@,
        "max"@ != "sensor"@,
        "max"@ != "sensors"@,
        "max"@ != "weight"@,
        "max"@ != "weight_sum"@,
        "max"@ != "compensation"@,
        "max"@ != "device"@,
        "max"@ != "polling"@,
        "max"@ != "trig"@,
        "max"@ != "clr"@,
        "max"@ != "target"@,
        "max"@ != "ks"@,
        "max"@ != "ki"@,
        "max"@ != "kc"@,
        "min"@ != "algo_type"@,
        "min"@ != "sensor"@,
        "min"@ != "sensors"@,
        "min"@ != "weight"@,
        "min"@ != "weight_sum"@,
        "min"@ != "compensation"@,
        "min"@ != "device"@,
        "min"@ != "polling"@,
        "min"@ != "trig"@,
        "min"@ != "clr"@,
        "min"@ != "target"@,
        "min"@ != "ks"@,
        "min"@ != "ki"@,
        "min"@ != "kc"@,
        "min"@ != "max"@,
        "proportion"@ != "algo_type"@,
        "proportion"@ != "sensor"@,
        "proportion"@ != "sensors"@,
        "proportion"@ != "weight"@,
        "proportion"@ != "weight_sum"@,
        "proportion"@ != "compensation"@,
        "proportion"@ != "device"@,
        "proportion"@ != "polling"@,
        "proportion"@ != "trig"@,
        "proportion"@ != "clr"@,
        "proportion"@ != "target"@,
        "proportion"@ != "ks"@,
        "proportion"@ != "ki"@,
        "proportion"@ != "kc"@,
        "proportion"@ != "max"@,
        "proportion"@ != "min"@,
        "reverse"@ != "algo_type"@,
        "reverse"@ != "sensor"@,
        "reverse"@ != "sensors"@,
        "reverse"@ != "weight"@,
        "reverse"@ != "weight_sum"@,
        "reverse"@ != "compensation"@,
        "reverse"@ != "device"@,
        "reverse"@ != "polling"@,
        "reverse"@ != "trig"@,
        "reverse"@ != "clr"@,
        "reverse"@ != "target"@,
        "reverse"@ != "ks"@,
        "reverse"@ != "ki"@,
        "reverse"@ != "kc"@,
        "reverse"@ != "max"@,
        "reverse"@ != "min"@,
        "reverse"@ != "proportion"@,
{
    reveal_strlit("algo_type");
    reveal_strlit("sensor");
    reveal_strlit("sensors");
    reveal_strlit("weight");
    reveal_strlit("weight_sum");
    reveal_strlit("compensation");
    reveal_strlit("device");
    reveal_strlit("polling");
    reveal_strlit("trig");
    reveal_strlit("clr");
    reveal_strlit("target");
    reveal_strlit("ks");
    reveal_strlit("ki");
    reveal_strlit("kc");
    reveal_strlit("max");
    reveal_strlit("min");
    reveal_strlit("proportion");
    reveal_strlit("reverse");
    assert("algo_type"@.len() == 9 && "algo_type"@[0] == 'a');
    assert("sensor"@.len() == 6 && "sensor"@[0] == 's');
    assert("sensors"@.len() == 7 && "sensors"@[0] == 's');
    assert("weight"@.len() == 6 && "weight"@[0] == 'w');
    assert("weight_sum"@.len() == 10 && "weight_sum"@[0] == 'w');
    assert("compensation"@.len() == 12);
    assert("device"@.len() == 6 && "device"@[0] == 'd');
    assert("polling"@.len() == 7 && "polling"@[0] == 'p');
    assert("trig"@.len() == 4);
    assert("clr"@.len() == 3 && "clr"@[0] == 'c');
    assert("target"@.len() == 6 && "target"@[0] == 't');
    assert("ks"@.len() == 2 && "ks"@[1] == 's');
    assert("ki"@.len() == 2 && "ki"@[1] == 'i');
    assert("kc"@.len() == 2 && "kc"@[1] == 'c');
    assert("max"@.len() == 3 && "max"@[0] == 'm' && "max"@[1] == 'a');
    assert("min"@.len() == 3 && "min"@[0] == 'm' && "min"@[1] == 'i');
    assert("proportion"@.len() == 10 && "proportion"@[0] == 'p');
    assert("reverse"@.len() == 7 && "reverse"@[0] == 'r');
}

/// Does a block hold what a line with this key and value says, in the field of the
/// same name?
pub open spec fn holds_setting(b: BlockView, key: Seq<char>, value: Seq<char>) -> bool {
    &&& key == "algo_type"@ ==> b.algo_str == value
    &&& key == "sensor"@ ==> b.sensor_name == value
    &&& key == "sensors"@ ==> b.sensor_list == cut(words(value), 8)
    &&& key == "weight"@ ==> b.weights == int_array(value, 8)
    &&& key == "weight_sum"@ ==> b.weight_sum == int_or(value, 0i32)
    &&& key == "compensation"@ ==> b.compensation == int_or(value, 0i32)
    &&& key == "device"@ ==> b.devices == device_list(value, 16)
    &&& key == "polling"@ ==> b.polling == int_or(value, 1000i32)
    &&& key == "trig"@ ==> b.threshold.trig == int_array(value, 16)
    &&& key == "clr"@ ==> b.threshold.clr == int_array(value, 16)
    &&& key == "target"@ ==> b.threshold.target == cut(target_numbers(words(value)), 256)
    &&& key == "ks"@ ==> b.threshold.ks == int_array(value, 16)
    &&& key == "ki"@ ==> b.threshold.ki == int_array(value, 16)
    &&& key == "kc"@ ==> b.threshold.kc == int_array(value, 16)
    &&& key == "max"@ ==> b.threshold.max_out == int_array(value, 16)
    &&& key == "min"@ ==> b.threshold.min_out == int_array(value, 16)
    &&& key == "proportion"@ ==> b.proportion == int_or(value, 0i32)
    &&& key == "reverse"@ ==> b.reverse == int_or(value, 0i32)
}

/// Does the text of a line carry a key: the key, and behind it a space or tab?
pub open spec fn carries_key(l: Seq<char>, key: Seq<char>) -> bool {
    exists|pad: Seq<char>, sep: char, tail: Seq<char>|
        all_ws(pad) && (sep == ' ' || sep == '\t') && l == #[trigger] ((key + pad).push(sep) + tail)
}

proof fn lemma_trim_back_rest(s: Seq<char>)
    ensures
        trim_back(s).len() <= s.len(),
        s.take(trim_back(s).len() as int) == trim_back(s),
        all_ws(s.skip(trim_back(s).len() as int)),
        is_trim(s) || (s.len() > 0 && !is_ws(s[0])) ==> is_trim(trim_back(s)),
    decreases s.len(),
{
    if s.len() > 0 && is_ws(s.last()) {
        let t = s.drop_last();
        lemma_trim_back_rest(t);
        let n = trim_back(s).len() as int;
        assert(s.take(n) =~= t.take(n));
        assert forall|i: int| 0 <= i < s.skip(n).len() implies is_ws(#[trigger] s.skip(n)[i]) by {
            if i < t.skip(n).len() {
                assert(s.skip(n)[i] == t.skip(n)[i]);
            } else {
                assert(s.skip(n)[i] == s.last());
            }
        }
    } else {
        assert(s.take(s.len() as int) =~= s);
    }
}

proof fn lemma_trimmed_text(s: Seq<char>)
    ensures
        is_trim(trim(s)),
{
    lemma_trim_front_len(s);
    lemma_trim_back_rest(trim_front(s));
}

/// A line that does not carry a key leaves what the key has set.
proof fn lemma_other_line(st: ParseState, line: Seq<char>, key: Seq<char>, value: Seq<char>)
    requires
        st.current is Some,
        holds_setting(st.current->Some_0, key, value),
        !is_header(strip_comment(line)),
        !carries_key(strip_comment(line), key),
    ensures
        after_stripped(st, strip_comment(line)).done == st.done,
        after_stripped(st, strip_comment(line)).current is Some,
        after_stripped(st, strip_comment(line)).current->Some_0.block_name
            == st.current->Some_0.block_name,
        holds_setting(after_stripped(st, strip_comment(line)).current->Some_0, key, value),
{
    let l = strip_comment(line);
    let tr = trim(line);
    lemma_trimmed_text(tr.take(index_of(tr, '#')));
    lemma_blank_at(l);
    let n = blank_at(l);
    if l.len() > 0 && n < l.len() {
        lemma_blank_is_blank(l);
        let x = l.take(n);
        assert(n > 0) by {
            assert(is_ws(' ') && is_ws('\t'));
        }
        assert(x[0] == l[0]);
        assert(trim_front(x) == x);
        lemma_trim_back_rest(x);
        let k = trim(x);
        if k == key {
            let pad = x.skip(k.len() as int);
            assert(l =~= (key + pad).push(l[n]) + l.skip(n + 1));
        }
        assert(k != key);
        lemma_keys_differ();
        lemma_other_key(st.current->Some_0, k, trim(l.skip(n + 1)), key, value);
    }
}

proof fn lemma_blank_is_blank(s: Seq<char>)
    requires
        blank_at(s) < s.len(),
    ensures
        s[blank_at(s)] == ' ' || s[blank_at(s)] == '\t',
        blank_at(s) >= 0,
    decreases s.len(),
{
    if s.len() != 0 && s[0] != ' ' && s[0] != '\t' {
        lemma_blank_is_blank(s.drop_first());
    }
}

proof fn lemma_other_key(
    b: BlockView,
    other: Seq<char>,
    text: Seq<char>,
    key: Seq<char>,
    value: Seq<char>,
)
    requires
        other != key,
        holds_setting(b, key, value),
    ensures
        holds_setting(with_setting(b, other, text), key, value),
        with_setting(b, other, text).block_name == b.block_name,
{
}

proof fn lemma_other_lines(
    head: Seq<Seq<char>>,
    rest: Seq<Seq<char>>,
    key: Seq<char>,
    value: Seq<char>,
)
    requires
        after_lines(head).current is Some,
        holds_setting(after_lines(head).current->Some_0, key, value),
        forall|i: int|
            0 <= i < rest.len() ==> !is_header(strip_comment(#[trigger] rest[i])) && !carries_key(
                strip_comment(rest[i]),
                key,
            ),
    ensures
        after_lines(head + rest).done == after_lines(head).done,
        after_lines(head + rest).current is Some,
        after_lines(head + rest).current->Some_0.block_name
            == after_lines(head).current->Some_0.block_name,
        holds_setting(after_lines(head + rest).current->Some_0, key, value),
    decreases rest.len(),
{
    if rest.len() == 0 {
        assert(head + rest =~= head);
    } else {
        let part = rest.drop_last();
        assert forall|i: int| 0 <= i < part.len() implies !is_header(
            strip_comment(#[trigger] part[i]),
        ) && !carries_key(strip_comment(part[i]), key) by {
            assert(part[i] == rest[i]);
        }
        lemma_other_lines(head, part, key, value);
        assert((head + rest).drop_last() =~= head + part);
        assert((head + rest).last() == rest.last());
        assert(rest.last() == rest[rest.len() - 1]);
        lemma_other_line(after_lines(head + part), rest.last(), key, value);
    }
}

/// The last line with a key decides: where a block holds the line `key value` and no
/// later line of the block carries the key, the field of that name holds the value.
/// What else stands in the block, before or behind the line, makes no difference.
pub proof fn law_last_line_with_a_key_decides(
    before: Seq<Seq<char>>,
    line: Seq<char>,
    rest: Seq<Seq<char>>,
    key: Seq<char>,
    sep: char,
    pad: Seq<char>,
    value: Seq<char>,
)
    requires
        after_lines(before).current is Some,
        known_key(key),
        strip_comment(line) == key.push(sep) + pad + value,
        sep == ' ' || sep == '\t',
        all_ws(pad),
        is_trim(value),
        forall|i: int|
            0 <= i < rest.len() ==> !is_header(strip_comment(#[trigger] rest[i])) && !carries_key(
                strip_comment(rest[i]),
                key,
            ),
    ensures
        after_lines(before.push(line) + rest).current is Some,
        after_lines(before.push(line) + rest).current->Some_0.block_name == after_lines(
            before,
        ).current->Some_0.block_name,
        holds_setting(after_lines(before.push(line) + rest).current->Some_0, key, value),
{
    lemma_known_keys_are_words(key);
    law_line_is_key_and_value(before, line, key, sep, pad, value);
    law_each_key_sets_its_field(after_lines(before).current->Some_0, value, key);
    lemma_keys_differ();
    lemma_other_lines(before.push(line), rest, key, value);
}

proof fn lemma_known_keys_are_words(key: Seq<char>)
    requires
        known_key(key),
    ensures
        is_word(key),
        key[0] != '[',
{
    reveal_strlit("algo_type");
    reveal_strlit("sensor");
    reveal_strlit("sensors");
    reveal_strlit("weight");
    reveal_strlit("weight_sum");
    reveal_strlit("compensation");
    reveal_strlit("device");
    reveal_strlit("polling");
    reveal_strlit("trig");
    reveal_strlit("clr");
    reveal_strlit("target");
    reveal_strlit("ks");
    reveal_strlit("ki");
    reveal_strlit("kc");
    reveal_strlit("max");
    reveal_strlit("min");
    reveal_strlit("proportion");
    reveal_strlit("reverse");
    law_whitespace();
}

/// A header opens a block of that name in which nothing is set yet, and closes the
/// block before it.
pub proof fn law_header_opens_a_block(
    before: Seq<Seq<char>>,
    line: Seq<char>,
    name: Seq<char>,
    tail: Seq<char>,
)
    requires
        strip_comment(line) == (seq!['['] + name).push(']') + tail,
        forall|i: int| 0 <= i < name.len() ==> name[i] != ']',
    ensures
        after_lines(before.push(line)).done == all_blocks(after_lines(before)),
        after_lines(before.push(line)).current is Some,
        ({
            let b = after_lines(before.push(line)).current->Some_0;
            &&& b.block_name == name
            &&& b.algo_str.len() == 0
            &&& b.sensor_name.len() == 0
            &&& b.sensor_list.len() == 0
            &&& b.devices.len() == 0
            &&& b.polling == 1000
            &&& b.weight_sum == 0
            &&& b.compensation == 0
            &&& b.weights.len() == 0
            &&& b.proportion == 0
            &&& b.reverse == 0
            &&& b.threshold.trig.len() == 0
            &&& b.threshold.clr.len() == 0
            &&& b.threshold.target.len() == 0
            &&& b.threshold.ks.len() == 0
            &&& b.threshold.ki.len() == 0
            &&& b.threshold.kc.len() == 0
            &&& b.threshold.max_out.len() == 0
            &&& b.threshold.min_out.len() == 0
        }),
{
    assert(before.push(line).drop_last() =~= before);
    let l = strip_comment(line);
    let n = name.len() as int;
    lemma_index_of(l, ']');
    assert(l[0] == '[');
    assert(l[n + 1] == ']');
    assert forall|i: int| 0 <= i < n + 1 implies l[i] != ']' by {
        if i > 0 {
            assert(l[i] == name[i - 1]);
        }
    }
    assert(index_of(l, ']') == n + 1);
    assert(l.subrange(1, n + 1) =~= name);
}

/// Blocks that a later header has closed stay as they are, whatever follows.
pub proof fn law_closed_blocks_stay(before: Seq<Seq<char>>, rest: Seq<Seq<char>>, i: int)
    requires
        0 <= i < after_lines(before).done.len(),
    ensures
        i < all_blocks(after_lines(before + rest)).len(),
        i < after_lines(before + rest).done.len(),
        all_blocks(after_lines(before + rest))[i] == after_lines(before).done[i],
        after_lines(before + rest).done[i] == after_lines(before).done[i],
    decreases rest.len(),
{
    if rest.len() == 0 {
        assert(before + rest =~= before);
    } else {
        law_closed_blocks_stay(before, rest.drop_last(), i);
        assert((before + rest).drop_last() =~= before + rest.drop_last());
    }
}

/// Lines before the first header set nothing.
pub proof fn law_no_block_without_a_header(ls: Seq<Seq<char>>)
    requires
        forall|i: int| 0 <= i < ls.len() ==> !is_header(strip_comment(#[trigger] ls[i])),
    ensures
        all_blocks(after_lines(ls)).len() == 0,
        after_lines(ls).current is None,
    decreases ls.len(),
{
    if ls.len() > 0 {
        let part = ls.drop_last();
        assert forall|i: int| 0 <= i < part.len() implies !is_header(
            strip_comment(#[trigger] part[i]),
        ) by {
            assert(part[i] == ls[i]);
        }
        law_no_block_without_a_header(part);
        assert(ls.last() == ls[ls.len() - 1]);
    }
}

// ---------------------------------------------------------------------------
// Laws of lists
// ---------------------------------------------------------------------------

proof fn lemma_numbers_concat(a: Seq<Seq<char>>, b: Seq<Seq<char>>)
    ensures
        numbers(a + b) == numbers(a) + numbers(b),
    decreases b.len(),
{
    if b.len() == 0 {
        assert(a + b =~= a);
        assert(numbers(a) + numbers(b) =~= numbers(a));
    } else {
        assert((a + b).drop_last() =~= a + b.drop_last());
        assert((a + b).last() == b.last());
        lemma_numbers_concat(a, b.drop_last());
        assert(numbers(a + b) =~= numbers(a) + numbers(b));
    }
}

/// The numbers of a list stand in it from left to right, whitespace between them, up
/// to the limit.
pub proof fn law_number_lists_concatenate(a: Seq<char>, c: char, b: Seq<char>, max: int)
    requires
        is_ws(c),
        max >= 0,
    ensures
        int_array(a.push(c) + b, max) == cut(int_array(a, max) + int_array(b, max), max),
{
    law_whitespace_parts_words(a, c, b);
    lemma_numbers_concat(words(a), words(b));
    lemma_cut_concat(numbers(words(a)), numbers(words(b)), max);
}

proof fn lemma_cut_concat<T>(a: Seq<T>, b: Seq<T>, max: int)
    requires
        max >= 0,
    ensures
        cut(a + b, max) == cut(cut(a, max) + cut(b, max), max),
{
    assert(cut(a + b, max) =~= cut(cut(a, max) + cut(b, max), max));
}

/// A word of a list is its number, and no number where it spells none.
pub proof fn law_a_word_is_its_number(w: Seq<char>, max: int)
    requires
        is_word(w),
        max > 0,
    ensures
        int_of(w) is Some ==> int_array(w, max) == seq![int_of(w)->Some_0],
        int_of(w) is None ==> int_array(w, max).len() == 0,
{
    law_a_word_is_one_word(w);
    let ws = seq![w];
    assert(ws.drop_last() =~= Seq::empty());
    assert(numbers(ws.drop_last()) =~= Seq::empty());
    assert(int_of(w) is Some ==> numbers(ws) =~= seq![int_of(w)->Some_0]);
}

/// Numbers that are written one after the other are read back.
pub open spec fn written(xs: Seq<i32>) -> Seq<char>
    decreases xs.len(),
{
    if xs.len() == 0 {
        Seq::empty()
    } else {
        written(xs.drop_last()).push(' ') + show(xs.last() as int)
    }
}

pub proof fn law_written_numbers_are_read(xs: Seq<i32>, max: int)
    requires
        max > 0,
    ensures
        int_array(written(xs), max) == cut(xs, max),
    decreases xs.len(),
{
    if xs.len() == 0 {
        law_a_word_is_one_word(written(xs));
        assert(numbers(words(written(xs))) =~= Seq::empty());
        assert(cut(xs, max) =~= Seq::empty());
    } else {
        let part = xs.drop_last();
        let w = show(xs.last() as int);
        law_written_numbers_are_read(part, max);
        law_whitespace();
        law_number_lists_concatenate(written(part), ' ', w, max);
        law_show_then_parse(xs.last());
        lemma_shown_is_word(xs.last() as int);
        law_a_word_is_its_number(w, max);
        assert(part + seq![xs.last()] =~= xs);
        lemma_cut_concat(part, seq![xs.last()], max);
        assert(cut(seq![xs.last()], max) =~= seq![xs.last()]);
    }
}

/// The devices of a list stand between plus signs; whitespace around a name, and empty
/// names, do not count.
pub proof fn law_device_lists_concatenate(a: Seq<char>, b: Seq<char>, max: int)
    requires
        forall|i: int| 0 <= i < a.len() ==> a[i] != '+',
        max > 0,
    ensures
        device_list(a.push('+') + b, max) == cut(device_list(a, max) + device_list(b, max), max),
        trim(a).len() > 0 ==> device_list(a, max) == seq![trim(a)],
        trim(a).len() == 0 ==> device_list(a, max).len() == 0,
{
    law_separators_part_pieces(a, '+', b);
    let x = seq![trim(a)];
    let y = trim_all(split_on(b, '+'));
    assert(trim_all(seq![a]) =~= x);
    assert(trim_all(seq![a] + split_on(b, '+')) =~= x + y);
    lemma_nonempty_concat(x, y);
    lemma_cut_concat(nonempty(x), nonempty(y), max);
    assert(x.drop_last() =~= Seq::empty());
    assert(nonempty(x.drop_last()) =~= Seq::empty());
    assert(trim(a).len() > 0 ==> nonempty(x) =~= x);
    assert(trim(a).len() > 0 ==> cut(x, max) =~= x);
}

proof fn lemma_nonempty_concat(a: Seq<Seq<char>>, b: Seq<Seq<char>>)
    ensures
        nonempty(a + b) == nonempty(a) + nonempty(b),
    decreases b.len(),
{
    if b.len() == 0 {
        assert(a + b =~= a);
        assert(nonempty(a) + nonempty(b) =~= nonempty(a));
    } else {
        assert((a + b).drop_last() =~= a + b.drop_last());
        assert((a + b).last() == b.last());
        lemma_nonempty_concat(a, b.drop_last());
        assert(nonempty(a + b) =~= nonempty(a) + nonempty(b));
    }
}

proof fn lemma_targets_concat(a: Seq<Seq<char>>, b: Seq<Seq<char>>)
    ensures
        target_numbers(a + b) == target_numbers(a) + target_numbers(b),
    decreases b.len(),
{
    if b.len() == 0 {
        assert(a + b =~= a);
        assert(target_numbers(a) + target_numbers(b) =~= target_numbers(a));
    } else {
        assert((a + b).drop_last() =~= a + b.drop_last());
        assert((a + b).last() == b.last());
        lemma_targets_concat(a, b.drop_last());
        assert(target_numbers(a + b) =~= target_numbers(a) + target_numbers(b));
    }
}

/// The targets of a list stand in it from left to right. A word without a plus sign is
/// one target, 0 where it is no number; a pair with a plus sign is two of them.
pub proof fn law_targets_of_a_list(
    a: Seq<char>,
    c: char,
    b: Seq<char>,
    w: Seq<char>,
    x: i32,
    y: i32,
)
    requires
        is_ws(c),
        is_word(w),
        forall|i: int| 0 <= i < w.len() ==> w[i] != '+',
    ensures
        target_numbers(words(a.push(c) + b)) == target_numbers(words(a)) + target_numbers(
            words(b),
        ),
        int_of(w) is Some ==> target_numbers(words(w)) == seq![int_of(w)->Some_0],
        int_of(w) is None ==> target_numbers(words(w)) == seq![0i32],
        target_numbers(words(show(x as int).push('+') + show(y as int))) == seq![x, y],
{
    law_whitespace_parts_words(a, c, b);
    lemma_targets_concat(words(a), words(b));
    law_a_word_is_one_word(w);
    lemma_index_of(w, '+');
    let ws = seq![w];
    assert(ws.drop_last() =~= Seq::empty());
    assert(target_numbers(ws.drop_last()) =~= Seq::empty());
    assert(target_numbers(ws) =~= seq![int_or(w, 0i32)]);
    let p = show(x as int);
    let q = show(y as int);
    let v = p.push('+') + q;
    lemma_shown_is_word(x as int);
    lemma_shown_is_word(y as int);
    assert(is_word(v)) by {
        law_whitespace();
        assert forall|i: int| 0 <= i < v.len() implies !is_ws(#[trigger] v[i]) by {
            if i < p.len() {
                assert(v[i] == p[i]);
            } else if i > p.len() {
                assert(v[i] == q[i - p.len() - 1]);
            } else {
                assert(v[i] == '+');
            }
        }
    }
    law_a_word_is_one_word(v);
    law_separators_part_pieces(p, '+', q);
    law_separators_part_pieces(q, '+', Seq::empty());
    lemma_index_of(v, '+');
    assert(v[p.len() as int] == '+');
    let none = Seq::<char>::empty();
    law_trim_takes_the_ends_off(none, p, none);
    law_trim_takes_the_ends_off(none, q, none);
    assert(none + p + none =~= p);
    assert(none + q + none =~= q);
    assert(seq![p] + seq![q] =~= seq![p, q]);
    assert(trim_all(seq![p, q]) =~= seq![p, q]);
    law_show_then_parse(x);
    law_show_then_parse(y);
    assert(seq![p, q].drop_last() =~= seq![p]);
    assert(seq![p].drop_last() =~= Seq::empty());
    reveal_with_fuel(numbers, 3);
    assert(numbers(seq![p, q]) =~= seq![x, y]);
    let vs = seq![v];
    assert(vs.drop_last() =~= Seq::empty());
    assert(target_numbers(vs.drop_last()) =~= Seq::empty());
    assert(target_numbers(vs) =~= seq![x, y]);
}

proof fn lemma_decimal_is_word(n: int)
    requires
        n >= 0,
    ensures
        is_word(decimal(n)),
        forall|i: int| 0 <= i < decimal(n).len() ==> decimal(n)[i] != '+',
    decreases n,
{
    law_whitespace();
    assert(digit_char(n % 10) as u32 == 48 + n % 10);
    if n >= 10 {
        lemma_decimal_is_word(n / 10);
        let t = decimal(n / 10);
        let s = decimal(n);
        assert forall|i: int| 0 <= i < s.len() implies !is_ws(#[trigger] s[i]) && s[i] != '+' by {
            if i < t.len() {
                assert(s[i] == t[i]);
            }
        }
    } else {
        assert(digit_char(n) as u32 == 48 + n);
    }
}

proof fn lemma_shown_is_word(n: int)
    ensures
        is_word(show(n)),
        forall|i: int| 0 <= i < show(n).len() ==> show(n)[i] != '+',
{
    law_whitespace();
    if n < 0 {
        lemma_decimal_is_word(-n);
        let s = show(n);
        assert forall|i: int| 0 <= i < s.len() implies !is_ws(#[trigger] s[i]) && s[i] != '+' by {
            if i > 0 {
                assert(s[i] == decimal(-n)[i - 1]);
            }
        }
    } else {
        lemma_decimal_is_word(n);
    }
}

// ---------------------------------------------------------------------------
// Laws of devices and scenarios
// ---------------------------------------------------------------------------

/// Each device name of a configuration stands for its action; names of cores, policies
/// and clusters stand for frequencies, whatever their number.
pub proof fn law_device_names(digit: char, rest: Seq<char>)
    ensures
        device_action("gpu"@) == ActionType::GpuBoost,
        device_action("battery"@) == ActionType::Bcl,
        device_action("thermal_fcc_override"@) == ActionType::Fcc,
        device_action("boost_limit"@) == ActionType::BoostLimit,
        device_action("temp_state"@) == ActionType::TempState,
        device_action("thermal_max_brightness"@) == ActionType::MaxBrightness,
        device_action("modem_limit"@) == ActionType::ModemLimit,
        device_action("modem_level"@) == ActionType::ModemLevel,
        device_action("wifi_limit"@) == ActionType::WifiLimit,
        device_action("voice_limit"@) == ActionType::VoiceLimit,
        device_action("torch_level"@) == ActionType::TorchLevel,
        device_action("cdsp"@) == ActionType::Cdsp,
        device_action("market_download_limit"@) == ActionType::MarketLimit,
        device_action("screen_state"@) == ActionType::ScreenState,
        device_action("boost"@) == ActionType::Boost,
        device_action("special_cpu_limit"@) == ActionType::SpecialCpuLimit,
        device_action("cpu_limits"@) == ActionType::CpuLimits,
        48 <= digit as u32 <= 55 ==> device_action("cpu"@.push(digit)) == ActionType::CpuFreq,
        device_action("hotplug_cpu"@ + rest) == ActionType::CpuHotplug,
        device_action("policy"@ + rest) == ActionType::CpuFreq,
        device_action("cpu-cluster"@ + rest) == ActionType::CpuFreq,
        device_action("VIRTUAL"@ + rest) == ActionType::NoAction,
{
    reveal_strlit("gpu");
    reveal_strlit("battery");
    reveal_strlit("thermal_fcc_override");
    reveal_strlit("boost_limit");
    reveal_strlit("temp_state");
    reveal_strlit("thermal_max_brightness");
    reveal_strlit("modem_limit");
    reveal_strlit("modem_level");
    reveal_strlit("wifi_limit");
    reveal_strlit("voice_limit");
    reveal_strlit("torch_level");
    reveal_strlit("cdsp");
    reveal_strlit("market_download_limit");
    reveal_strlit("screen_state");
    reveal_strlit("boost");
    reveal_strlit("special_cpu_limit");
    reveal_strlit("cpu_limits");
    assert("modem_limit"@[0] == 'm' && "modem_limit"@[7] == 'i');
    assert("modem_level"@[0] == 'm' && "modem_level"@[7] == 'e');
    assert("boost_limit"@[0] == 'b');
    assert("voice_limit"@[0] == 'v');
    assert("torch_level"@[0] == 't');
    assert("temp_state"@[0] == 't' && "wifi_limit"@[0] == 'w' && "cpu_limits"@[0] == 'c');
    reveal_strlit("cpu");
    reveal_strlit("hotplug_cpu");
    reveal_strlit("policy");
    reveal_strlit("cpu-cluster");
    reveal_strlit("VIRTUAL");
    law_parts_of_a_text(Seq::empty(), "hotplug_cpu"@, rest);
    law_parts_of_a_text(Seq::empty(), "policy"@, rest);
    law_parts_of_a_text(Seq::empty(), "cpu-cluster"@, rest);
    law_parts_of_a_text(Seq::empty(), "VIRTUAL"@, rest);
    lemma_prefix_start("VIRTUAL"@ + rest);
    lemma_prefix_start("policy"@ + rest);
    lemma_prefix_start("cpu-cluster"@ + rest);
    lemma_prefix_start("gpu"@);
    lemma_prefix_start("battery"@);
    lemma_prefix_start("thermal_fcc_override"@);
    lemma_prefix_start("boost_limit"@);
    lemma_prefix_start("temp_state"@);
    lemma_prefix_start("thermal_max_brightness"@);
    lemma_prefix_start("modem_limit"@);
    lemma_prefix_start("modem_level"@);
    lemma_prefix_start("wifi_limit"@);
    lemma_prefix_start("voice_limit"@);
    lemma_prefix_start("torch_level"@);
    lemma_prefix_start("cdsp"@);
    lemma_prefix_start("market_download_limit"@);
    lemma_prefix_start("screen_state"@);
    lemma_prefix_start("boost"@);
    lemma_prefix_start("special_cpu_limit"@);
    lemma_prefix_start("cpu_limits"@);
}

/// What the prefixes of device names ask of the first characters.
proof fn lemma_prefix_start(d: Seq<char>)
    ensures
        has_prefix(d, "hotplug_cpu"@) ==> d.len() >= 11 && d[0] == 'h',
        has_prefix(d, "policy"@) ==> d.len() >= 6 && d[0] == 'p',
        has_prefix(d, "cpu-cluster"@) ==> d.len() >= 11 && d[0] == 'c' && d[3] == '-',
        has_prefix(d, "VIRTUAL"@) ==> d.len() >= 7 && d[0] == 'V',
{
    reveal_strlit("hotplug_cpu");
    reveal_strlit("policy");
    reveal_strlit("cpu-cluster");
    reveal_strlit("VIRTUAL");
    if has_prefix(d, "hotplug_cpu"@) {
        assert(d.take(11)[0] == d[0]);
    }
    if has_prefix(d, "policy"@) {
        assert(d.take(6)[0] == d[0]);
    }
    if has_prefix(d, "cpu-cluster"@) {
        assert(d.take(11)[0] == d[0]);
        assert(d.take(11)[3] == d[3]);
    }
    if has_prefix(d, "VIRTUAL"@) {
        assert(d.take(7)[0] == d[0]);
    }
}

/// The first line of the map with the number of a scenario names its file; what comes
/// before it under other numbers, and what comes behind it, makes no difference. A map
/// without the number gives the default file.
pub proof fn law_first_entry_names_the_scenario(
    before: Seq<Seq<char>>,
    number: i32,
    file: Seq<char>,
    tail: Seq<char>,
    rest: Seq<Seq<char>>,
)
    requires
        forall|i: int|
            0 <= i < before.len() ==> (match map_entry(#[trigger] before[i]) {
                Some(e) => e.0 != number,
                None => true,
            }),
        forall|i: int| 0 <= i < file.len() ==> file[i] != ']',
    ensures
        scenario_in(
            before + seq![(seq!['['] + show(number as int)).push(':') + file.push(']') + tail]
                + rest,
            number,
        ) == file,
        scenario_in(before, number) == "thermal-normal.conf"@,
    decreases before.len(),
{
    let line = (seq!['['] + show(number as int)).push(':') + file.push(']') + tail;
    let all = before + seq![line] + rest;
    if before.len() > 0 {
        let part = before.drop_first();
        assert forall|i: int| 0 <= i < part.len() implies (match map_entry(#[trigger] part[i]) {
            Some(e) => e.0 != number,
            None => true,
        }) by {
            assert(part[i] == before[i + 1]);
        }
        law_first_entry_names_the_scenario(part, number, file, tail, rest);
        assert(all[0] == before[0]);
        assert(all.drop_first() =~= part + seq![line] + rest);
    } else {
        assert(all[0] == line);
        lemma_map_line(number, file, tail);
    }
}

/// A line of the map is a number and a file in brackets, a colon between them.
proof fn lemma_map_line(number: i32, file: Seq<char>, tail: Seq<char>)
    requires
        forall|i: int| 0 <= i < file.len() ==> file[i] != ']',
    ensures
        map_entry((seq!['['] + show(number as int)).push(':') + file.push(']') + tail) == Some(
            (number, file),
        ),
{
    let s = show(number as int);
    let line = (seq!['['] + s).push(':') + file.push(']') + tail;
    let end = s.len() + 2 + file.len();
    lemma_shown_is_plain(number as int);
    lemma_index_of(line, ']');
    assert(line[0] == '[');
    assert(line[end as int] == ']');
    assert forall|i: int| 0 <= i < end implies line[i] != ']' by {
        if 1 <= i < s.len() + 1 {
            assert(line[i] == s[i - 1]);
        } else if i > s.len() + 1 {
            assert(line[i] == file[i - s.len() - 2]);
        }
    }
    assert(index_of(line, ']') == end);
    let inner = line.subrange(1, end as int);
    assert(inner =~= s.push(':') + file);
    lemma_index_of(inner, ':');
    assert(inner[s.len() as int] == ':');
    assert forall|i: int| 0 <= i < s.len() implies inner[i] != ':' by {
        assert(inner[i] == s[i]);
    }
    assert(index_of(inner, ':') == s.len());
    assert(inner.take(s.len() as int) =~= s);
    assert(inner.skip((s.len() + 1) as int) =~= file);
    law_show_then_parse(number);
}

proof fn lemma_decimal_is_plain(n: int)
    requires
        n >= 0,
    ensures
        forall|i: int|
            0 <= i < decimal(n).len() ==> decimal(n)[i] != ']' && decimal(n)[i] != ':',
    decreases n,
{
    assert(digit_char(n % 10) as u32 == 48 + n % 10);
    if n >= 10 {
        lemma_decimal_is_plain(n / 10);
        let t = decimal(n / 10);
        let s = decimal(n);
        assert forall|i: int| 0 <= i < s.len() implies s[i] != ']' && s[i] != ':' by {
            if i < t.len() {
                assert(s[i] == t[i]);
            }
        }
    } else {
        assert(digit_char(n) as u32 == 48 + n);
    }
}

proof fn lemma_shown_is_plain(n: int)
    ensures
        forall|i: int| 0 <= i < show(n).len() ==> show(n)[i] != ']' && show(n)[i] != ':',
{
    if n < 0 {
        lemma_decimal_is_plain(-n);
        let s = show(n);
        assert forall|i: int| 0 <= i < s.len() implies s[i] != ']' && s[i] != ':' by {
            if i > 0 {
                assert(s[i] == decimal(-n)[i - 1]);
            }
        }
    } else {
        lemma_decimal_is_plain(n);
    }
}

/// A device that has no name of its own is limited like a processor.
pub proof fn law_other_devices_are_processors(d: Seq<char>)
    requires
        !has_prefix(d, "hotplug_cpu"@),
        !has_prefix(d, "VIRTUAL"@),
        d != "gpu"@,
        d != "battery"@,
        d != "thermal_fcc_override"@,
        d != "boost_limit"@,
        d != "temp_state"@,
        d != "thermal_max_brightness"@,
        d != "modem_limit"@,
        d != "modem_level"@,
        d != "wifi_limit"@,
        d != "voice_limit"@,
        d != "torch_level"@,
        d != "cdsp"@,
        d != "market_download_limit"@,
        d != "screen_state"@,
        d != "boost"@,
        d != "special_cpu_limit"@,
        d != "cpu_limits"@,
    ensures
        device_action(d) == ActionType::CpuFreq,
{
}

/// A line that does not begin with a bracket, or has no closing one or no colon, is no entry of
/// the map.
pub proof fn law_what_is_no_entry(line: Seq<char>)
    ensures
        line.len() == 0 || line[0] != '[' ==> map_entry(line) is None,
        !line.contains(']') ==> map_entry(line) is None,
        !line.contains(':') ==> map_entry(line) is None,
{
    let end = index_of(line, ']');
    lemma_index_of(line, ']');
    if line.len() > 0 && line[0] == '[' && end < line.len() {
        assert(end >= 1);
        let inner = line.subrange(1, end);
        lemma_index_of(inner, ':');
        if index_of(inner, ':') < inner.len() {
            assert(line[index_of(inner, ':') + 1] == ':');
        }
    }
}

} // verus!
