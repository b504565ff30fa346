//! Read-only hwmon discovery: every chip under /sys/class/hwmon with its
//! temperature, fan, PWM and power channels.
//!
//! Values are kept in the units the kernel reports them in: temperatures in
//! millidegrees Celsius, power in microwatts.

use vstd::prelude::*;
use crate::sysfs::{join, opt_view, path_join, SysFs};
use crate::text::{
    append_str, chars_of, dec_string, parse_uint, parse_uint_upto, push_dec, slice_vec, sort_seq,
    sort_strings, starts_with, string_views,
};

verus! {

pub const HWMON_BASE: &'static str = "/sys/class/hwmon";

#[derive(Debug)]
pub struct TempChannel {
    pub index: u32,
    pub label: Option<String>,
    /// `temp<N>_input`, millidegrees Celsius.
    pub millidegrees: Option<i64>,
}

#[derive(Debug)]
pub struct FanChannel {
    pub index: u32,
    pub label: Option<String>,
    pub rpm: Option<u64>,
}

#[derive(Debug)]
pub struct PwmChannel {
    pub index: u32,
    pub raw: Option<u64>,
    pub enable: Option<u64>,
}

#[derive(Debug)]
pub struct PowerChannel {
    pub index: u32,
    pub label: Option<String>,
    /// `power<N>_input`, microwatts.
    pub microwatts: Option<u64>,
}

#[derive(Debug)]
pub struct HwmonChip {
    pub name: Option<String>,
    pub path: String,
    pub temps: Vec<TempChannel>,
    pub fans: Vec<FanChannel>,
    pub pwms: Vec<PwmChannel>,
    pub powers: Vec<PowerChannel>,
}

// ---------------------------------------------------------------------------
// Channel names
// ---------------------------------------------------------------------------

/// `s.parse::<u32>()`.
pub open spec fn parse_u32_spec(s: Seq<char>) -> Option<u32> {
    match parse_uint(s, u32::MAX as nat) {
        Some(v) => Some(v as u32),
        None => None,
    }
}

/// `channel_index`: the number between `prefix` and `suffix`.
pub open spec fn spec_channel_index(name: Seq<char>, prefix: Seq<char>, suffix: Seq<char>) -> Option<u32> {
    if starts_with(name, prefix) && name.len() >= prefix.len() + suffix.len() && name.skip(
        name.len() - suffix.len(),
    ) == suffix {
        parse_u32_spec(name.subrange(prefix.len() as int, name.len() - suffix.len()))
    } else {
        None
    }
}

fn parse_u32_chars(s: &Vec<char>) -> (r: Option<u32>)
    ensures
        r == parse_u32_spec(s@),
{
    match parse_uint_upto(s, 4294967295) {
        Some(v) => Some(v as u32),
        None => None,
    }
}

fn seq_has_at(s: &Vec<char>, p: &Vec<char>, at: usize) -> (b: bool)
    requires
        at + p@.len() <= s@.len(),
    ensures
        b == (s@.subrange(at as int, at + p@.len()) == p@),
{
    let mut k: usize = 0;
    while k < p.len()
        invariant
            k <= p@.len(),
            at + p@.len() <= s@.len(),
            forall|j: int| 0 <= j < k ==> s@[at + j] == p@[j],
        decreases p@.len() - k,
    {
        assert(at + k < s.len());
        if s[at + k] != p[k] {
            assert(s@.subrange(at as int, at + p@.len())[k as int] != p@[k as int]);
            return false;
        }
        k = k + 1;
    }
    assert(s@.subrange(at as int, at + p@.len()) =~= p@);
    true
}

/// The channel number of `name` when it is `prefix<N>suffix`.
pub fn channel_index(name: &str, prefix: &str, suffix: &str) -> (r: Option<u32>)
    ensures
        r == spec_channel_index(name@, prefix@, suffix@),
{
    let n = chars_of(name);
    let p = chars_of(prefix);
    let s = chars_of(suffix);
    if n.len() < p.len() || n.len() - p.len() < s.len() {
        return None;
    }
    if !seq_has_at(&n, &p, 0) {
        assert(n@.subrange(0, p@.len() as int) =~= n@.take(p@.len() as int));
        return None;
    }
    assert(n@.subrange(0, p@.len() as int) =~= n@.take(p@.len() as int));
    let end = n.len() - s.len();
    if !seq_has_at(&n, &s, end) {
        assert(n@.subrange(end as int, n@.len() as int) =~= n@.skip(end as int));
        return None;
    }
    assert(n@.subrange(end as int, n@.len() as int) =~= n@.skip(end as int));
    let mid = slice_vec(&n, p.len(), end);
    parse_u32_chars(&mid)
}

/// The PWM channel number of `pwm<N>`.
pub open spec fn spec_pwm_index(name: Seq<char>) -> Option<u32> {
    if starts_with(name, "pwm"@) {
        parse_u32_spec(name.skip(3))
    } else {
        None
    }
}

fn pwm_index(name: &str) -> (r: Option<u32>)
    ensures
        r == spec_pwm_index(name@),
{
    proof {
        reveal_strlit("pwm");
    }
    let n = chars_of(name);
    let p = chars_of("pwm");
    if n.len() < 3 {
        return None;
    }
    if !seq_has_at(&n, &p, 0) {
        assert(n@.subrange(0, 3) =~= n@.take(3));
        return None;
    }
    assert(n@.subrange(0, 3) =~= n@.take(3));
    let rest = slice_vec(&n, 3, n.len());
    assert(rest@ =~= n@.skip(3));
    parse_u32_chars(&rest)
}

/// Which kind of channel a file name is, tried in this order.
pub enum ChannelKind {
    Temp(u32),
    Fan(u32),
    Power(u32),
    Pwm(u32),
    Other,
}

pub open spec fn classify(name: Seq<char>) -> ChannelKind {
    match spec_channel_index(name, "temp"@, "_input"@) {
        Some(i) => ChannelKind::Temp(i),
        None => match spec_channel_index(name, "fan"@, "_input"@) {
            Some(i) => ChannelKind::Fan(i),
            None => match spec_channel_index(name, "power"@, "_input"@) {
                Some(i) => ChannelKind::Power(i),
                None => match spec_pwm_index(name) {
                    Some(i) => ChannelKind::Pwm(i),
                    None => ChannelKind::Other,
                },
            },
        },
    }
}

pub const TEMP: u8 = 0;

pub const FAN: u8 = 1;

pub const POWER: u8 = 2;

pub const PWM: u8 = 3;

/// The channel number of `k` when it is of kind `which`.
pub open spec fn kind_index(k: ChannelKind, which: u8) -> Option<u32> {
    match k {
        ChannelKind::Temp(i) => if which == TEMP { Some(i) } else { None },
        ChannelKind::Fan(i) => if which == FAN { Some(i) } else { None },
        ChannelKind::Power(i) => if which == POWER { Some(i) } else { None },
        ChannelKind::Pwm(i) => if which == PWM { Some(i) } else { None },
        ChannelKind::Other => None,
    }
}

/// The (number, file name) of each channel of kind `which`, in listing order.
pub open spec fn class_entries(names: Seq<Seq<char>>, which: u8) -> Seq<(u32, Seq<char>)>
    decreases names.len(),
{
    if names.len() == 0 {
        seq![]
    } else {
        let rest = class_entries(names.drop_last(), which);
        match kind_index(classify(names.last()), which) {
            Some(i) => rest.push((i, names.last())),
            None => rest,
        }
    }
}

// ---------------------------------------------------------------------------
// Stable ordering by channel number
// ---------------------------------------------------------------------------

/// `x` inserted into `s` after every entry whose number is not larger.
pub open spec fn ins_by_index(s: Seq<(u32, Seq<char>)>, x: (u32, Seq<char>)) -> Seq<(u32, Seq<char>)>
    decreases s.len(),
{
    if s.len() == 0 {
        seq![x]
    } else if s.last().0 <= x.0 {
        s.push(x)
    } else {
        ins_by_index(s.drop_last(), x).push(s.last())
    }
}

/// The entries stably sorted by channel number (`sort_by_key`).
pub open spec fn sort_by_index(s: Seq<(u32, Seq<char>)>) -> Seq<(u32, Seq<char>)>
    decreases s.len(),
{
    if s.len() == 0 {
        s
    } else {
        ins_by_index(sort_by_index(s.drop_last()), s.last())
    }
}

proof fn lemma_ins_at(s: Seq<(u32, Seq<char>)>, x: (u32, Seq<char>), j: int)
    requires
        0 <= j <= s.len(),
        forall|k: int| j <= k < s.len() ==> #[trigger] s[k].0 > x.0,
        j == 0 || s[j - 1].0 <= x.0,
    ensures
        ins_by_index(s, x) == s.take(j).push(x) + s.skip(j),
    decreases s.len(),
{
    if s.len() == 0 {
        assert(s.take(j).push(x) + s.skip(j) =~= seq![x]);
    } else if s.last().0 <= x.0 {
        assert(j == s.len());
        assert(s.take(j).push(x) + s.skip(j) =~= s.push(x));
    } else {
        let t = s.drop_last();
        assert(j <= t.len());
        lemma_ins_at(t, x, j);
        assert(s.take(j).push(x) + s.skip(j) =~= (t.take(j).push(x) + t.skip(j)).push(s.last()));
    }
}

pub open spec fn index_sorted(s: Seq<(u32, Seq<char>)>) -> bool {
    forall|i: int, j: int| 0 <= i < j < s.len() ==> #[trigger] s[i].0 <= #[trigger] s[j].0
}

proof fn lemma_ins_props(s: Seq<(u32, Seq<char>)>, x: (u32, Seq<char>), bound: u32)
    requires
        index_sorted(s),
    ensures
        ins_by_index(s, x).len() == s.len() + 1,
        index_sorted(ins_by_index(s, x)),
        (forall|i: int| 0 <= i < s.len() ==> #[trigger] s[i].0 <= bound) && x.0 <= bound ==> forall|k: int|
            0 <= k < s.len() + 1 ==> #[trigger] ins_by_index(s, x)[k].0 <= bound,
    decreases s.len(),
{
    if s.len() == 0 {
    } else if s.last().0 <= x.0 {
        let r = s.push(x);
        assert forall|i: int, j: int| 0 <= i < j < r.len() implies #[trigger] r[i].0 <= #[trigger] r[j].0 by {
            if j == s.len() {
                assert(s[i].0 <= s.last().0);
            }
        }
    } else {
        let t = s.drop_last();
        assert(index_sorted(t)) by {
            assert forall|i: int, j: int| 0 <= i < j < t.len() implies #[trigger] t[i].0 <= #[trigger] t[j].0 by {
                assert(t[i] == s[i] && t[j] == s[j]);
            }
        }
        let last = s.last();
        lemma_ins_props(t, x, last.0);
        lemma_ins_props(t, x, bound);
        let m = ins_by_index(t, x);
        assert forall|i: int| 0 <= i < t.len() implies #[trigger] t[i].0 <= last.0 by {
            assert(t[i] == s[i]);
            assert(s[i].0 <= s[s.len() - 1].0);
        }
        let r = m.push(last);
        assert forall|i: int, j: int| 0 <= i < j < r.len() implies #[trigger] r[i].0 <= #[trigger] r[j].0 by {
            if j == m.len() {
                assert(r[i] == m[i]);
            } else {
                assert(r[i] == m[i] && r[j] == m[j]);
            }
        }
        if (forall|i: int| 0 <= i < s.len() ==> #[trigger] s[i].0 <= bound) && x.0 <= bound {
            assert forall|i: int| 0 <= i < t.len() implies #[trigger] t[i].0 <= bound by {
                assert(t[i] == s[i]);
            }
            assert(last.0 <= bound);
        }
    }
}

/// Sorting by channel number orders the entries and keeps their number.
pub proof fn lemma_sort_by_index_sorted(s: Seq<(u32, Seq<char>)>)
    ensures
        sort_by_index(s).len() == s.len(),
        index_sorted(sort_by_index(s)),
    decreases s.len(),
{
    if s.len() > 0 {
        lemma_sort_by_index_sorted(s.drop_last());
        lemma_ins_props(sort_by_index(s.drop_last()), s.last(), 0);
    }
}

pub open spec fn entry_views(v: Seq<(u32, String)>) -> Seq<(u32, Seq<char>)> {
    v.map_values(|e: (u32, String)| (e.0, e.1@))
}

/// The entries stably sorted by channel number.
fn sorted_by_index(v: &Vec<(u32, String)>) -> (out: Vec<(u32, String)>)
    ensures
        entry_views(out@) == sort_by_index(entry_views(v@)),
{
    let ghost src = entry_views(v@);
    let mut out: Vec<(u32, String)> = Vec::new();
    let mut i: usize = 0;
    while i < v.len()
        invariant
            i <= v@.len(),
            src == entry_views(v@),
            entry_views(out@) == sort_by_index(src.take(i as int)),
        decreases v@.len() - i,
    {
        let x: (u32, String) = (v[i].0, v[i].1.clone());
        let ghost xv = (x.0, x.1@);
        let ghost before = entry_views(out@);
        let mut j = out.len();
        while j > 0 && out[j - 1].0 > x.0
            invariant
                j <= out@.len(),
                before == entry_views(out@),
                forall|k: int| j <= k < out@.len() ==> #[trigger] before[k].0 > x.0,
            decreases j,
        {
            assert(before[j - 1].0 == out@[j - 1].0);
            j = j - 1;
        }
        proof {
            if j > 0 {
                assert(before[j - 1].0 == out@[j - 1].0);
            }
            lemma_ins_at(before, xv, j as int);
            assert(src.take(i + 1).drop_last() =~= src.take(i as int));
            assert(src.take(i + 1).last() == xv);
        }
        out.insert(j, x);
        assert(entry_views(out@) =~= before.take(j as int).push(xv) + before.skip(j as int));
        i = i + 1;
    }
    assert(src.take(v@.len() as int) =~= src);
    out
}


fn classify_name(name: &str) -> (k: ChannelKind)
    ensures
        k == classify(name@),
{
    proof {
        reveal_strlit("temp");
        reveal_strlit("fan");
        reveal_strlit("power");
        reveal_strlit("_input");
    }
    match channel_index(name, "temp", "_input") {
        Some(i) => ChannelKind::Temp(i),
        None => match channel_index(name, "fan", "_input") {
            Some(i) => ChannelKind::Fan(i),
            None => match channel_index(name, "power", "_input") {
                Some(i) => ChannelKind::Power(i),
                None => match pwm_index(name) {
                    Some(i) => ChannelKind::Pwm(i),
                    None => ChannelKind::Other,
                },
            },
        },
    }
}

// ---------------------------------------------------------------------------
// Chips
// ---------------------------------------------------------------------------

pub type TempView = (u32, Option<Seq<char>>, Option<i64>);

pub type FanView = (u32, Option<Seq<char>>, Option<u64>);

pub type PwmView = (u32, Option<u64>, Option<u64>);

pub type PowerView = (u32, Option<Seq<char>>, Option<u64>);

pub open spec fn temp_view(c: TempChannel) -> TempView {
    (c.index, opt_view(c.label), c.millidegrees)
}

pub open spec fn fan_view(c: FanChannel) -> FanView {
    (c.index, opt_view(c.label), c.rpm)
}

pub open spec fn pwm_view(c: PwmChannel) -> PwmView {
    (c.index, c.raw, c.enable)
}

pub open spec fn power_view(c: PowerChannel) -> PowerView {
    (c.index, opt_view(c.label), c.microwatts)
}

pub open spec fn temp_views(v: Seq<TempChannel>) -> Seq<TempView> {
    v.map_values(|c: TempChannel| temp_view(c))
}

pub open spec fn fan_views(v: Seq<FanChannel>) -> Seq<FanView> {
    v.map_values(|c: FanChannel| fan_view(c))
}

pub open spec fn pwm_views(v: Seq<PwmChannel>) -> Seq<PwmView> {
    v.map_values(|c: PwmChannel| pwm_view(c))
}

pub open spec fn power_views(v: Seq<PowerChannel>) -> Seq<PowerView> {
    v.map_values(|c: PowerChannel| power_view(c))
}

/// A chip as plain values.
pub struct ChipView {
    pub name: Option<Seq<char>>,
    pub path: Seq<char>,
    pub temps: Seq<TempView>,
    pub fans: Seq<FanView>,
    pub pwms: Seq<PwmView>,
    pub powers: Seq<PowerView>,
}

impl View for HwmonChip {
    type V = ChipView;

    open spec fn view(&self) -> ChipView {
        ChipView {
            name: opt_view(self.name),
            path: self.path@,
            temps: temp_views(self.temps@),
            fans: fan_views(self.fans@),
            pwms: pwm_views(self.pwms@),
            powers: power_views(self.powers@),
        }
    }
}

/// `<kind><N><what>` inside `dir`, e.g. `temp1_label`.
pub open spec fn channel_file(dir: Seq<char>, kind: Seq<char>, idx: u32, what: Seq<char>) -> Seq<char> {
    path_join(dir, kind + dec_string(idx as nat) + what)
}

pub open spec fn temp_of(fs: SysFs, dir: Seq<char>, e: (u32, Seq<char>)) -> TempView {
    (e.0, fs.spec_read_trim(channel_file(dir, "temp"@, e.0, "_label"@)), fs.spec_read_i64(path_join(dir, e.1)))
}

pub open spec fn fan_of(fs: SysFs, dir: Seq<char>, e: (u32, Seq<char>)) -> FanView {
    (e.0, fs.spec_read_trim(channel_file(dir, "fan"@, e.0, "_label"@)), fs.spec_read_u64(path_join(dir, e.1)))
}

pub open spec fn power_of(fs: SysFs, dir: Seq<char>, e: (u32, Seq<char>)) -> PowerView {
    (e.0, fs.spec_read_trim(channel_file(dir, "power"@, e.0, "_label"@)), fs.spec_read_u64(path_join(dir, e.1)))
}

pub open spec fn pwm_of(fs: SysFs, dir: Seq<char>, e: (u32, Seq<char>)) -> PwmView {
    (e.0, fs.spec_read_u64(path_join(dir, e.1)), fs.spec_read_u64(channel_file(dir, "pwm"@, e.0, "_enable"@)))
}

pub open spec fn spec_temps(fs: SysFs, dir: Seq<char>, names: Seq<Seq<char>>) -> Seq<TempView> {
    sort_by_index(class_entries(names, TEMP)).map_values(|e: (u32, Seq<char>)| temp_of(fs, dir, e))
}

pub open spec fn spec_fans(fs: SysFs, dir: Seq<char>, names: Seq<Seq<char>>) -> Seq<FanView> {
    sort_by_index(class_entries(names, FAN)).map_values(|e: (u32, Seq<char>)| fan_of(fs, dir, e))
}

pub open spec fn spec_powers(fs: SysFs, dir: Seq<char>, names: Seq<Seq<char>>) -> Seq<PowerView> {
    sort_by_index(class_entries(names, POWER)).map_values(|e: (u32, Seq<char>)| power_of(fs, dir, e))
}

pub open spec fn spec_pwms(fs: SysFs, dir: Seq<char>, names: Seq<Seq<char>>) -> Seq<PwmView> {
    sort_by_index(class_entries(names, PWM)).map_values(|e: (u32, Seq<char>)| pwm_of(fs, dir, e))
}

/// The names listed in `dir`, none when it cannot be listed.
pub open spec fn listed(fs: SysFs, dir: Seq<char>) -> Seq<Seq<char>> {
    match fs.spec_list(dir) {
        Some(n) => n,
        None => seq![],
    }
}

/// `collect`: a chip's name and its channels, each kind ordered by channel
/// number (listing order among equal numbers).
pub open spec fn spec_collect(fs: SysFs, dir: Seq<char>) -> ChipView {
    let names = listed(fs, dir);
    ChipView {
        name: fs.spec_read_trim(path_join(dir, "name"@)),
        path: dir,
        temps: spec_temps(fs, dir, names),
        fans: spec_fans(fs, dir, names),
        pwms: spec_pwms(fs, dir, names),
        powers: spec_powers(fs, dir, names),
    }
}

fn channel_file_path(dir: &String, kind: &str, idx: u32, what: &str) -> (p: String)
    ensures
        p@ == channel_file(dir@, kind@, idx, what@),
{
    let mut name = String::from_str(kind);
    push_dec(&mut name, idx as u64);
    append_str(&mut name, what);
    join(dir, name.as_str())
}

pub fn list_or_empty(fs: &SysFs, dir: &String) -> (v: Vec<String>)
    ensures
        string_views(v@) == listed(*fs, dir@),
{
    match fs.list(dir) {
        Some(v) => v,
        None => {
            let v: Vec<String> = Vec::new();
            assert(string_views(v@) =~= seq![]);
            v
        },
    }
}

/// Split the listing into the four channel kinds, in listing order.
fn classify_all(names: &Vec<String>) -> (r: (Vec<(u32, String)>, Vec<(u32, String)>, Vec<(u32, String)>, Vec<(u32, String)>))
    ensures
        entry_views(r.0@) == class_entries(string_views(names@), TEMP),
        entry_views(r.1@) == class_entries(string_views(names@), FAN),
        entry_views(r.2@) == class_entries(string_views(names@), POWER),
        entry_views(r.3@) == class_entries(string_views(names@), PWM),
{
    let ghost nv = string_views(names@);
    let mut t: Vec<(u32, String)> = Vec::new();
    let mut f: Vec<(u32, String)> = Vec::new();
    let mut w: Vec<(u32, String)> = Vec::new();
    let mut p: Vec<(u32, String)> = Vec::new();
    let mut i: usize = 0;
    while i < names.len()
        invariant
            i <= names@.len(),
            nv == string_views(names@),
            entry_views(t@) == class_entries(nv.take(i as int), TEMP),
            entry_views(f@) == class_entries(nv.take(i as int), FAN),
            entry_views(w@) == class_entries(nv.take(i as int), POWER),
            entry_views(p@) == class_entries(nv.take(i as int), PWM),
        decreases names@.len() - i,
    {
        let name = &names[i];
        assert(nv.take(i + 1).drop_last() =~= nv.take(i as int));
        assert(nv.take(i + 1).last() == name@);
        let ghost (t0, f0, w0, p0) = (entry_views(t@), entry_views(f@), entry_views(w@), entry_views(p@));
        match classify_name(name.as_str()) {
            ChannelKind::Temp(k) => {
                t.push((k, name.clone()));
                assert(entry_views(t@) =~= t0.push((k, name@)));
            },
            ChannelKind::Fan(k) => {
                f.push((k, name.clone()));
                assert(entry_views(f@) =~= f0.push((k, name@)));
            },
            ChannelKind::Power(k) => {
                w.push((k, name.clone()));
                assert(entry_views(w@) =~= w0.push((k, name@)));
            },
            ChannelKind::Pwm(k) => {
                p.push((k, name.clone()));
                assert(entry_views(p@) =~= p0.push((k, name@)));
            },
            ChannelKind::Other => {},
        }
        i = i + 1;
    }
    assert(nv.take(names@.len() as int) =~= nv);
    (t, f, w, p)
}

fn temps_of(fs: &SysFs, dir: &String, es: &Vec<(u32, String)>) -> (v: Vec<TempChannel>)
    ensures
        temp_views(v@) == entry_views(es@).map_values(|e: (u32, Seq<char>)| temp_of(*fs, dir@, e)),
{
    let ghost ev = entry_views(es@);
    let mut v: Vec<TempChannel> = Vec::new();
    let mut i: usize = 0;
    while i < es.len()
        invariant
            i <= es@.len(),
            ev == entry_views(es@),
            v@.len() == i,
            forall|k: int| 0 <= k < i ==> temp_view(#[trigger] v@[k]) == temp_of(*fs, dir@, ev[k]),
        decreases es@.len() - i,
    {
        let idx = es[i].0;
        assert(ev[i as int] == (idx, es@[i as int].1@));
        let label = fs.read_trim(&channel_file_path(dir, "temp", idx, "_label"));
        let value = fs.read_i64(&join(dir, es[i].1.as_str()));
        v.push(TempChannel { index: idx, label, millidegrees: value });
        i = i + 1;
    }
    assert(temp_views(v@) =~= ev.map_values(|e: (u32, Seq<char>)| temp_of(*fs, dir@, e)));
    v
}

fn fans_of(fs: &SysFs, dir: &String, es: &Vec<(u32, String)>) -> (v: Vec<FanChannel>)
    ensures
        fan_views(v@) == entry_views(es@).map_values(|e: (u32, Seq<char>)| fan_of(*fs, dir@, e)),
{
    let ghost ev = entry_views(es@);
    let mut v: Vec<FanChannel> = Vec::new();
    let mut i: usize = 0;
    while i < es.len()
        invariant
            i <= es@.len(),
            ev == entry_views(es@),
            v@.len() == i,
            forall|k: int| 0 <= k < i ==> fan_view(#[trigger] v@[k]) == fan_of(*fs, dir@, ev[k]),
        decreases es@.len() - i,
    {
        let idx = es[i].0;
        assert(ev[i as int] == (idx, es@[i as int].1@));
        let label = fs.read_trim(&channel_file_path(dir, "fan", idx, "_label"));
        let value = fs.read_u64(&join(dir, es[i].1.as_str()));
        v.push(FanChannel { index: idx, label, rpm: value });
        i = i + 1;
    }
    assert(fan_views(v@) =~= ev.map_values(|e: (u32, Seq<char>)| fan_of(*fs, dir@, e)));
    v
}

fn powers_of(fs: &SysFs, dir: &String, es: &Vec<(u32, String)>) -> (v: Vec<PowerChannel>)
    ensures
        power_views(v@) == entry_views(es@).map_values(|e: (u32, Seq<char>)| power_of(*fs, dir@, e)),
{
    let ghost ev = entry_views(es@);
    let mut v: Vec<PowerChannel> = Vec::new();
    let mut i: usize = 0;
    while i < es.len()
        invariant
            i <= es@.len(),
            ev == entry_views(es@),
            v@.len() == i,
            forall|k: int| 0 <= k < i ==> power_view(#[trigger] v@[k]) == power_of(*fs, dir@, ev[k]),
        decreases es@.len() - i,
    {
        let idx = es[i].0;
        assert(ev[i as int] == (idx, es@[i as int].1@));
        let label = fs.read_trim(&channel_file_path(dir, "power", idx, "_label"));
        let value = fs.read_u64(&join(dir, es[i].1.as_str()));
        v.push(PowerChannel { index: idx, label, microwatts: value });
        i = i + 1;
    }
    assert(power_views(v@) =~= ev.map_values(|e: (u32, Seq<char>)| power_of(*fs, dir@, e)));
    v
}

fn pwms_of(fs: &SysFs, dir: &String, es: &Vec<(u32, String)>) -> (v: Vec<PwmChannel>)
    ensures
        pwm_views(v@) == entry_views(es@).map_values(|e: (u32, Seq<char>)| pwm_of(*fs, dir@, e)),
{
    let ghost ev = entry_views(es@);
    let mut v: Vec<PwmChannel> = Vec::new();
    let mut i: usize = 0;
    while i < es.len()
        invariant
            i <= es@.len(),
            ev == entry_views(es@),
            v@.len() == i,
            forall|k: int| 0 <= k < i ==> pwm_view(#[trigger] v@[k]) == pwm_of(*fs, dir@, ev[k]),
        decreases es@.len() - i,
    {
        let idx = es[i].0;
        assert(ev[i as int] == (idx, es@[i as int].1@));
        let raw = fs.read_u64(&join(dir, es[i].1.as_str()));
        let enable = fs.read_u64(&channel_file_path(dir, "pwm", idx, "_enable"));
        v.push(PwmChannel { index: idx, raw, enable });
        i = i + 1;
    }
    assert(pwm_views(v@) =~= ev.map_values(|e: (u32, Seq<char>)| pwm_of(*fs, dir@, e)));
    v
}

/// Read one hwmon chip directory.
pub fn collect(fs: &SysFs, path: &String) -> (chip: HwmonChip)
    ensures
        chip@ == spec_collect(*fs, path@),
{
    let names = list_or_empty(fs, path);
    let (t, f, w, p) = classify_all(&names);
    let temps = temps_of(fs, path, &sorted_by_index(&t));
    let fans = fans_of(fs, path, &sorted_by_index(&f));
    let powers = powers_of(fs, path, &sorted_by_index(&w));
    let pwms = pwms_of(fs, path, &sorted_by_index(&p));
    HwmonChip { name: fs.read_trim(&join(path, "name")), path: path.clone(), temps, fans, pwms, powers }
}

pub open spec fn chip_views(v: Seq<HwmonChip>) -> Seq<ChipView> {
    v.map_values(|c: HwmonChip| c@)
}

/// `read`: every chip under /sys/class/hwmon, in name order.
pub open spec fn spec_read(fs: SysFs) -> Seq<ChipView> {
    sort_seq(listed(fs, HWMON_BASE@)).map_values(|n: Seq<char>| spec_collect(fs, path_join(HWMON_BASE@, n)))
}

/// Every hwmon chip with its channels.
pub fn read(fs: &SysFs) -> (v: Vec<HwmonChip>)
    ensures
        chip_views(v@) == spec_read(*fs),
{
    let base = String::from_str(HWMON_BASE);
    let names = sort_strings(list_or_empty(fs, &base));
    let ghost nv = string_views(names@);
    let mut v: Vec<HwmonChip> = Vec::new();
    let mut i: usize = 0;
    while i < names.len()
        invariant
            i <= names@.len(),
            nv == string_views(names@),
            base@ == HWMON_BASE@,
            v@.len() == i,
            forall|k: int| 0 <= k < i ==> (#[trigger] v@[k])@ == spec_collect(*fs, path_join(HWMON_BASE@, nv[k])),
        decreases names@.len() - i,
    {
        let dir = join(&base, names[i].as_str());
        v.push(collect(fs, &dir));
        i = i + 1;
    }
    assert(chip_views(v@) =~= nv.map_values(|n: Seq<char>| spec_collect(*fs, path_join(HWMON_BASE@, n))));
    v
}

/// Each kind of channel of a chip is listed in increasing channel order.
pub proof fn lemma_chip_channels_ordered(fs: SysFs, dir: Seq<char>)
    ensures
        ({
            let c = spec_collect(fs, dir);
            &&& forall|i: int, j: int| 0 <= i < j < c.temps.len() ==> #[trigger] c.temps[i].0 <= #[trigger] c.temps[j].0
            &&& forall|i: int, j: int| 0 <= i < j < c.fans.len() ==> #[trigger] c.fans[i].0 <= #[trigger] c.fans[j].0
            &&& forall|i: int, j: int| 0 <= i < j < c.pwms.len() ==> #[trigger] c.pwms[i].0 <= #[trigger] c.pwms[j].0
            &&& forall|i: int, j: int| 0 <= i < j < c.powers.len() ==> #[trigger] c.powers[i].0 <= #[trigger] c.powers[j].0
        }),
{
    let names = listed(fs, dir);
    lemma_sort_by_index_sorted(class_entries(names, TEMP));
    lemma_sort_by_index_sorted(class_entries(names, FAN));
    lemma_sort_by_index_sorted(class_entries(names, PWM));
    lemma_sort_by_index_sorted(class_entries(names, POWER));
    let c = spec_collect(fs, dir);
    let t = sort_by_index(class_entries(names, TEMP));
    assert forall|i: int, j: int| 0 <= i < j < c.temps.len() implies #[trigger] c.temps[i].0 <= #[trigger] c.temps[j].0 by {
        assert(c.temps[i].0 == t[i].0 && c.temps[j].0 == t[j].0);
    }
    let f = sort_by_index(class_entries(names, FAN));
    assert forall|i: int, j: int| 0 <= i < j < c.fans.len() implies #[trigger] c.fans[i].0 <= #[trigger] c.fans[j].0 by {
        assert(c.fans[i].0 == f[i].0 && c.fans[j].0 == f[j].0);
    }
    let p = sort_by_index(class_entries(names, PWM));
    assert forall|i: int, j: int| 0 <= i < j < c.pwms.len() implies #[trigger] c.pwms[i].0 <= #[trigger] c.pwms[j].0 by {
        assert(c.pwms[i].0 == p[i].0 && c.pwms[j].0 == p[j].0);
    }
    let w = sort_by_index(class_entries(names, POWER));
    assert forall|i: int, j: int| 0 <= i < j < c.powers.len() implies #[trigger] c.powers[i].0 <= #[trigger] c.powers[j].0 by {
        assert(c.powers[i].0 == w[i].0 && c.powers[j].0 == w[j].0);
    }
}

} // verus!
