//! Battery charge-limit control via the standard power_supply sysfs interface
//! (`charge_control_end_threshold`), or the Acer fixed 80% `battery_limiter`
//! toggle. Capability-gated: when neither interface is exposed every write is
//! refused rather than guessed.

use vstd::prelude::*;
use crate::acer::{read_attr, sense_dir, spec_sense_dir, spec_write_attr, write_attr};
use crate::error::{ErrorKind, HalError};
use crate::plan::{
    applied, last_write, misses_last_char, lemma_applied_unwritten, lemma_applied_written, lemma_last_write_by_last_char, plan_fail,
    write_views, Plan, PlanView, Write,
};
use crate::sysfs::{join, lemma_join_last, opt_view, path_join, SysFs};
use crate::text::{dec_string, is_ws, lemma_dec_string, push_dec, string_views, trim, trim_end, trim_start};

verus! {

pub const PS_BASE: &'static str = "/sys/class/power_supply";

pub const END: &'static str = "charge_control_end_threshold";

pub const START: &'static str = "charge_control_start_threshold";

/// Minimum accepted end threshold: a cap too low can stop the pack charging.
pub const MIN_LIMIT: u8 = 20;

pub const MAX_LIMIT: u8 = 100;

/// The fixed cap the Acer `battery_limiter` toggle enforces when enabled.
pub const FIXED_CAP: u8 = 80;

/// Which charge-limit interface the running kernel/firmware exposes.
#[derive(Debug, Clone, Copy, PartialEq, Eq, Structural)]
pub enum LimitKind {
    /// Standard `charge_control_end_threshold`: any percent in range works.
    Threshold,
    /// Acer linuwu-sense `battery_limiter`: a fixed 80% cap on/off toggle only.
    FixedToggle,
}

pub const NO_INTERFACE: &'static str = "no battery charge-limit interface exposed by this kernel/firmware";

/// The first listed supply whose `type` is "Battery".
pub open spec fn first_of_type(fs: SysFs, base: Seq<char>, names: Seq<Seq<char>>, kind: Seq<char>) -> Option<Seq<char>>
    decreases names.len(),
{
    if names.len() == 0 {
        None
    } else if fs.spec_read_trim(path_join(path_join(base, names[0]), "type"@)) == Some(kind) {
        Some(path_join(base, names[0]))
    } else {
        first_of_type(fs, base, names.drop_first(), kind)
    }
}

/// The power supply directory of the given type (`supply_of_type`).
pub open spec fn spec_supply_of_type(fs: SysFs, kind: Seq<char>) -> Option<Seq<char>> {
    match fs.spec_list(PS_BASE@) {
        Some(names) => first_of_type(fs, PS_BASE@, names, kind),
        None => None,
    }
}

pub open spec fn spec_battery_dir(fs: SysFs) -> Option<Seq<char>> {
    spec_supply_of_type(fs, "Battery"@)
}

/// The first power supply directory whose `type` reads `kind`.
pub fn supply_of_type(fs: &SysFs, kind: &str) -> (r: Option<String>)
    ensures
        opt_view(r) == spec_supply_of_type(*fs, kind@),
{
    let base = String::from_str(PS_BASE);
    let names = match fs.list(&base) {
        Some(v) => v,
        None => return None,
    };
    let want = String::from_str(kind);
    let ghost nv = string_views(names@);
    let mut i: usize = 0;
    assert(nv.skip(0) =~= nv);
    while i < names.len()
        invariant
            i <= names@.len(),
            base@ == PS_BASE@,
            want@ == kind@,
            nv == string_views(names@),
            fs.spec_list(PS_BASE@) == Some(nv),
            first_of_type(*fs, PS_BASE@, nv, kind@) == first_of_type(*fs, PS_BASE@, nv.skip(i as int), kind@),
        decreases names@.len() - i,
    {
        assert(nv.skip(i as int)[0] == names@[i as int]@);
        let dir = join(&base, names[i].as_str());
        match fs.read_trim(&join(&dir, "type")) {
            Some(t) => {
                if t == want {
                    assert(fs.spec_read_trim(path_join(path_join(PS_BASE@, nv.skip(i as int)[0]), "type"@))
                        == Some(kind@));
                    assert(first_of_type(*fs, PS_BASE@, nv.skip(i as int), kind@) == Some(dir@));
                    return Some(dir);
                }
            },
            None => {},
        }
        assert(nv.skip(i as int).drop_first() =~= nv.skip(i + 1));
        i = i + 1;
    }
    None
}

fn battery_dir(fs: &SysFs) -> (r: Option<String>)
    ensures
        opt_view(r) == spec_battery_dir(*fs),
{
    supply_of_type(fs, "Battery")
}

pub open spec fn has_threshold(fs: SysFs) -> bool {
    match spec_battery_dir(fs) {
        Some(d) => fs.spec_exists(path_join(d, END@)),
        None => false,
    }
}

pub open spec fn has_toggle(fs: SysFs) -> bool {
    match spec_sense_dir(fs) {
        Some(s) => fs.spec_exists(path_join(s, "battery_limiter"@)),
        None => false,
    }
}

pub open spec fn spec_limit_kind(fs: SysFs) -> Option<LimitKind> {
    if has_threshold(fs) {
        Some(LimitKind::Threshold)
    } else if has_toggle(fs) {
        Some(LimitKind::FixedToggle)
    } else {
        None
    }
}

/// Which charge-limit interface exists, preferring the arbitrary-percent sysfs
/// threshold over the Acer fixed-cap toggle.
pub fn limit_kind(fs: &SysFs) -> (r: Option<LimitKind>)
    ensures
        r == spec_limit_kind(*fs),
{
    match battery_dir(fs) {
        Some(d) => {
            if fs.path_exists(&join(&d, END)) {
                return Some(LimitKind::Threshold);
            }
        },
        None => {},
    }
    match sense_dir(fs) {
        Some(s) => {
            if fs.path_exists(&join(&s, "battery_limiter")) {
                return Some(LimitKind::FixedToggle);
            }
        },
        None => {},
    }
    None
}

/// True when any charge-limit interface exists.
pub fn supported(fs: &SysFs) -> (b: bool)
    ensures
        b == spec_limit_kind(*fs) is Some,
{
    limit_kind(fs).is_some()
}

pub open spec fn threshold_value(fs: SysFs) -> Option<u64> {
    match spec_battery_dir(fs) {
        Some(d) => fs.spec_read_u64(path_join(d, END@)),
        None => None,
    }
}

pub open spec fn toggle_on(fs: SysFs) -> bool {
    match spec_sense_dir(fs) {
        Some(s) => fs.spec_read_trim(path_join(s, "battery_limiter"@)) == Some("1"@),
        None => false,
    }
}

pub open spec fn spec_get_limit(fs: SysFs) -> Option<u8> {
    match threshold_value(fs) {
        Some(v) => Some(if v < 100 { v as u8 } else { 100u8 }),
        None => if toggle_on(fs) {
            Some(FIXED_CAP)
        } else {
            None
        },
    }
}

/// The current charge cap: the threshold (at most 100), else 80 when the Acer
/// toggle is on.
pub fn get_limit(fs: &SysFs) -> (r: Option<u8>)
    ensures
        r == spec_get_limit(*fs),
{
    match battery_dir(fs) {
        Some(d) => match fs.read_u64(&join(&d, END)) {
            Some(v) => {
                return Some(if v < 100 { v as u8 } else { 100u8 });
            },
            None => {},
        },
        None => {},
    }
    match sense_dir(fs) {
        Some(s) => match read_attr(fs, &s, "battery_limiter") {
            Some(v) => {
                if v == String::from_str("1") {
                    return Some(FIXED_CAP);
                }
            },
            None => {},
        },
        None => {},
    }
    None
}

pub open spec fn range_message(percent: u8) -> Seq<char> {
    "charge limit must be 20..=100, got "@ + dec_string(percent as nat)
}

/// `set_limit` on the threshold interface: lower `start` first when it would
/// not stay below the new end (best effort), then write `end`. The start
/// threshold is compared in full, so a reading above 255 is lowered too.
pub open spec fn threshold_writes(fs: SysFs, dir: Seq<char>, percent: u8) -> Seq<(Seq<char>, Seq<char>, bool)> {
    let start = path_join(dir, START@);
    let lower_start = match fs.spec_read_u64(start) {
        Some(cur) => if fs.spec_exists(start) && cur >= percent {
            seq![(start, dec_string((if percent >= 5 { percent - 5 } else { 0 }) as nat), false)]
        } else {
            seq![]
        },
        None => seq![],
    };
    lower_start + seq![(path_join(dir, END@), dec_string(percent as nat), true)]
}

pub open spec fn spec_set_limit(fs: SysFs, percent: u8) -> PlanView {
    if !(MIN_LIMIT <= percent && percent <= MAX_LIMIT) {
        plan_fail(ErrorKind::InvalidInput, range_message(percent))
    } else if spec_limit_kind(fs) == Some(LimitKind::Threshold) {
        (threshold_writes(fs, spec_battery_dir(fs)->0, percent), Ok(()))
    } else if spec_limit_kind(fs) == Some(LimitKind::FixedToggle) {
        spec_write_attr(fs, spec_sense_dir(fs)->0, "battery_limiter"@, if percent < 100 { "1"@ } else { "0"@ })
    } else {
        plan_fail(ErrorKind::Unsupported, NO_INTERFACE@)
    }
}

/// Set the charge end threshold. Validates the range and refuses when no
/// interface exists instead of writing to an unknown location.
pub fn set_limit(fs: &SysFs, percent: u8) -> (p: Plan)
    ensures
        p@ == spec_set_limit(*fs, percent),
{
    if !(MIN_LIMIT <= percent && percent <= MAX_LIMIT) {
        let mut msg = String::from_str("charge limit must be 20..=100, got ");
        push_dec(&mut msg, percent as u64);
        let p = Plan::fail(HalError { kind: ErrorKind::InvalidInput, message: msg });
        assert(p@.0 =~= seq![]);
        return p;
    }
    match battery_dir(fs) {
        Some(dir) => {
            let end = join(&dir, END);
            if fs.path_exists(&end) {
                let mut writes: Vec<Write> = Vec::new();
                let start = join(&dir, START);
                if fs.path_exists(&start) {
                    match fs.read_u64(&start) {
                        Some(cur) => {
                            if cur >= percent as u64 {
                                let mut v = String::new();
                                push_dec(&mut v, (if percent >= 5 { percent - 5 } else { 0 }) as u64);
                                writes.push(Write { path: start, value: v, required: false });
                            }
                        },
                        None => {},
                    }
                }
                let ghost before = write_views(writes@);
                let mut v = String::new();
                push_dec(&mut v, percent as u64);
                writes.push(Write { path: end, value: v, required: true });
                let p = Plan { writes, outcome: Ok(()) };
                assert(p@.0 =~= threshold_writes(*fs, dir@, percent));
                return p;
            }
        },
        None => {},
    }
    match sense_dir(fs) {
        Some(s) => {
            if fs.path_exists(&join(&s, "battery_limiter")) {
                return write_attr(fs, &s, "battery_limiter", String::from_str(if percent < 100 { "1" } else { "0" }));
            }
        },
        None => {},
    }
    let p = Plan::fail(HalError { kind: ErrorKind::Unsupported, message: String::from_str(NO_INTERFACE) });
    assert(p@.0 =~= seq![]);
    p
}

/// An out-of-range limit is refused before anything is written, whatever the
/// machine exposes.
pub proof fn lemma_out_of_range_refused(fs: SysFs, percent: u8)
    requires
        percent < MIN_LIMIT || percent > MAX_LIMIT,
    ensures
        spec_set_limit(fs, percent).0.len() == 0,
        spec_set_limit(fs, percent).1 matches Err((k, _)) && k == ErrorKind::InvalidInput,
{
}

/// On the threshold interface the end threshold receives exactly the requested
/// percentage, and a lowered start threshold stays below it.
pub proof fn lemma_threshold_writes_percent(fs: SysFs, percent: u8)
    requires
        MIN_LIMIT <= percent <= MAX_LIMIT,
        spec_limit_kind(fs) == Some(LimitKind::Threshold),
    ensures
        spec_set_limit(fs, percent).1 is Ok,
        spec_set_limit(fs, percent).0.last() == (
            path_join(spec_battery_dir(fs)->0, END@),
            dec_string(percent as nat),
            true,
        ),
{
}

/// Without a charge-limit interface an in-range request writes nothing and
/// fails as unsupported; nothing is guessed.
pub proof fn lemma_no_interface_refused(fs: SysFs, percent: u8)
    requires
        MIN_LIMIT <= percent <= MAX_LIMIT,
        spec_limit_kind(fs) is None,
    ensures
        spec_set_limit(fs, percent) == plan_fail(ErrorKind::Unsupported, NO_INTERFACE@),
{
}

/// Whatever the files hold, the limit read is at most 100.
pub proof fn lemma_limit_at_most_100(fs: SysFs)
    ensures
        spec_get_limit(fs) matches Some(v) ==> v <= 100,
{
}

proof fn lemma_first_of_type_kept(
    fs: SysFs,
    ws: Seq<(Seq<char>, Seq<char>, bool)>,
    after: SysFs,
    names: Seq<Seq<char>>,
)
    requires
        applied(fs, ws, after),
        misses_last_char(ws, 'e'),
    ensures
        first_of_type(after, PS_BASE@, names, "Battery"@) == first_of_type(fs, PS_BASE@, names, "Battery"@),
    decreases names.len(),
{
    if names.len() > 0 {
        reveal_strlit("type");
        let tp = path_join(path_join(PS_BASE@, names[0]), "type"@);
        lemma_join_last(path_join(PS_BASE@, names[0]), "type"@);
        lemma_last_write_by_last_char(ws, tp);
        lemma_applied_unwritten(fs, ws, after, tp);
        lemma_first_of_type_kept(fs, ws, after, names.drop_first());
    }
}

/// Writes that miss the supply listing and every `type` file leave the
/// battery directory where it was.
proof fn lemma_battery_dir_kept(fs: SysFs, ws: Seq<(Seq<char>, Seq<char>, bool)>, after: SysFs)
    requires
        applied(fs, ws, after),
        misses_last_char(ws, 'e'),
        misses_last_char(ws, 'y'),
    ensures
        spec_battery_dir(after) == spec_battery_dir(fs),
{
    reveal_strlit("/sys/class/power_supply");
    lemma_last_write_by_last_char(ws, PS_BASE@);
    lemma_applied_unwritten(fs, ws, after, PS_BASE@);
    match fs.spec_list(PS_BASE@) {
        Some(names) => lemma_first_of_type_kept(fs, ws, after, names),
        None => {},
    }
}

/// Writes that miss every `fan_speed` file leave the Acer attribute directory
/// where it was.
proof fn lemma_sense_dir_kept(fs: SysFs, ws: Seq<(Seq<char>, Seq<char>, bool)>, after: SysFs)
    requires
        applied(fs, ws, after),
        misses_last_char(ws, 'd'),
    ensures
        spec_sense_dir(after) == spec_sense_dir(fs),
{
    lemma_sense_candidate_kept(fs, ws, after, 0);
    lemma_sense_candidate_kept(fs, ws, after, 1);
    lemma_sense_candidate_kept(fs, ws, after, 2);
    lemma_sense_candidate_kept(fs, ws, after, 3);
}

proof fn lemma_sense_candidate_kept(fs: SysFs, ws: Seq<(Seq<char>, Seq<char>, bool)>, after: SysFs, i: int)
    requires
        applied(fs, ws, after),
        misses_last_char(ws, 'd'),
    ensures
        crate::acer::is_sense_dir(after, crate::acer::sense_candidate(i))
            == crate::acer::is_sense_dir(fs, crate::acer::sense_candidate(i)),
{
    reveal_strlit("fan_speed");
    let p = path_join(crate::acer::sense_candidate(i), "fan_speed"@);
    lemma_join_last(crate::acer::sense_candidate(i), "fan_speed"@);
    lemma_last_write_by_last_char(ws, p);
    lemma_applied_unwritten(fs, ws, after, p);
}

/// The decimal text of a number is its own trimmed reading.
proof fn lemma_dec_trimmed(n: nat)
    ensures
        trim(dec_string(n)) == dec_string(n),
{
    let d = dec_string(n);
    lemma_dec_string(n);
    assert(crate::text::is_digit(d[0]));
    assert(trim_start(d) == d);
    assert(crate::text::is_digit(d.last()));
    assert(trim_end(d) == d);
}

/// Reading back a limit that was set: once every write of `set_limit(p)` has
/// been stored, `get_limit` gives `p` on the threshold interface, and on the
/// Acer toggle the fixed 80% cap (none when `p` is 100).
pub proof fn lemma_limit_read_back(fs: SysFs, percent: u8, after: SysFs)
    requires
        MIN_LIMIT <= percent <= MAX_LIMIT,
        spec_limit_kind(fs) is Some,
        applied(fs, spec_set_limit(fs, percent).0, after),
    ensures
        spec_get_limit(after) == (if spec_limit_kind(fs) == Some(LimitKind::Threshold) {
            Some(percent)
        } else if percent < 100 {
            Some(FIXED_CAP)
        } else {
            None
        }),
{
    let ws = spec_set_limit(fs, percent).0;
    reveal_strlit("charge_control_end_threshold");
    reveal_strlit("charge_control_start_threshold");
    reveal_strlit("battery_limiter");
    if spec_limit_kind(fs) == Some(LimitKind::Threshold) {
        let d = spec_battery_dir(fs)->0;
        let endp = path_join(d, END@);
        let startp = path_join(d, START@);
        lemma_join_last(d, END@);
        lemma_join_last(d, START@);
        assert(ws == threshold_writes(fs, d, percent));
        assert forall|i: int| 0 <= i < ws.len() implies (#[trigger] ws[i]).0 == endp || ws[i].0 == startp by {}
        assert(misses_last_char(ws, 'e'));
        assert(misses_last_char(ws, 'y'));
        lemma_battery_dir_kept(fs, ws, after);
        assert(ws.last().0 == endp);
        assert(last_write(ws, endp) == Some(dec_string(percent as nat)));
        lemma_applied_written(fs, ws, after, endp, dec_string(percent as nat));
        lemma_dec_trimmed(percent as nat);
        lemma_dec_string(percent as nat);
        assert(after.spec_read_trim(endp) == Some(dec_string(percent as nat)));
        assert(after.spec_read_u64(endp) == Some(percent as u64));
    } else {
        let sd = spec_sense_dir(fs)->0;
        let lp = path_join(sd, "battery_limiter"@);
        lemma_join_last(sd, "battery_limiter"@);
        let v = if percent < 100 { "1"@ } else { "0"@ };
        assert(ws == seq![(lp, v, true)]);
        assert(misses_last_char(ws, 'e'));
        assert(misses_last_char(ws, 'y'));
        assert(misses_last_char(ws, 'd'));
        lemma_battery_dir_kept(fs, ws, after);
        lemma_sense_dir_kept(fs, ws, after);
        match spec_battery_dir(fs) {
            Some(d) => {
                let endp = path_join(d, END@);
                lemma_join_last(d, END@);
                lemma_last_write_by_last_char(ws, endp);
                lemma_applied_unwritten(fs, ws, after, endp);
            },
            None => {},
        }
        assert(threshold_value(after) is None);
        assert(ws.last().0 == lp);
        assert(last_write(ws, lp) == Some(v));
        lemma_applied_written(fs, ws, after, lp, v);
        reveal_strlit("1");
        reveal_strlit("0");
        assert(!is_ws(v[0]));
        assert(trim_start(v) == v);
        assert(trim_end(v) == v);
        assert(after.spec_read_trim(lp) == Some(v));
    }
}

} // verus!
