//! Live sensor readings, in the integer units the kernel reports them in.
//!
//! Turning them into the displayed floating-point figures (°C, %, W, MHz) is
//! left to the caller; everything decided here is exact.

use vstd::prelude::*;
use crate::battery::{spec_supply_of_type, supply_of_type};
use crate::hwmon::{ChipView, HwmonChip, TempView};
use crate::sysfs::{join, opt_view, path_join, SysFs};
use crate::text::{
    chars_of, lines, lines_vec, parse_u64_chars, parse_uint, split_ws, split_ws_vec, views,
};

verus! {

pub const RAPL_ENERGY: &'static str = "/sys/class/powercap/intel-rapl:0/energy_uj";

pub const CPU_DIR: &'static str = "/sys/devices/system/cpu";

pub const PROC_STAT: &'static str = "/proc/stat";

/// A fan reading.
#[derive(Debug)]
pub struct FanReading {
    pub name: String,
    pub rpm: u64,
}

// ---------------------------------------------------------------------------
// Mains power
// ---------------------------------------------------------------------------

/// `ac_online`: the `online` flag of the first Mains supply.
pub open spec fn spec_ac_online(fs: SysFs) -> Option<bool> {
    match spec_supply_of_type(fs, "Mains"@) {
        Some(d) => match fs.spec_read_trim(path_join(d, "online"@)) {
            Some(v) => Some(v == "1"@),
            None => None,
        },
        None => None,
    }
}

/// Current AC/mains online state, if a Mains supply is present.
pub fn ac_online(fs: &SysFs) -> (r: Option<bool>)
    ensures
        r == spec_ac_online(*fs),
{
    match supply_of_type(fs, "Mains") {
        Some(d) => match fs.read_trim(&join(&d, "online")) {
            Some(v) => {
                let cs = chars_of(v.as_str());
                Some(crate::text::eq_str(&cs, "1"))
            },
            None => None,
        },
        None => None,
    }
}

/// The RAPL package energy counter, microjoules.
pub fn read_rapl_energy_uj(fs: &SysFs) -> (r: Option<u64>)
    ensures
        r == fs.spec_read_u64(RAPL_ENERGY@),
{
    fs.read_u64(&String::from_str(RAPL_ENERGY))
}

// ---------------------------------------------------------------------------
// CPU package temperature
// ---------------------------------------------------------------------------

/// The first chip named "coretemp".
pub open spec fn first_coretemp(chips: Seq<ChipView>) -> Option<ChipView>
    decreases chips.len(),
{
    if chips.len() == 0 {
        None
    } else if chips[0].name == Some("coretemp"@) {
        Some(chips[0])
    } else {
        first_coretemp(chips.drop_first())
    }
}

/// The reading of the first channel labelled "Package id 0" (none when it has
/// no reading or no channel has that label).
pub open spec fn package_reading(ts: Seq<TempView>) -> Option<i64>
    decreases ts.len(),
{
    if ts.len() == 0 {
        None
    } else if ts[0].1 == Some("Package id 0"@) {
        ts[0].2
    } else {
        package_reading(ts.drop_first())
    }
}

/// The highest reading among the channels that have one.
pub open spec fn max_reading(ts: Seq<TempView>) -> Option<i64>
    decreases ts.len(),
{
    if ts.len() == 0 {
        None
    } else {
        let r = max_reading(ts.drop_last());
        match ts.last().2 {
            None => r,
            Some(v) => match r {
                None => Some(v),
                Some(m) => Some(if v >= m { v } else { m }),
            },
        }
    }
}

/// `cpu_package_temp`: the coretemp package sensor, else its hottest core.
pub open spec fn spec_cpu_package_temp(chips: Seq<ChipView>) -> Option<i64> {
    match first_coretemp(chips) {
        None => None,
        Some(c) => match package_reading(c.temps) {
            Some(v) => Some(v),
            None => max_reading(c.temps),
        },
    }
}

fn is_word(s: &Option<String>, w: &str) -> (b: bool)
    ensures
        b == (opt_view(*s) == Some(w@)),
{
    match s {
        Some(x) => {
            let cs = chars_of(x.as_str());
            crate::text::eq_str(&cs, w)
        },
        None => false,
    }
}

/// CPU package temperature in millidegrees: the coretemp "Package id 0"
/// channel, falling back to the hottest coretemp channel.
pub fn cpu_package_temp(chips: &[HwmonChip]) -> (r: Option<i64>)
    ensures
        r == spec_cpu_package_temp(chips@.map_values(|c: HwmonChip| c@)),
{
    let ghost cv = chips@.map_values(|c: HwmonChip| c@);
    let mut i: usize = 0;
    assert(cv.skip(0) =~= cv);
    while i < chips.len()
        invariant
            i <= chips@.len(),
            cv == chips@.map_values(|c: HwmonChip| c@),
            first_coretemp(cv) == first_coretemp(cv.skip(i as int)),
        decreases chips@.len() - i,
    {
        assert(cv.skip(i as int)[0] == chips@[i as int]@);
        if is_word(&chips[i].name, "coretemp") {
            return coretemp_reading(&chips[i]);
        }
        assert(cv.skip(i as int).drop_first() =~= cv.skip(i + 1));
        i = i + 1;
    }
    None
}

fn package_of(ts: &Vec<crate::hwmon::TempChannel>) -> (r: Option<i64>)
    ensures
        r == package_reading(crate::hwmon::temp_views(ts@)),
{
    let ghost tv = crate::hwmon::temp_views(ts@);
    let mut i: usize = 0;
    assert(tv.skip(0) =~= tv);
    while i < ts.len()
        invariant
            i <= ts@.len(),
            tv == crate::hwmon::temp_views(ts@),
            package_reading(tv) == package_reading(tv.skip(i as int)),
        decreases ts@.len() - i,
    {
        assert(tv.skip(i as int)[0] == crate::hwmon::temp_view(ts@[i as int]));
        if is_word(&ts[i].label, "Package id 0") {
            return ts[i].millidegrees;
        }
        assert(tv.skip(i as int).drop_first() =~= tv.skip(i + 1));
        i = i + 1;
    }
    None
}

fn coretemp_reading(chip: &HwmonChip) -> (r: Option<i64>)
    ensures
        r == (match package_reading(chip@.temps) {
            Some(v) => Some(v),
            None => max_reading(chip@.temps),
        }),
{
    let ghost tv = chip@.temps;
    let ts = &chip.temps;
    match package_of(ts) {
        Some(v) => return Some(v),
        None => {},
    }
    let mut best: Option<i64> = None;
    let mut k: usize = 0;
    while k < ts.len()
        invariant
            k <= ts@.len(),
            tv == chip@.temps,
            ts@ == chip.temps@,
            best == max_reading(tv.take(k as int)),
        decreases ts@.len() - k,
    {
        assert(tv.take(k + 1).drop_last() =~= tv.take(k as int));
        assert(tv.take(k + 1).last() == crate::hwmon::temp_view(ts@[k as int]));
        match ts[k].millidegrees {
            Some(v) => {
                best = match best {
                    None => Some(v),
                    Some(m) => Some(if v >= m { v } else { m }),
                };
            },
            None => {},
        }
        k = k + 1;
    }
    assert(tv.take(ts@.len() as int) =~= tv);
    best
}

// ---------------------------------------------------------------------------
// CPU time counters
// ---------------------------------------------------------------------------

/// Aggregate CPU jiffies from /proc/stat. Utilisation needs two samples.
#[derive(Debug, Clone, Copy)]
pub struct CpuTimes {
    pub idle: u64,
    pub total: u64,
}

/// `u64` addition as the release build computes it (wrapping).
pub open spec fn wadd(x: u64, y: u64) -> u64 {
    if x + y > u64::MAX {
        (x + y - 0x1_0000_0000_0000_0000) as u64
    } else {
        (x + y) as u64
    }
}

/// The fields that parse as `u64`, in order (unparseable ones are skipped).
pub open spec fn u64_fields(ws: Seq<Seq<char>>) -> Seq<u64>
    decreases ws.len(),
{
    if ws.len() == 0 {
        seq![]
    } else {
        let rest = u64_fields(ws.drop_last());
        match parse_uint(ws.last(), u64::MAX as nat) {
            Some(v) => rest.push(v as u64),
            None => rest,
        }
    }
}

/// The sum of the values.
pub open spec fn wsum(vs: Seq<u64>) -> u64
    decreases vs.len(),
{
    if vs.len() == 0 {
        0
    } else {
        wadd(wsum(vs.drop_last()), vs.last())
    }
}

/// `CpuTimes::read` on the text of /proc/stat: the first line must be the
/// aggregate "cpu" line; idle is idle + iowait, total the sum of all counters.
pub open spec fn spec_parse_stat(stat: Seq<char>) -> Option<CpuTimes> {
    let ls = lines(stat);
    if ls.len() == 0 {
        None
    } else {
        let ws = split_ws(ls[0]);
        if ws.len() == 0 || ws[0] != "cpu"@ {
            None
        } else {
            let vals = u64_fields(ws.drop_first());
            if vals.len() < 4 {
                None
            } else {
                let iowait: u64 = if vals.len() > 4 { vals[4] } else { 0 };
                Some(CpuTimes { idle: wadd(vals[3], iowait), total: wsum(vals) })
            }
        }
    }
}

/// The busy and elapsed jiffies between an earlier and a later sample: none
/// when no time elapsed or either counter went backwards.
pub open spec fn spec_busy_window(older: CpuTimes, newer: CpuTimes) -> Option<(u64, u64)> {
    if newer.total < older.total || newer.idle < older.idle {
        None
    } else {
        let dt = (newer.total - older.total) as u64;
        let di = (newer.idle - older.idle) as u64;
        if dt == 0 {
            None
        } else {
            Some((if dt >= di { (dt - di) as u64 } else { 0 }, dt))
        }
    }
}

/// The busy share never exceeds the elapsed time, and a window always has
/// some elapsed time, so the utilisation lies between 0 and 100 percent.
pub proof fn lemma_busy_within_window(older: CpuTimes, newer: CpuTimes)
    ensures
        match spec_busy_window(older, newer) {
            Some((busy, elapsed)) => busy <= elapsed && elapsed > 0,
            None => true,
        },
        spec_busy_window(older, older) is None,
{
}

impl CpuTimes {
    /// Parse the aggregate counters from the text of /proc/stat.
    pub fn parse(stat: &str) -> (r: Option<CpuTimes>)
        ensures
            r == spec_parse_stat(stat@),
    {
        let cs = chars_of(stat);
        let ls = lines_vec(&cs);
        if ls.len() == 0 {
            return None;
        }
        assert(views(ls@)[0] == ls@[0]@);
        let ws = split_ws_vec(&ls[0]);
        let ghost wv = views(ws@);
        if ws.len() == 0 {
            return None;
        }
        assert(wv[0] == ws@[0]@);
        if !crate::text::eq_str(&ws[0], "cpu") {
            return None;
        }
        let mut vals: Vec<u64> = Vec::new();
        let mut i: usize = 1;
        let ghost rest = wv.drop_first();
        while i < ws.len()
            invariant
                1 <= i <= ws@.len(),
                wv == views(ws@),
                rest == wv.drop_first(),
                vals@ == u64_fields(rest.take(i - 1)),
            decreases ws@.len() - i,
        {
            assert(rest.take(i as int).drop_last() =~= rest.take(i - 1));
            assert(rest.take(i as int).last() == ws@[i as int]@);
            match parse_u64_chars(&ws[i]) {
                Some(v) => vals.push(v),
                None => {},
            }
            i = i + 1;
        }
        assert(rest.take(ws@.len() - 1) =~= rest);
        if vals.len() < 4 {
            return None;
        }
        let iowait: u64 = if vals.len() > 4 { vals[4] } else { 0 };
        let idle = vals[3].wrapping_add(iowait);
        let mut total: u64 = 0;
        let mut k: usize = 0;
        while k < vals.len()
            invariant
                k <= vals@.len(),
                total == wsum(vals@.take(k as int)),
            decreases vals@.len() - k,
        {
            assert(vals@.take(k + 1).drop_last() =~= vals@.take(k as int));
            total = total.wrapping_add(vals[k]);
            k = k + 1;
        }
        assert(vals@.take(vals@.len() as int) =~= vals@);
        Some(CpuTimes { idle, total })
    }

    /// The counters in /proc/stat, none when it is unreadable or malformed.
    pub fn read(fs: &SysFs) -> (r: Option<CpuTimes>)
        ensures
            r == (match fs.raw(PROC_STAT@) {
                Some(t) => spec_parse_stat(t),
                None => None,
            }),
    {
        match fs.read_raw(&String::from_str(PROC_STAT)) {
            Some(t) => CpuTimes::parse(t.as_str()),
            None => None,
        }
    }

    /// Busy and elapsed jiffies between this (earlier) sample and `newer`;
    /// the busy percentage is their ratio times 100.
    pub fn busy_window(&self, newer: &CpuTimes) -> (r: Option<(u64, u64)>)
        ensures
            r == spec_busy_window(*self, *newer),
    {
        let dt = match newer.total.checked_sub(self.total) {
            Some(d) => d,
            None => return None,
        };
        let di = match newer.idle.checked_sub(self.idle) {
            Some(d) => d,
            None => return None,
        };
        if dt == 0 {
            return None;
        }
        Some((dt.saturating_sub(di), dt))
    }
}

// ---------------------------------------------------------------------------
// Frequencies and battery
// ---------------------------------------------------------------------------

/// `cpufreq/scaling_cur_freq` (kHz) of each entry under the cpu directory
/// that has one, in listing order.
pub open spec fn cur_freqs(fs: SysFs, names: Seq<Seq<char>>) -> Seq<u64>
    decreases names.len(),
{
    if names.len() == 0 {
        seq![]
    } else {
        let rest = cur_freqs(fs, names.drop_last());
        match fs.spec_read_u64(path_join(path_join(CPU_DIR@, names.last()), "cpufreq/scaling_cur_freq"@)) {
            Some(v) => rest.push(v),
            None => rest,
        }
    }
}

pub open spec fn spec_cpu_freqs_khz(fs: SysFs) -> Seq<u64> {
    match fs.spec_list(CPU_DIR@) {
        Some(names) => cur_freqs(fs, names),
        None => seq![],
    }
}

/// The current frequency of every CPU that reports one, kHz.
pub fn cpu_freqs_khz(fs: &SysFs) -> (v: Vec<u64>)
    ensures
        v@ == spec_cpu_freqs_khz(*fs),
{
    let base = String::from_str(CPU_DIR);
    let names = match fs.list(&base) {
        Some(n) => n,
        None => return Vec::new(),
    };
    let ghost nv = crate::text::string_views(names@);
    let mut v: Vec<u64> = Vec::new();
    let mut i: usize = 0;
    while i < names.len()
        invariant
            i <= names@.len(),
            base@ == CPU_DIR@,
            nv == crate::text::string_views(names@),
            v@ == cur_freqs(*fs, nv.take(i as int)),
        decreases names@.len() - i,
    {
        assert(nv.take(i + 1).drop_last() =~= nv.take(i as int));
        assert(nv.take(i + 1).last() == names@[i as int]@);
        let dir = join(&base, names[i].as_str());
        match fs.read_u64(&join(&dir, "cpufreq/scaling_cur_freq")) {
            Some(khz) => v.push(khz),
            None => {},
        }
        i = i + 1;
    }
    assert(nv.take(names@.len() as int) =~= nv);
    v
}

/// Battery figures as the kernel reports them.
#[derive(Debug)]
pub struct BatteryReading {
    pub capacity_pct: Option<u64>,
    pub status: Option<String>,
    /// `power_now`, microwatts.
    pub power_uw: Option<u64>,
    /// `current_now`, microamperes (read only when `power_now` is absent).
    pub current_ua: Option<i64>,
    /// `voltage_now`, microvolts (read only when `power_now` is absent).
    pub voltage_uv: Option<u64>,
    pub ac_online: Option<bool>,
}

pub struct BatteryReadingView {
    pub capacity_pct: Option<u64>,
    pub status: Option<Seq<char>>,
    pub power_uw: Option<u64>,
    pub current_ua: Option<i64>,
    pub voltage_uv: Option<u64>,
    pub ac_online: Option<bool>,
}

impl View for BatteryReading {
    type V = BatteryReadingView;

    open spec fn view(&self) -> BatteryReadingView {
        BatteryReadingView {
            capacity_pct: self.capacity_pct,
            status: opt_view(self.status),
            power_uw: self.power_uw,
            current_ua: self.current_ua,
            voltage_uv: self.voltage_uv,
            ac_online: self.ac_online,
        }
    }
}

/// `battery`: the first Battery supply's figures; current and voltage are
/// consulted only when there is no power reading.
pub open spec fn spec_battery(fs: SysFs) -> Option<BatteryReadingView> {
    match spec_supply_of_type(fs, "Battery"@) {
        None => None,
        Some(d) => {
            let power = fs.spec_read_u64(path_join(d, "power_now"@));
            Some(
                BatteryReadingView {
                    capacity_pct: fs.spec_read_u64(path_join(d, "capacity"@)),
                    status: fs.spec_read_trim(path_join(d, "status"@)),
                    power_uw: power,
                    current_ua: if power is None {
                        fs.spec_read_i64(path_join(d, "current_now"@))
                    } else {
                        None
                    },
                    voltage_uv: if power is None {
                        fs.spec_read_u64(path_join(d, "voltage_now"@))
                    } else {
                        None
                    },
                    ac_online: spec_ac_online(fs),
                },
            )
        },
    }
}

/// The battery figures, if a battery supply is present.
pub fn battery(fs: &SysFs) -> (r: Option<BatteryReading>)
    ensures
        match r {
            Some(b) => spec_battery(*fs) == Some(b@),
            None => spec_battery(*fs) is None,
        },
{
    let d = match supply_of_type(fs, "Battery") {
        Some(d) => d,
        None => return None,
    };
    let power = fs.read_u64(&join(&d, "power_now"));
    let (current, voltage) = if power.is_none() {
        (fs.read_i64(&join(&d, "current_now")), fs.read_u64(&join(&d, "voltage_now")))
    } else {
        (None, None)
    };
    Some(
        BatteryReading {
            capacity_pct: fs.read_u64(&join(&d, "capacity")),
            status: fs.read_trim(&join(&d, "status")),
            power_uw: power,
            current_ua: current,
            voltage_uv: voltage,
            ac_online: ac_online(fs),
        },
    )
}

/// Current CPU package temperature in millidegrees, from the hwmon chips.
pub fn cpu_temp_mc(fs: &SysFs) -> (r: Option<i64>)
    ensures
        r == spec_cpu_package_temp(crate::hwmon::spec_read(*fs)),
{
    let chips = crate::hwmon::read(fs);
    proof {
        assert(chips@.map_values(|c: HwmonChip| c@) =~= crate::hwmon::chip_views(chips@));
    }
    cpu_package_temp(chips.as_slice())
}

} // verus!
