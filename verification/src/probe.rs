//! The read-only hardware discovery report.

use vstd::prelude::*;
use crate::dmi::{self, DmiInfo};
use crate::ec::{self, contents_view, EcInfo};
use crate::hwmon::{self, chip_views, listed, ChipView, HwmonChip};
use crate::input::{self, device_views, InputDevice, InputDeviceView};
use crate::leds::{self, led_views, LedDevice, LedDeviceView};
use crate::pci::{self, pci_views, PciDevice, PciDeviceView};
use crate::power::{self, supply_views, PowerSupply, PowerSupplyView};
use crate::sysfs::{join, opt_view, SysFs};
use crate::text::{
    append_str, chars_of, find, find_from, has_prefix, lines, lines_vec, slice_vec, sort_seq,
    sort_strings, split_ws, split_ws_vec, starts_with, string_of, string_views, trim, trimmed, views,
};
use crate::wmi::{self, wmi_views, AcerPlatform, WmiDevice, WmiDeviceView, GAMING_LABEL};

verus! {

pub const PROC_STATUS: &'static str = "/proc/self/status";

pub const PROC_CPUINFO: &'static str = "/proc/cpuinfo";

pub const INPUT_DEVICES: &'static str = "/proc/bus/input/devices";

pub const ACPI_TABLES: &'static str = "/sys/firmware/acpi/tables";

pub const NOT_ROOT_NOTE: &'static str = "Not running as root: EC dump and ACPI table listing are unavailable. Re-run with sudo for a complete report.";

// ---------------------------------------------------------------------------
// Privilege
// ---------------------------------------------------------------------------

/// The first line that starts with `p`.
pub open spec fn first_line_with(ls: Seq<Seq<char>>, p: Seq<char>) -> Option<Seq<char>>
    decreases ls.len(),
{
    if ls.len() == 0 {
        None
    } else if starts_with(ls[0], p) {
        Some(ls[0])
    } else {
        first_line_with(ls.drop_first(), p)
    }
}

/// The effective uid (third field of the `Uid:` line of /proc/self/status)
/// is 0.
pub open spec fn spec_euid_is_root(status: Seq<char>) -> bool {
    match first_line_with(lines(status), "Uid:"@) {
        Some(l) => split_ws(l).len() > 2 && split_ws(l)[2] == "0"@,
        None => false,
    }
}

fn first_line_starting(ls: &Vec<Vec<char>>, p: &Vec<char>) -> (r: Option<usize>)
    ensures
        match r {
            Some(i) => i < ls@.len() && first_line_with(views(ls@), p@) == Some(ls@[i as int]@),
            None => first_line_with(views(ls@), p@) is None,
        },
{
    let ghost lv = views(ls@);
    let mut i: usize = 0;
    assert(lv.skip(0) =~= lv);
    while i < ls.len()
        invariant
            i <= ls@.len(),
            lv == views(ls@),
            first_line_with(lv, p@) == first_line_with(lv.skip(i as int), p@),
        decreases ls@.len() - i,
    {
        assert(lv.skip(i as int)[0] == ls@[i as int]@);
        if has_prefix(&ls[i], p) {
            return Some(i);
        }
        assert(lv.skip(i as int).drop_first() =~= lv.skip(i + 1));
        i = i + 1;
    }
    None
}

/// Does the process status text say the effective uid is root?
pub fn euid_is_root(status: &str) -> (b: bool)
    ensures
        b == spec_euid_is_root(status@),
{
    let ls = lines_vec(&chars_of(status));
    match first_line_starting(&ls, &chars_of("Uid:")) {
        Some(i) => {
            let ws = split_ws_vec(&ls[i]);
            if ws.len() > 2 {
                assert(views(ws@)[2] == ws@[2]@);
                crate::text::eq_str(&ws[2], "0")
            } else {
                false
            }
        },
        None => false,
    }
}

/// `running_as_root`: the trimmed status file says the effective uid is 0.
pub open spec fn spec_running_as_root(fs: SysFs) -> bool {
    match fs.spec_read_trim(PROC_STATUS@) {
        Some(s) => spec_euid_is_root(s),
        None => false,
    }
}

pub fn running_as_root(fs: &SysFs) -> (b: bool)
    ensures
        b == spec_running_as_root(*fs),
{
    match fs.read_trim(&String::from_str(PROC_STATUS)) {
        Some(s) => euid_is_root(s.as_str()),
        None => false,
    }
}

// ---------------------------------------------------------------------------
// Kernel and CPU
// ---------------------------------------------------------------------------

#[derive(Debug)]
pub struct Kernel {
    pub release: Option<String>,
    pub version: Option<String>,
    pub arch: &'static str,
}

/// The kernel release and version strings, and the architecture the program
/// was built for.
pub fn read_kernel(fs: &SysFs, arch: &'static str) -> (k: Kernel)
    ensures
        opt_view(k.release) == fs.spec_read_trim("/proc/sys/kernel/osrelease"@),
        opt_view(k.version) == fs.spec_read_trim("/proc/version"@),
        k.arch == arch,
{
    Kernel {
        release: fs.read_trim(&String::from_str("/proc/sys/kernel/osrelease")),
        version: fs.read_trim(&String::from_str("/proc/version")),
        arch,
    }
}

#[derive(Debug)]
pub struct Cpu {
    pub model: Option<String>,
    pub vendor: Option<String>,
    pub cores_logical: usize,
}

/// What the /proc/cpuinfo scan has found so far.
pub struct CpuScan {
    pub model: Option<Seq<char>>,
    pub vendor: Option<Seq<char>>,
    pub cores: nat,
}

/// The trimmed text after the first colon of a line.
pub open spec fn after_colon(line: Seq<char>) -> Option<Seq<char>> {
    let i = find(line, seq![':']);
    if i < 0 {
        None
    } else {
        Some(trim(line.skip(i + 1)))
    }
}

pub open spec fn cpu_step(f: CpuScan, line: Seq<char>) -> CpuScan {
    if starts_with(line, "processor"@) {
        CpuScan { cores: f.cores + 1, ..f }
    } else if f.model is None && starts_with(line, "model name"@) {
        CpuScan { model: after_colon(line), ..f }
    } else if f.vendor is None && starts_with(line, "vendor_id"@) {
        CpuScan { vendor: after_colon(line), ..f }
    } else {
        f
    }
}

pub open spec fn cpu_scan(ls: Seq<Seq<char>>) -> CpuScan
    decreases ls.len(),
{
    if ls.len() == 0 {
        CpuScan { model: None, vendor: None, cores: 0 }
    } else {
        cpu_step(cpu_scan(ls.drop_last()), ls.last())
    }
}

proof fn lemma_cores_bound(ls: Seq<Seq<char>>)
    ensures
        cpu_scan(ls).cores <= ls.len(),
    decreases ls.len(),
{
    if ls.len() > 0 {
        lemma_cores_bound(ls.drop_last());
    }
}

fn after_colon_of(line: &Vec<char>) -> (r: Option<String>)
    ensures
        opt_view(r) == after_colon(line@),
{
    let mut colon: Vec<char> = Vec::new();
    colon.push(':');
    assert(colon@ =~= seq![':']);
    assert(line@.skip(0) =~= line@);
    match find_from(line, &colon, 0) {
        Some(i) => {
            proof {
                crate::text::lemma_find(line@, colon@);
            }
            assert(i < line.len());
            let rest = slice_vec(line, i + 1, line.len());
            assert(rest@ =~= line@.skip(i + 1));
            let t = trimmed(&rest);
            Some(string_of(t.as_slice()))
        },
        None => None,
    }
}

/// Model, vendor and logical core count from the text of /proc/cpuinfo.
pub fn parse_cpuinfo(info: &str) -> (c: Cpu)
    ensures
        opt_view(c.model) == cpu_scan(lines(info@)).model,
        opt_view(c.vendor) == cpu_scan(lines(info@)).vendor,
        c.cores_logical == cpu_scan(lines(info@)).cores,
{
    let ls = lines_vec(&chars_of(info));
    let ghost lv = views(ls@);
    let processor = chars_of("processor");
    let model_name = chars_of("model name");
    let vendor_id = chars_of("vendor_id");
    let mut model: Option<String> = None;
    let mut vendor: Option<String> = None;
    let mut cores: usize = 0;
    let mut i: usize = 0;
    while i < ls.len()
        invariant
            i <= ls@.len(),
            lv == views(ls@),
            lv == lines(info@),
            processor@ == "processor"@,
            model_name@ == "model name"@,
            vendor_id@ == "vendor_id"@,
            cores <= i,
            opt_view(model) == cpu_scan(lv.take(i as int)).model,
            opt_view(vendor) == cpu_scan(lv.take(i as int)).vendor,
            cores == cpu_scan(lv.take(i as int)).cores,
        decreases ls@.len() - i,
    {
        assert(lv.take(i + 1).drop_last() =~= lv.take(i as int));
        assert(lv.take(i + 1).last() == ls@[i as int]@);
        let line = &ls[i];
        if has_prefix(line, &processor) {
            cores = cores + 1;
        } else if model.is_none() && has_prefix(line, &model_name) {
            model = after_colon_of(line);
        } else if vendor.is_none() && has_prefix(line, &vendor_id) {
            vendor = after_colon_of(line);
        }
        i = i + 1;
    }
    assert(lv.take(ls@.len() as int) =~= lv);
    Cpu { model, vendor, cores_logical: cores }
}

/// `read_cpu`: /proc/cpuinfo, read as empty when it cannot be read.
pub fn read_cpu(fs: &SysFs) -> (c: Cpu)
    ensures
        ({
            let info = match fs.raw(PROC_CPUINFO@) {
                Some(t) => t,
                None => seq![],
            };
            &&& opt_view(c.model) == cpu_scan(lines(info)).model
            &&& opt_view(c.vendor) == cpu_scan(lines(info)).vendor
            &&& c.cores_logical == cpu_scan(lines(info)).cores
        }),
{
    match fs.read_raw(&String::from_str(PROC_CPUINFO)) {
        Some(t) => parse_cpuinfo(t.as_str()),
        None => {
            proof {
                reveal_strlit("");
            }
            parse_cpuinfo("")
        },
    }
}

// ---------------------------------------------------------------------------
// ACPI tables
// ---------------------------------------------------------------------------

/// The ACPI table names (regular files), sorted; none when the directory
/// cannot be listed.
pub open spec fn spec_acpi_tables(fs: SysFs) -> Option<Seq<Seq<char>>> {
    match fs.spec_list(ACPI_TABLES@) {
        Some(names) => Some(sort_seq(wmi::files_in(fs, ACPI_TABLES@, names))),
        None => None,
    }
}

/// The ACPI table names, or `None` when the directory cannot be listed.
pub fn read_acpi_tables(fs: &SysFs) -> (r: Option<Vec<String>>)
    ensures
        match r {
            Some(v) => spec_acpi_tables(*fs) == Some(string_views(v@)),
            None => spec_acpi_tables(*fs) is None,
        },
{
    let base = String::from_str(ACPI_TABLES);
    match fs.list(&base) {
        Some(names) => Some(sort_strings(file_list(fs, &base, &names))),
        None => None,
    }
}

fn file_list(fs: &SysFs, dir: &String, names: &Vec<String>) -> (v: Vec<String>)
    ensures
        string_views(v@) == wmi::files_in(*fs, dir@, string_views(names@)),
{
    let ghost nv = string_views(names@);
    let mut v: Vec<String> = Vec::new();
    let mut i: usize = 0;
    while i < names.len()
        invariant
            i <= names@.len(),
            nv == string_views(names@),
            string_views(v@) == wmi::files_in(*fs, dir@, nv.take(i as int)),
        decreases names@.len() - i,
    {
        assert(nv.take(i + 1).drop_last() =~= nv.take(i as int));
        assert(nv.take(i + 1).last() == names@[i as int]@);
        if fs.is_file(&join(dir, names[i].as_str())) {
            let ghost before = string_views(v@);
            v.push(names[i].clone());
            assert(string_views(v@) =~= before.push(names@[i as int]@));
        }
        i = i + 1;
    }
    assert(nv.take(names@.len() as int) =~= nv);
    v
}

// ---------------------------------------------------------------------------
// Capability summary
// ---------------------------------------------------------------------------

#[derive(Debug)]
pub struct CapabilitySummary {
    pub temperatures_readable: bool,
    pub fan_rpm_readable: bool,
    pub pwm_present: bool,
    pub power_readable: bool,
    pub acer_wmi_platform_present: bool,
    pub acer_gaming_wmi_guid_present: bool,
    pub ec_debugfs_readable: bool,
    pub rgb_led_present: bool,
    pub kbd_backlight_present: bool,
    pub battery_charge_limit_supported: bool,
    pub hotkey_candidates: usize,
    pub nvidia_dgpu_present: bool,
}

pub open spec fn chip_has_temp(c: ChipView) -> bool {
    exists|j: int| 0 <= j < c.temps.len() && (#[trigger] c.temps[j]).2 is Some
}

pub open spec fn chip_has_rpm(c: ChipView) -> bool {
    exists|j: int| 0 <= j < c.fans.len() && (#[trigger] c.fans[j]).2 is Some
}

pub open spec fn chip_has_power(c: ChipView) -> bool {
    exists|j: int| 0 <= j < c.powers.len() && (#[trigger] c.powers[j]).2 is Some
}

/// The number of hotkey candidates among the devices.
pub open spec fn hotkey_count(ds: Seq<InputDeviceView>) -> nat
    decreases ds.len(),
{
    if ds.len() == 0 {
        0
    } else {
        hotkey_count(ds.drop_last()) + if ds.last().hotkey_candidate { 1nat } else { 0nat }
    }
}

proof fn lemma_hotkey_count_bound(ds: Seq<InputDeviceView>)
    ensures
        hotkey_count(ds) <= ds.len(),
    decreases ds.len(),
{
    if ds.len() > 0 {
        lemma_hotkey_count_bound(ds.drop_last());
    }
}

/// What the discovered hardware can do, as the report summarises it.
pub open spec fn spec_summary(
    chips: Seq<ChipView>,
    wmis: Seq<WmiDeviceView>,
    platform_present: bool,
    ec_readable: bool,
    leds: Seq<LedDeviceView>,
    power: Seq<PowerSupplyView>,
    inputs: Seq<InputDeviceView>,
    pci: Seq<PciDeviceView>,
    s: CapabilitySummary,
) -> bool {
    &&& s.temperatures_readable == (exists|i: int| 0 <= i < chips.len() && chip_has_temp(#[trigger] chips[i]))
    &&& s.fan_rpm_readable == (exists|i: int| 0 <= i < chips.len() && chip_has_rpm(#[trigger] chips[i]))
    &&& s.pwm_present == (exists|i: int| 0 <= i < chips.len() && (#[trigger] chips[i]).pwms.len() > 0)
    &&& s.power_readable == (exists|i: int| 0 <= i < chips.len() && chip_has_power(#[trigger] chips[i]))
    &&& s.acer_wmi_platform_present == platform_present
    &&& s.acer_gaming_wmi_guid_present == (exists|i: int|
        0 <= i < wmis.len() && (#[trigger] wmis[i]).known == Some(GAMING_LABEL@))
    &&& s.ec_debugfs_readable == ec_readable
    &&& s.rgb_led_present == (exists|i: int| 0 <= i < leds.len() && (#[trigger] leds[i]).multi_intensity is Some)
    &&& s.kbd_backlight_present == (exists|i: int| 0 <= i < leds.len() && (#[trigger] leds[i]).is_keyboard_candidate)
    &&& s.battery_charge_limit_supported == (exists|i: int|
        0 <= i < power.len() && (#[trigger] power[i]).charge_limit_supported)
    &&& s.hotkey_candidates == hotkey_count(inputs)
    &&& s.nvidia_dgpu_present == (exists|i: int| 0 <= i < pci.len() && (#[trigger] pci[i]).vendor_name == Some("NVIDIA"@))
}

fn any_temp(chips: &Vec<HwmonChip>) -> (b: bool)
    ensures
        b == (exists|i: int| 0 <= i < chips@.len() && chip_has_temp(#[trigger] chip_views(chips@)[i])),
{
    let ghost cv = chip_views(chips@);
    let mut i: usize = 0;
    while i < chips.len()
        invariant
            i <= chips@.len(),
            cv == chip_views(chips@),
            forall|k: int| 0 <= k < i ==> !chip_has_temp(#[trigger] cv[k]),
        decreases chips@.len() - i,
    {
        let ts = &chips[i].temps;
        let mut j: usize = 0;
        while j < ts.len()
            invariant
                j <= ts@.len(),
                cv == chip_views(chips@),
                i < chips@.len(),
                ts@ == chips@[i as int].temps@,
                forall|k: int| 0 <= k < j ==> (#[trigger] cv[i as int].temps[k]).2 is None,
            decreases ts@.len() - j,
        {
            assert(cv[i as int].temps[j as int] == crate::hwmon::temp_view(ts@[j as int]));
            if ts[j].millidegrees.is_some() {
                assert(chip_has_temp(cv[i as int]));
                return true;
            }
            j = j + 1;
        }
        i = i + 1;
    }
    false
}

fn any_rpm(chips: &Vec<HwmonChip>) -> (b: bool)
    ensures
        b == (exists|i: int| 0 <= i < chips@.len() && chip_has_rpm(#[trigger] chip_views(chips@)[i])),
{
    let ghost cv = chip_views(chips@);
    let mut i: usize = 0;
    while i < chips.len()
        invariant
            i <= chips@.len(),
            cv == chip_views(chips@),
            forall|k: int| 0 <= k < i ==> !chip_has_rpm(#[trigger] cv[k]),
        decreases chips@.len() - i,
    {
        let fs = &chips[i].fans;
        let mut j: usize = 0;
        while j < fs.len()
            invariant
                j <= fs@.len(),
                cv == chip_views(chips@),
                i < chips@.len(),
                fs@ == chips@[i as int].fans@,
                forall|k: int| 0 <= k < j ==> (#[trigger] cv[i as int].fans[k]).2 is None,
            decreases fs@.len() - j,
        {
            assert(cv[i as int].fans[j as int] == crate::hwmon::fan_view(fs@[j as int]));
            if fs[j].rpm.is_some() {
                assert(chip_has_rpm(cv[i as int]));
                return true;
            }
            j = j + 1;
        }
        i = i + 1;
    }
    false
}

fn any_power(chips: &Vec<HwmonChip>) -> (b: bool)
    ensures
        b == (exists|i: int| 0 <= i < chips@.len() && chip_has_power(#[trigger] chip_views(chips@)[i])),
{
    let ghost cv = chip_views(chips@);
    let mut i: usize = 0;
    while i < chips.len()
        invariant
            i <= chips@.len(),
            cv == chip_views(chips@),
            forall|k: int| 0 <= k < i ==> !chip_has_power(#[trigger] cv[k]),
        decreases chips@.len() - i,
    {
        let ps = &chips[i].powers;
        let mut j: usize = 0;
        while j < ps.len()
            invariant
                j <= ps@.len(),
                cv == chip_views(chips@),
                i < chips@.len(),
                ps@ == chips@[i as int].powers@,
                forall|k: int| 0 <= k < j ==> (#[trigger] cv[i as int].powers[k]).2 is None,
            decreases ps@.len() - j,
        {
            assert(cv[i as int].powers[j as int] == crate::hwmon::power_view(ps@[j as int]));
            if ps[j].microwatts.is_some() {
                assert(chip_has_power(cv[i as int]));
                return true;
            }
            j = j + 1;
        }
        i = i + 1;
    }
    false
}

fn any_pwm(chips: &Vec<HwmonChip>) -> (b: bool)
    ensures
        b == (exists|i: int| 0 <= i < chips@.len() && (#[trigger] chip_views(chips@)[i]).pwms.len() > 0),
{
    let ghost cv = chip_views(chips@);
    let mut i: usize = 0;
    while i < chips.len()
        invariant
            i <= chips@.len(),
            cv == chip_views(chips@),
            forall|k: int| 0 <= k < i ==> (#[trigger] cv[k]).pwms.len() == 0,
        decreases chips@.len() - i,
    {
        if chips[i].pwms.len() > 0 {
            assert(cv[i as int].pwms.len() > 0);
            return true;
        }
        i = i + 1;
    }
    false
}

fn any_gaming_wmi(ws: &Vec<WmiDevice>) -> (b: bool)
    ensures
        b == (exists|i: int| 0 <= i < ws@.len() && (#[trigger] wmi_views(ws@)[i]).known == Some(GAMING_LABEL@)),
{
    let ghost wv = wmi_views(ws@);
    let mut i: usize = 0;
    while i < ws.len()
        invariant
            i <= ws@.len(),
            wv == wmi_views(ws@),
            forall|k: int| 0 <= k < i ==> (#[trigger] wv[k]).known != Some(GAMING_LABEL@),
        decreases ws@.len() - i,
    {
        assert(wv[i as int] == ws@[i as int]@);
        let hit = match ws[i].known {
            Some(k) => {
                let cs = chars_of(k);
                crate::text::eq_str(&cs, GAMING_LABEL)
            },
            None => false,
        };
        if hit {
            return true;
        }
        i = i + 1;
    }
    false
}

fn any_multicolor(ls: &Vec<LedDevice>) -> (b: bool)
    ensures
        b == (exists|i: int| 0 <= i < ls@.len() && (#[trigger] led_views(ls@)[i]).multi_intensity is Some),
{
    let ghost lv = led_views(ls@);
    let mut i: usize = 0;
    while i < ls.len()
        invariant
            i <= ls@.len(),
            lv == led_views(ls@),
            forall|k: int| 0 <= k < i ==> (#[trigger] lv[k]).multi_intensity is None,
        decreases ls@.len() - i,
    {
        assert(lv[i as int] == ls@[i as int]@);
        if ls[i].multi_intensity.is_some() {
            return true;
        }
        i = i + 1;
    }
    false
}

fn any_kbd(ls: &Vec<LedDevice>) -> (b: bool)
    ensures
        b == (exists|i: int| 0 <= i < ls@.len() && (#[trigger] led_views(ls@)[i]).is_keyboard_candidate),
{
    let ghost lv = led_views(ls@);
    let mut i: usize = 0;
    while i < ls.len()
        invariant
            i <= ls@.len(),
            lv == led_views(ls@),
            forall|k: int| 0 <= k < i ==> !(#[trigger] lv[k]).is_keyboard_candidate,
        decreases ls@.len() - i,
    {
        assert(lv[i as int] == ls@[i as int]@);
        if ls[i].is_keyboard_candidate {
            return true;
        }
        i = i + 1;
    }
    false
}

fn any_limit(ps: &Vec<PowerSupply>) -> (b: bool)
    ensures
        b == (exists|i: int| 0 <= i < ps@.len() && (#[trigger] supply_views(ps@)[i]).charge_limit_supported),
{
    let ghost pv = supply_views(ps@);
    let mut i: usize = 0;
    while i < ps.len()
        invariant
            i <= ps@.len(),
            pv == supply_views(ps@),
            forall|k: int| 0 <= k < i ==> !(#[trigger] pv[k]).charge_limit_supported,
        decreases ps@.len() - i,
    {
        assert(pv[i as int] == ps@[i as int]@);
        if ps[i].charge_limit_supported {
            return true;
        }
        i = i + 1;
    }
    false
}

fn any_nvidia(ds: &Vec<PciDevice>) -> (b: bool)
    ensures
        b == (exists|i: int| 0 <= i < ds@.len() && (#[trigger] pci_views(ds@)[i]).vendor_name == Some("NVIDIA"@)),
{
    let ghost dv = pci_views(ds@);
    let mut i: usize = 0;
    while i < ds.len()
        invariant
            i <= ds@.len(),
            dv == pci_views(ds@),
            forall|k: int| 0 <= k < i ==> (#[trigger] dv[k]).vendor_name != Some("NVIDIA"@),
        decreases ds@.len() - i,
    {
        assert(dv[i as int] == ds@[i as int]@);
        let hit = match ds[i].vendor_name {
            Some(n) => {
                let cs = chars_of(n);
                crate::text::eq_str(&cs, "NVIDIA")
            },
            None => false,
        };
        if hit {
            return true;
        }
        i = i + 1;
    }
    false
}

fn count_hotkeys(ds: &Vec<InputDevice>) -> (n: usize)
    ensures
        n == hotkey_count(device_views(ds@)),
{
    let ghost dv = device_views(ds@);
    let mut n: usize = 0;
    let mut i: usize = 0;
    while i < ds.len()
        invariant
            i <= ds@.len(),
            dv == device_views(ds@),
            n == hotkey_count(dv.take(i as int)),
            n <= i,
        decreases ds@.len() - i,
    {
        assert(dv.take(i + 1).drop_last() =~= dv.take(i as int));
        assert(dv.take(i + 1).last() == ds@[i as int]@);
        if ds[i].hotkey_candidate {
            n = n + 1;
        }
        i = i + 1;
    }
    assert(dv.take(ds@.len() as int) =~= dv);
    n
}

/// Summarise what the discovered hardware can do.
pub fn summarize(
    chips: &Vec<HwmonChip>,
    wmis: &Vec<WmiDevice>,
    platform: &Option<AcerPlatform>,
    ec: &EcInfo,
    leds: &Vec<LedDevice>,
    power: &Vec<PowerSupply>,
    inputs: &Vec<InputDevice>,
    pci: &Vec<PciDevice>,
) -> (s: CapabilitySummary)
    ensures
        spec_summary(
            chip_views(chips@),
            wmi_views(wmis@),
            platform is Some,
            ec.readable,
            led_views(leds@),
            supply_views(power@),
            device_views(inputs@),
            pci_views(pci@),
            s,
        ),
{
    CapabilitySummary {
        temperatures_readable: any_temp(chips),
        fan_rpm_readable: any_rpm(chips),
        pwm_present: any_pwm(chips),
        power_readable: any_power(chips),
        acer_wmi_platform_present: platform.is_some(),
        acer_gaming_wmi_guid_present: any_gaming_wmi(wmis),
        ec_debugfs_readable: ec.readable,
        rgb_led_present: any_multicolor(leds),
        kbd_backlight_present: any_kbd(leds),
        battery_charge_limit_supported: any_limit(power),
        hotkey_candidates: count_hotkeys(inputs),
        nvidia_dgpu_present: any_nvidia(pci),
    }
}

// ---------------------------------------------------------------------------
// The report
// ---------------------------------------------------------------------------

#[derive(Debug)]
pub struct Report {
    pub timestamp_unix: u64,
    pub running_as_root: bool,
    pub dmi: DmiInfo,
    pub kernel: Kernel,
    pub cpu: Cpu,
    pub pci_display: Vec<PciDevice>,
    pub hwmon: Vec<HwmonChip>,
    pub wmi: Vec<WmiDevice>,
    pub acer_platform: Option<AcerPlatform>,
    pub ec: EcInfo,
    pub leds: Vec<LedDevice>,
    pub power: Vec<PowerSupply>,
    pub inputs: Vec<InputDevice>,
    pub acpi_tables: Vec<String>,
    pub capabilities: CapabilitySummary,
    pub notes: Vec<String>,
}

/// The input devices listed in /proc/bus/input/devices, none when unreadable.
pub open spec fn spec_inputs(fs: SysFs) -> Seq<InputDeviceView> {
    match fs.raw(INPUT_DEVICES@) {
        Some(c) => input::spec_read(c),
        None => seq![],
    }
}

pub fn read_inputs(fs: &SysFs) -> (v: Vec<InputDevice>)
    ensures
        device_views(v@) == spec_inputs(*fs),
{
    match fs.read_raw(&String::from_str(INPUT_DEVICES)) {
        Some(c) => input::read(c.as_str()),
        None => {
            let v: Vec<InputDevice> = Vec::new();
            assert(device_views(v@) =~= seq![]);
            v
        },
    }
}

/// The report's notes: a warning when not running as root, then one when the
/// ACPI tables could not be listed (with the error text the listing gave).
pub open spec fn spec_notes(root: bool, acpi_listed: bool, acpi_error: Seq<char>) -> Seq<Seq<char>> {
    let first: Seq<Seq<char>> = if root { seq![] } else { seq![NOT_ROOT_NOTE@] };
    if acpi_listed {
        first
    } else {
        first.push("ACPI tables unreadable ("@ + acpi_error + "); re-run as root."@)
    }
}

/// The text of /proc/cpuinfo, empty when unreadable.
pub open spec fn cpuinfo_text(fs: SysFs) -> Seq<char> {
    match fs.raw(PROC_CPUINFO@) {
        Some(t) => t,
        None => seq![],
    }
}

/// Gather the whole discovery report from the snapshot. `timestamp_unix` is
/// the time of the report, `arch` the architecture the program was built for,
/// `ec_contents` what reading the EC debugfs file gave and `acpi_error` the
/// text of the error listing the ACPI tables gave, if it failed.
pub fn run(
    fs: &SysFs,
    timestamp_unix: u64,
    arch: &'static str,
    ec_contents: Result<Vec<u8>, String>,
    acpi_error: &str,
) -> (r: Report)
    ensures
        r.timestamp_unix == timestamp_unix,
        r.running_as_root == spec_running_as_root(*fs),
        opt_view(r.dmi.sys_vendor) == dmi::dmi_attr(*fs, "sys_vendor"@),
        opt_view(r.dmi.product_name) == dmi::dmi_attr(*fs, "product_name"@),
        opt_view(r.dmi.product_family) == dmi::dmi_attr(*fs, "product_family"@),
        opt_view(r.dmi.product_version) == dmi::dmi_attr(*fs, "product_version"@),
        opt_view(r.dmi.board_name) == dmi::dmi_attr(*fs, "board_name"@),
        opt_view(r.dmi.board_vendor) == dmi::dmi_attr(*fs, "board_vendor"@),
        opt_view(r.dmi.bios_vendor) == dmi::dmi_attr(*fs, "bios_vendor"@),
        opt_view(r.dmi.bios_version) == dmi::dmi_attr(*fs, "bios_version"@),
        opt_view(r.dmi.bios_date) == dmi::dmi_attr(*fs, "bios_date"@),
        opt_view(r.dmi.chassis_type) == dmi::dmi_attr(*fs, "chassis_type"@),
        opt_view(r.kernel.release) == fs.spec_read_trim("/proc/sys/kernel/osrelease"@),
        opt_view(r.kernel.version) == fs.spec_read_trim("/proc/version"@),
        r.kernel.arch == arch,
        opt_view(r.cpu.model) == cpu_scan(lines(cpuinfo_text(*fs))).model,
        opt_view(r.cpu.vendor) == cpu_scan(lines(cpuinfo_text(*fs))).vendor,
        r.cpu.cores_logical == cpu_scan(lines(cpuinfo_text(*fs))).cores,
        pci_views(r.pci_display@) == pci::spec_read_display(*fs),
        chip_views(r.hwmon@) == hwmon::spec_read(*fs),
        wmi_views(r.wmi@) == wmi::spec_read(*fs),
        match r.acer_platform {
            Some(a) => wmi::spec_acer_platform(*fs) == Some((a.path@, wmi::attr_views(a.attributes@))),
            None => wmi::spec_acer_platform(*fs) is None,
        },
        r.ec@ == ec::spec_read(*fs, contents_view(ec_contents)),
        led_views(r.leds@) == leds::spec_read(*fs),
        supply_views(r.power@) == power::spec_read(*fs),
        device_views(r.inputs@) == spec_inputs(*fs),
        string_views(r.acpi_tables@) == (match spec_acpi_tables(*fs) {
            Some(t) => t,
            None => seq![],
        }),
        spec_summary(
            chip_views(r.hwmon@),
            wmi_views(r.wmi@),
            r.acer_platform is Some,
            r.ec.readable,
            led_views(r.leds@),
            supply_views(r.power@),
            device_views(r.inputs@),
            pci_views(r.pci_display@),
            r.capabilities,
        ),
        string_views(r.notes@) == spec_notes(
            spec_running_as_root(*fs),
            spec_acpi_tables(*fs) is Some,
            acpi_error@,
        ),
{
    let mut notes: Vec<String> = Vec::new();
    let root = running_as_root(fs);
    if !root {
        notes.push(String::from_str(NOT_ROOT_NOTE));
    }
    let dmi = dmi::read(fs);
    let kernel = read_kernel(fs, arch);
    let cpu = read_cpu(fs);
    let pci_display = pci::read_display(fs);
    let hwmon = hwmon::read(fs);
    let wmi = wmi::read(fs);
    let acer_platform = wmi::acer_platform(fs);
    let ec = ec::read(fs, ec_contents);
    let leds = leds::read(fs);
    let power = power::read(fs);
    let inputs = read_inputs(fs);
    let ghost notes0 = string_views(notes@);
    let acpi_tables = match read_acpi_tables(fs) {
        Some(t) => t,
        None => {
            let mut note = String::from_str("ACPI tables unreadable (");
            append_str(&mut note, acpi_error);
            append_str(&mut note, "); re-run as root.");
            notes.push(note);
            assert(string_views(notes@) =~= notes0.push(note@));
            Vec::new()
        },
    };
    let capabilities = summarize(&hwmon, &wmi, &acer_platform, &ec, &leds, &power, &inputs, &pci_display);
    assert(string_views(notes@) =~= spec_notes(root, spec_acpi_tables(*fs) is Some, acpi_error@));
    assert(string_views(acpi_tables@) =~= (match spec_acpi_tables(*fs) {
        Some(t) => t,
        None => seq![],
    }));
    Report {
        timestamp_unix,
        running_as_root: root,
        dmi,
        kernel,
        cpu,
        pci_display,
        hwmon,
        wmi,
        acer_platform,
        ec,
        leds,
        power,
        inputs,
        acpi_tables,
        capabilities,
        notes,
    }
}

} // verus!
