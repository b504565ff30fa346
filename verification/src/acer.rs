//! Discovery of the Acer gaming-WMI sysfs surface exposed by the linuwu-sense
//! kernel module. These are firmware-mediated WMI methods, not raw EC register
//! writes, so the firmware validates every value. Everything here is
//! capability-gated: if the module is not loaded the attribute files are absent
//! and callers treat the feature as unsupported rather than writing blind.

use vstd::prelude::*;
use crate::error::{ErrorKind, HalError};
use crate::plan::{plan_fail, plan_write, Plan, PlanView, Write};
use crate::sysfs::{join, opt_view, path_join, SysFs};
use crate::text::append_str;

verus! {

pub const MODULE_BASE: &'static str = "/sys/module/linuwu_sense/drivers/platform:acer-wmi/acer-wmi";

pub const PLATFORM_BASE: &'static str = "/sys/devices/platform/acer-wmi";

/// The four places the fan/battery attribute directory may live, best first.
pub open spec fn sense_candidate(i: int) -> Seq<char> {
    if i == 0 {
        path_join(MODULE_BASE@, "nitro_sense"@)
    } else if i == 1 {
        path_join(MODULE_BASE@, "predator_sense"@)
    } else if i == 2 {
        path_join(PLATFORM_BASE@, "nitro_sense"@)
    } else {
        path_join(PLATFORM_BASE@, "predator_sense"@)
    }
}

pub open spec fn is_sense_dir(fs: SysFs, dir: Seq<char>) -> bool {
    fs.spec_exists(path_join(dir, "fan_speed"@))
}

/// The first candidate directory holding `fan_speed`.
pub open spec fn spec_sense_dir(fs: SysFs) -> Option<Seq<char>> {
    if is_sense_dir(fs, sense_candidate(0)) {
        Some(sense_candidate(0))
    } else if is_sense_dir(fs, sense_candidate(1)) {
        Some(sense_candidate(1))
    } else if is_sense_dir(fs, sense_candidate(2)) {
        Some(sense_candidate(2))
    } else if is_sense_dir(fs, sense_candidate(3)) {
        Some(sense_candidate(3))
    } else {
        None
    }
}

pub open spec fn kbd_candidate(i: int) -> Seq<char> {
    if i == 0 {
        path_join(MODULE_BASE@, "four_zoned_kb"@)
    } else {
        path_join(PLATFORM_BASE@, "four_zoned_kb"@)
    }
}

/// The first candidate keyboard directory holding `per_zone_mode`.
pub open spec fn spec_kbd_dir(fs: SysFs) -> Option<Seq<char>> {
    if fs.spec_exists(path_join(kbd_candidate(0), "per_zone_mode"@)) {
        Some(kbd_candidate(0))
    } else if fs.spec_exists(path_join(kbd_candidate(1), "per_zone_mode"@)) {
        Some(kbd_candidate(1))
    } else {
        None
    }
}

fn sense_at(i: usize) -> (d: String)
    requires
        i < 4,
    ensures
        d@ == sense_candidate(i as int),
{
    let base = String::from_str(if i < 2 { MODULE_BASE } else { PLATFORM_BASE });
    join(&base, if i % 2 == 0 { "nitro_sense" } else { "predator_sense" })
}

/// Directory holding fan_speed/battery_limiter/etc. (nitro_sense or predator_sense).
pub fn sense_dir(fs: &SysFs) -> (r: Option<String>)
    ensures
        opt_view(r) == spec_sense_dir(*fs),
{
    let mut i: usize = 0;
    while i < 4
        invariant
            i <= 4,
            forall|k: int| 0 <= k < i ==> !is_sense_dir(*fs, #[trigger] sense_candidate(k)),
        decreases 4 - i,
    {
        let dir = sense_at(i);
        if fs.path_exists(&join(&dir, "fan_speed")) {
            assert(i == 0 || !is_sense_dir(*fs, sense_candidate(0)));
            assert(i <= 1 || !is_sense_dir(*fs, sense_candidate(1)));
            assert(i <= 2 || !is_sense_dir(*fs, sense_candidate(2)));
            return Some(dir);
        }
        i = i + 1;
    }
    assert(!is_sense_dir(*fs, sense_candidate(0)));
    assert(!is_sense_dir(*fs, sense_candidate(1)));
    assert(!is_sense_dir(*fs, sense_candidate(2)));
    assert(!is_sense_dir(*fs, sense_candidate(3)));
    None
}

/// Directory holding the four-zone keyboard RGB attributes.
pub fn kbd_dir(fs: &SysFs) -> (r: Option<String>)
    ensures
        opt_view(r) == spec_kbd_dir(*fs),
{
    let d0 = join(&String::from_str(MODULE_BASE), "four_zoned_kb");
    if fs.path_exists(&join(&d0, "per_zone_mode")) {
        return Some(d0);
    }
    let d1 = join(&String::from_str(PLATFORM_BASE), "four_zoned_kb");
    if fs.path_exists(&join(&d1, "per_zone_mode")) {
        return Some(d1);
    }
    None
}

/// True when the linuwu-sense module appears to be loaded at all.
pub fn module_loaded(fs: &SysFs) -> (b: bool)
    ensures
        b == (fs.spec_exists(MODULE_BASE@) || spec_sense_dir(*fs) is Some),
{
    fs.path_exists(&String::from_str(MODULE_BASE)) || sense_dir(fs).is_some()
}

/// The trimmed value of attribute `file` in `dir`.
pub fn read_attr(fs: &SysFs, dir: &String, file: &str) -> (r: Option<String>)
    ensures
        opt_view(r) == fs.spec_read_trim(path_join(dir@, file@)),
{
    fs.read_trim(&join(dir, file))
}

pub open spec fn missing_attr_message(file: Seq<char>) -> Seq<char> {
    file + " not available (is the linuwu-sense module loaded?)"@
}

/// `write_attr`: write `value` to `dir/file`, refusing (never creating) an absent file.
pub open spec fn spec_write_attr(fs: SysFs, dir: Seq<char>, file: Seq<char>, value: Seq<char>) -> PlanView {
    if fs.spec_exists(path_join(dir, file)) {
        plan_write(path_join(dir, file), value)
    } else {
        plan_fail(ErrorKind::Unsupported, missing_attr_message(file))
    }
}

/// Write a sysfs attribute, refusing (never creating) an absent file.
pub fn write_attr(fs: &SysFs, dir: &String, file: &str, value: String) -> (p: Plan)
    ensures
        p@ == spec_write_attr(*fs, dir@, file@, value@),
{
    let path = join(dir, file);
    if !fs.path_exists(&path) {
        let mut msg = String::from_str(file);
        append_str(&mut msg, " not available (is the linuwu-sense module loaded?)");
        let p = Plan::fail(HalError { kind: ErrorKind::Unsupported, message: msg });
        assert(p@.0 =~= seq![]);
        return p;
    }
    Plan::single(Write { path, value, required: true })
}

/// An attribute write never creates a file: it is planned only for a file that
/// exists, and otherwise the request fails as unsupported with nothing written.
pub proof fn lemma_write_attr_never_creates(fs: SysFs, dir: Seq<char>, file: Seq<char>, value: Seq<char>)
    ensures
        forall|i: int|
            0 <= i < spec_write_attr(fs, dir, file, value).0.len() ==> fs.spec_exists(
                #[trigger] spec_write_attr(fs, dir, file, value).0[i].0,
            ),
        !fs.spec_exists(path_join(dir, file)) ==> spec_write_attr(fs, dir, file, value) == plan_fail(
            ErrorKind::Unsupported,
            missing_attr_message(file),
        ),
{
}

} // verus!
