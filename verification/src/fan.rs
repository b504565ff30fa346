//! CPU/GPU fan control via the Acer gaming-WMI `fan_speed` attribute.
//!
//! Format (per linuwu-sense): "cpu,gpu" where each value is 0 (auto), 1 (minimum,
//! not recommended) or 2..=100 (percent). The firmware validates the request, and
//! the whole surface is capability-gated on the module being loaded.

use vstd::prelude::*;
use crate::acer::{read_attr, sense_dir, spec_sense_dir, spec_write_attr, write_attr};
use crate::error::{ErrorKind, HalError};
use crate::plan::{plan_fail, Plan, PlanView};
use crate::sysfs::{opt_view, path_join, SysFs};
use crate::text::{dec_string, push_char, push_dec};

verus! {

#[derive(Debug, Clone, Copy, PartialEq, Eq, Structural)]
pub enum FanMode {
    /// Return both fans to firmware automatic control.
    Auto,
    /// Both fans to 100%.
    Max,
    /// Explicit CPU and GPU duty percentages (clamped to 0..=100).
    Manual { cpu: u8, gpu: u8 },
}

pub const FAN_UNSUPPORTED: &'static str = "fan control unavailable (linuwu-sense module not loaded)";

/// The (cpu, gpu) duties a mode asks for, each at most 100.
pub open spec fn fan_duties(mode: FanMode) -> (u8, u8) {
    match mode {
        FanMode::Auto => (0, 0),
        FanMode::Max => (100, 100),
        FanMode::Manual { cpu, gpu } => (
            if cpu < 100 { cpu } else { 100 },
            if gpu < 100 { gpu } else { 100 },
        ),
    }
}

/// The "cpu,gpu" text written to `fan_speed`.
pub open spec fn fan_value(mode: FanMode) -> Seq<char> {
    dec_string(fan_duties(mode).0 as nat) + seq![','] + dec_string(fan_duties(mode).1 as nat)
}

pub open spec fn spec_set(fs: SysFs, mode: FanMode) -> PlanView {
    match spec_sense_dir(fs) {
        Some(d) => spec_write_attr(fs, d, "fan_speed"@, fan_value(mode)),
        None => plan_fail(ErrorKind::Unsupported, FAN_UNSUPPORTED@),
    }
}

pub fn supported(fs: &SysFs) -> (b: bool)
    ensures
        b == spec_sense_dir(*fs) is Some,
{
    sense_dir(fs).is_some()
}

/// Raw "cpu,gpu" string as reported by the driver, if available.
pub fn get(fs: &SysFs) -> (r: Option<String>)
    ensures
        opt_view(r) == (match spec_sense_dir(*fs) {
            Some(d) => fs.spec_read_trim(path_join(d, "fan_speed"@)),
            None => None,
        }),
{
    match sense_dir(fs) {
        Some(d) => read_attr(fs, &d, "fan_speed"),
        None => None,
    }
}

pub fn set(fs: &SysFs, mode: FanMode) -> (p: Plan)
    ensures
        p@ == spec_set(*fs, mode),
{
    let dir = match sense_dir(fs) {
        Some(d) => d,
        None => {
            let p = Plan::fail(unsupported());
            assert(p@.0 =~= seq![]);
            return p;
        },
    };
    let (cpu, gpu): (u8, u8) = match mode {
        FanMode::Auto => (0, 0),
        FanMode::Max => (100, 100),
        FanMode::Manual { cpu, gpu } => (
            if cpu < 100 { cpu } else { 100 },
            if gpu < 100 { gpu } else { 100 },
        ),
    };
    let mut value = String::new();
    push_dec(&mut value, cpu as u64);
    push_char(&mut value, ',');
    push_dec(&mut value, gpu as u64);
    assert(value@ =~= fan_value(mode));
    write_attr(fs, &dir, "fan_speed", value)
}

fn unsupported() -> (e: HalError)
    ensures
        e.kind == ErrorKind::Unsupported,
        e.message@ == FAN_UNSUPPORTED@,
{
    HalError { kind: ErrorKind::Unsupported, message: String::from_str(FAN_UNSUPPORTED) }
}

/// Whatever the mode, the duties requested never exceed 100%.
pub proof fn lemma_duties_bounded(mode: FanMode)
    ensures
        fan_duties(mode).0 <= 100 && fan_duties(mode).1 <= 100,
{
}


/// A manual request writes the CPU and the GPU duty each as asked, each
/// capped at 100 on its own: "cpu,gpu" into the existing `fan_speed`.
pub proof fn lemma_manual_written(fs: SysFs, cpu: u8, gpu: u8)
    requires
        spec_sense_dir(fs) is Some,
        fs.spec_exists(path_join(spec_sense_dir(fs)->0, "fan_speed"@)),
    ensures
        spec_set(fs, FanMode::Manual { cpu, gpu }) == (
            seq![
                (
                    path_join(spec_sense_dir(fs)->0, "fan_speed"@),
                    dec_string(if cpu <= 100 { cpu as nat } else { 100 }) + ","@ + dec_string(
                        if gpu <= 100 { gpu as nat } else { 100 },
                    ),
                    true,
                ),
            ],
            Ok::<(), (ErrorKind, Seq<char>)>(()),
        ),
{
    reveal_strlit(",");
    assert(","@ =~= seq![',']);
    let v = dec_string(if cpu <= 100 { cpu as nat } else { 100 }) + ","@ + dec_string(
        if gpu <= 100 { gpu as nat } else { 100 },
    );
    assert(fan_value(FanMode::Manual { cpu, gpu }) =~= v);
}

/// The GPU duty depends on the GPU request alone, and the CPU duty on the CPU
/// request alone.
pub proof fn lemma_duties_independent(c1: u8, g1: u8, c2: u8, g2: u8)
    ensures
        fan_duties(FanMode::Manual { cpu: c1, gpu: g1 }).1 == fan_duties(FanMode::Manual { cpu: c2, gpu: g1 }).1,
        fan_duties(FanMode::Manual { cpu: c1, gpu: g1 }).0 == fan_duties(FanMode::Manual { cpu: c1, gpu: g2 }).0,
        g1 <= 100 ==> fan_duties(FanMode::Manual { cpu: c1, gpu: g1 }).1 == g1,
        c1 <= 100 ==> fan_duties(FanMode::Manual { cpu: c1, gpu: g1 }).0 == c1,
{
}

} // verus!
