//! Performance/thermal profiles built on the verified levers: the firmware
//! ACPI platform profile (when exposed), the Acer WMI fan policy (when the
//! linuwu-sense module is loaded) and the intel_pstate/cpufreq levers.

use vstd::prelude::*;
use crate::acer::spec_sense_dir;
use crate::control::{opt_str_view, spec_apply};
use crate::fan::{self, FanMode};
use crate::plan::{append_best_effort, append_writes, best_effort, Plan, PlanView, Write};
use crate::platform_profile::{self, spec_choices, spec_pick, str_views, PROFILE};
use crate::sysfs::SysFs;
use crate::text::{chars_of, eq_str, is_ws, lower_all, lower_seq, trim, trim_end, trim_start, trimmed};

verus! {

#[derive(Debug, Clone, Copy, PartialEq, Eq, Structural)]
pub enum Profile {
    /// Coolest/quietest achievable via CPU levers alone: powersave + power EPP,
    /// turbo disabled. Also the emergency thermal-guard target.
    Quiet,
    /// Default everyday balance.
    Balanced,
    /// Biased toward performance but still scales down when idle.
    Performance,
    /// Pinned to the performance governor with turbo for maximum sustained clocks.
    Turbo,
}

pub open spec fn profile_name(p: Profile) -> Seq<char> {
    match p {
        Profile::Quiet => "quiet"@,
        Profile::Balanced => "balanced"@,
        Profile::Performance => "performance"@,
        Profile::Turbo => "turbo"@,
    }
}

/// `Profile::parse`: names and short aliases, ignoring case and surrounding
/// white space.
pub open spec fn spec_parse(s: Seq<char>) -> Option<Profile> {
    let n = lower_seq(trim(s));
    if n == "quiet"@ || n == "q"@ {
        Some(Profile::Quiet)
    } else if n == "balanced"@ || n == "balance"@ || n == "b"@ {
        Some(Profile::Balanced)
    } else if n == "performance"@ || n == "perf"@ || n == "p"@ {
        Some(Profile::Performance)
    } else if n == "turbo"@ || n == "max"@ || n == "t"@ {
        Some(Profile::Turbo)
    } else {
        None
    }
}

pub open spec fn spec_next(p: Profile) -> Profile {
    match p {
        Profile::Quiet => Profile::Balanced,
        Profile::Balanced => Profile::Performance,
        Profile::Performance => Profile::Turbo,
        Profile::Turbo => Profile::Quiet,
    }
}

/// (governor, energy_performance_preference, turbo_enabled).
pub open spec fn spec_levers(p: Profile) -> (Seq<char>, Option<Seq<char>>, bool) {
    match p {
        Profile::Quiet => ("powersave"@, Some("power"@), false),
        Profile::Balanced => ("powersave"@, Some("balance_performance"@), true),
        Profile::Performance => ("powersave"@, Some("performance"@), true),
        Profile::Turbo => ("performance"@, None, true),
    }
}

/// Preferred ACPI platform_profile names, best first.
pub open spec fn spec_platform_prefs(p: Profile) -> Seq<Seq<char>> {
    match p {
        Profile::Quiet => seq!["quiet"@, "low-power"@, "cool"@],
        Profile::Balanced => seq!["balanced"@],
        Profile::Performance => seq!["performance"@, "balanced-performance"@],
        Profile::Turbo => seq!["turbo"@, "performance"@],
    }
}

pub open spec fn spec_fan_mode(p: Profile) -> FanMode {
    match p {
        Profile::Turbo => FanMode::Max,
        _ => FanMode::Auto,
    }
}

impl Profile {
    /// Every profile, in cycling order.
    pub const ALL: [Profile; 4] = [Profile::Quiet, Profile::Balanced, Profile::Performance, Profile::Turbo];

    pub fn as_str(self) -> (s: &'static str)
        ensures
            s@ == profile_name(self),
    {
        match self {
            Profile::Quiet => "quiet",
            Profile::Balanced => "balanced",
            Profile::Performance => "performance",
            Profile::Turbo => "turbo",
        }
    }

    pub fn parse(s: &str) -> (r: Option<Profile>)
        ensures
            r == spec_parse(s@),
    {
        let cs = chars_of(s);
        let t = trimmed(&cs);
        let n = lower_all(&t);
        if eq_str(&n, "quiet") || eq_str(&n, "q") {
            Some(Profile::Quiet)
        } else if eq_str(&n, "balanced") || eq_str(&n, "balance") || eq_str(&n, "b") {
            Some(Profile::Balanced)
        } else if eq_str(&n, "performance") || eq_str(&n, "perf") || eq_str(&n, "p") {
            Some(Profile::Performance)
        } else if eq_str(&n, "turbo") || eq_str(&n, "max") || eq_str(&n, "t") {
            Some(Profile::Turbo)
        } else {
            None
        }
    }

    /// The next profile when cycling with the NitroSense key.
    pub fn next(self) -> (p: Profile)
        ensures
            p == spec_next(self),
    {
        match self {
            Profile::Quiet => Profile::Balanced,
            Profile::Balanced => Profile::Performance,
            Profile::Performance => Profile::Turbo,
            Profile::Turbo => Profile::Quiet,
        }
    }

    /// (governor, energy_performance_preference, turbo_enabled). Pure data.
    pub fn levers(self) -> (l: (&'static str, Option<&'static str>, bool))
        ensures
            (l.0@, opt_str_view(l.1), l.2) == spec_levers(self),
    {
        match self {
            Profile::Quiet => ("powersave", Some("power"), false),
            Profile::Balanced => ("powersave", Some("balance_performance"), true),
            Profile::Performance => ("powersave", Some("performance"), true),
            Profile::Turbo => ("performance", None, true),
        }
    }

    pub fn describe(self) -> (s: &'static str)
        ensures
            s@ == (match self {
                Profile::Quiet => "quiet: powersave governor, power EPP, turbo off"@,
                Profile::Balanced => "balanced: powersave governor, balanced EPP, turbo on"@,
                Profile::Performance => "performance: powersave governor, performance EPP, turbo on"@,
                Profile::Turbo => "turbo: performance governor, turbo on"@,
            }),
    {
        match self {
            Profile::Quiet => "quiet: powersave governor, power EPP, turbo off",
            Profile::Balanced => "balanced: powersave governor, balanced EPP, turbo on",
            Profile::Performance => "performance: powersave governor, performance EPP, turbo on",
            Profile::Turbo => "turbo: performance governor, turbo on",
        }
    }

    /// Preferred ACPI platform_profile names, best first. The first one the
    /// firmware advertises is used.
    pub fn platform_prefs(self) -> (v: Vec<&'static str>)
        ensures
            str_views(v@) == spec_platform_prefs(self),
    {
        let mut v: Vec<&'static str> = Vec::new();
        match self {
            Profile::Quiet => {
                v.push("quiet");
                v.push("low-power");
                v.push("cool");
            },
            Profile::Balanced => {
                v.push("balanced");
            },
            Profile::Performance => {
                v.push("performance");
                v.push("balanced-performance");
            },
            Profile::Turbo => {
                v.push("turbo");
                v.push("performance");
            },
        }
        assert(str_views(v@) =~= spec_platform_prefs(self));
        v
    }

    /// Fan policy for this profile (only used when the WMI fan interface exists).
    pub fn fan_mode(self) -> (m: FanMode)
        ensures
            m == spec_fan_mode(self),
    {
        match self {
            Profile::Turbo => FanMode::Max,
            _ => FanMode::Auto,
        }
    }
}

/// `profile::apply`: platform profile and fan policy best effort, then the
/// cpufreq levers, whose result is the result.
pub open spec fn spec_apply_profile(fs: SysFs, p: Profile) -> PlanView {
    let platform = if fs.spec_exists(PROFILE@) {
        match spec_pick(spec_choices(fs), spec_platform_prefs(p)) {
            Some(name) => best_effort(platform_profile::spec_set(fs, name).0),
            None => seq![],
        }
    } else {
        seq![]
    };
    let fans = if spec_sense_dir(fs) is Some {
        best_effort(fan::spec_set(fs, spec_fan_mode(p)).0)
    } else {
        seq![]
    };
    let l = spec_levers(p);
    let cpu = spec_apply(fs, l.0, l.1, l.2);
    (platform + fans + cpu.0, cpu.1)
}

/// Apply a profile. Layers, from most hardware-specific to always-available:
///   1. firmware ACPI platform_profile (if exposed),
///   2. Acer WMI fan policy (if the linuwu-sense module is loaded),
///   3. the verified intel_pstate/cpufreq levers (always).
/// Layers 1 and 2 are best-effort and capability-gated.
pub fn apply(fs: &SysFs, profile: Profile) -> (p: Plan)
    ensures
        p@ == spec_apply_profile(*fs, profile),
{
    let mut writes: Vec<Write> = Vec::new();
    if platform_profile::supported(fs) {
        let prefs = profile.platform_prefs();
        match platform_profile::pick(fs, prefs.as_slice()) {
            Some(name) => append_best_effort(&mut writes, &platform_profile::set(fs, name.as_str())),
            None => {},
        }
    }
    if fan::supported(fs) {
        append_best_effort(&mut writes, &fan::set(fs, profile.fan_mode()));
    }
    let (governor, epp, turbo) = profile.levers();
    let cpu = crate::control::apply(fs, governor, epp, turbo);
    append_writes(&mut writes, &cpu);
    Plan { writes, outcome: cpu.outcome }
}

/// `auto_profile`: the thermal guard wins and forces Quiet; otherwise
/// Performance on mains power and Balanced on battery or when unknown.
/// Temperatures are in millidegrees Celsius, as hwmon reports them.
pub open spec fn spec_auto_profile(ac_online: Option<bool>, temp_mc: Option<i64>, guard_mc: i64) -> Profile {
    if temp_mc is Some && temp_mc->0 >= guard_mc {
        Profile::Quiet
    } else if ac_online == Some(true) {
        Profile::Performance
    } else {
        Profile::Balanced
    }
}

/// Decide which profile the daemon should hold given power and thermal state.
/// The thermal guard always wins and forces Quiet, the safest CPU state,
/// because fan speed cannot be raised.
pub fn auto_profile(ac_online: Option<bool>, temp_mc: Option<i64>, guard_mc: i64) -> (p: Profile)
    ensures
        p == spec_auto_profile(ac_online, temp_mc, guard_mc),
{
    if let Some(t) = temp_mc {
        if t >= guard_mc {
            return Profile::Quiet;
        }
    }
    match ac_online {
        Some(true) => Profile::Performance,
        _ => Profile::Balanced,
    }
}

/// A temperature at or above the guard always yields Quiet, whatever the
/// power source.
pub proof fn lemma_guard_forces_quiet(ac_online: Option<bool>, temp_mc: i64, guard_mc: i64)
    requires
        temp_mc >= guard_mc,
    ensures
        spec_auto_profile(ac_online, Some(temp_mc), guard_mc) == Profile::Quiet,
{
}

/// Below the guard (or with no reading) the choice follows the power source
/// alone.
pub proof fn lemma_cool_follows_power(ac_online: Option<bool>, temp_mc: Option<i64>, guard_mc: i64)
    requires
        !(temp_mc is Some && temp_mc->0 >= guard_mc),
    ensures
        spec_auto_profile(ac_online, temp_mc, guard_mc) == (if ac_online == Some(true) {
            Profile::Performance
        } else {
            Profile::Balanced
        }),
{
}

/// Parsing the name of a profile gives the profile back.
pub proof fn lemma_parse_as_str(p: Profile)
    ensures
        spec_parse(profile_name(p)) == Some(p),
{
    reveal_strlit("quiet");
    reveal_strlit("q");
    reveal_strlit("balanced");
    reveal_strlit("balance");
    reveal_strlit("b");
    reveal_strlit("performance");
    reveal_strlit("perf");
    reveal_strlit("p");
    reveal_strlit("turbo");
    reveal_strlit("max");
    reveal_strlit("t");
    let s = profile_name(p);
    assert(!is_ws(s[0]));
    assert(trim_start(s) == s);
    assert(!is_ws(s.last()));
    assert(trim_end(s) == s);
    assert(lower_seq(s) =~= s);
}

/// Cycling visits every profile and returns after four steps.
pub proof fn lemma_next_cycles(p: Profile)
    ensures
        spec_next(spec_next(spec_next(spec_next(p)))) == p,
        spec_next(p) != p,
        spec_next(spec_next(p)) != p,
        spec_next(spec_next(spec_next(p))) != p,
{
}

/// The quiet profile (the thermal-guard target) never enables turbo; turbo
/// always does.
pub proof fn lemma_quiet_disables_turbo()
    ensures
        spec_levers(Profile::Quiet).2 == false,
        spec_levers(Profile::Turbo).2 == true,
{
}


/// Every profile but Quiet runs with turbo. Only Turbo uses the performance
/// governor, and only it leaves the EPP alone; the other profiles use
/// powersave with the EPP their names promise.
pub proof fn lemma_levers_agree(p: Profile)
    ensures
        spec_levers(p).2 == (p != Profile::Quiet),
        spec_levers(p).0 == (if p == Profile::Turbo {
            "performance"@
        } else {
            "powersave"@
        }),
        (spec_levers(p).1 is None) == (p == Profile::Turbo),
        p == Profile::Quiet ==> spec_levers(p).1 == Some("power"@),
        p == Profile::Balanced ==> spec_levers(p).1 == Some("balance_performance"@),
        p == Profile::Performance ==> spec_levers(p).1 == Some("performance"@),
{
}

/// On a machine with the intel_pstate `no_turbo` switch, a profile request
/// that succeeds ends by turning turbo on ("0") for every profile but Quiet,
/// and off ("1") for Quiet.
pub proof fn lemma_profile_turbo_write(fs: SysFs, p: Profile)
    requires
        fs.spec_exists(crate::control::NO_TURBO@),
        spec_apply_profile(fs, p).1 is Ok,
    ensures
        spec_apply_profile(fs, p).0.len() > 0,
        spec_apply_profile(fs, p).0.last() == (
            crate::control::NO_TURBO@,
            if p == Profile::Quiet {
                "1"@
            } else {
                "0"@
            },
            true,
        ),
{
    let l = spec_levers(p);
    let cpu = spec_apply(fs, l.0, l.1, l.2);
    let dirs = crate::control::spec_policy_dirs(fs);
    let pw = crate::control::policy_writes(fs, dirs, l.0, l.1, crate::control::spec_available_epp(fs));
    let tw = crate::control::turbo_writes(fs, l.2);
    assert(cpu.0 == pw + tw);
    let all = spec_apply_profile(fs, p).0;
    assert(all.last() == cpu.0.last());
}

} // verus!
