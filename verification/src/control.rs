//! Hardware write paths for the intel_pstate/cpufreq levers. Every value is
//! validated against the kernel-advertised set before a write is planned.

use vstd::prelude::*;
use crate::error::{not_available_message, ErrorKind, HalError};
use crate::plan::{
    applied, last_write, lemma_applied_unwritten, lemma_applied_written, lemma_last_write_concat,
    lemma_last_write_untouched, plan_fail, write_view, Plan, PlanView, Write,
};
use crate::sysfs::{join, lemma_join_last, opt_view, path_join, SysFs};
use crate::text::{
    all_digits, append_str, chars_of, has_prefix, join_strings, lemma_sort_seq, lemma_trim_idempotent, sort_seq,
    sort_strings, starts_with, string_views, trim,
};

verus! {

pub const CPU_BASE: &'static str = "/sys/devices/system/cpu";

pub const NO_TURBO: &'static str = "/sys/devices/system/cpu/intel_pstate/no_turbo";

#[derive(Debug, Clone)]
pub struct PolicyBackup {
    pub cpu: String,
    pub governor: Option<String>,
    pub epp: Option<String>,
}

#[derive(Debug, Clone)]
pub struct CpuBackup {
    pub policies: Vec<PolicyBackup>,
    pub no_turbo: Option<String>,
}

#[derive(Debug, Clone)]
pub struct CpuStatus {
    pub driver: Option<String>,
    pub governor: Option<String>,
    pub epp: Option<String>,
    pub turbo_enabled: Option<bool>,
    pub available_governors: Vec<String>,
    pub available_epp: Vec<String>,
}

/// A policy backup as character sequences.
pub struct PolicyBackupView {
    pub cpu: Seq<char>,
    pub governor: Option<Seq<char>>,
    pub epp: Option<Seq<char>>,
}

impl View for PolicyBackup {
    type V = PolicyBackupView;

    open spec fn view(&self) -> PolicyBackupView {
        PolicyBackupView { cpu: self.cpu@, governor: opt_view(self.governor), epp: opt_view(self.epp) }
    }
}

pub open spec fn backup_views(ps: Seq<PolicyBackup>) -> Seq<PolicyBackupView> {
    ps.map_values(|p: PolicyBackup| p@)
}

/// `/sys/devices/system/cpu/<name>/cpufreq`.
pub open spec fn cpufreq_dir(name: Seq<char>) -> Seq<char> {
    path_join(path_join(CPU_BASE@, name), "cpufreq"@)
}

pub open spec fn cpu0_file(file: Seq<char>) -> Seq<char> {
    path_join(cpufreq_dir("cpu0"@), file)
}

pub open spec fn spec_available_governors(fs: SysFs) -> Seq<Seq<char>> {
    fs.spec_words(cpu0_file("scaling_available_governors"@))
}

pub open spec fn spec_available_epp(fs: SysFs) -> Seq<Seq<char>> {
    fs.spec_words(cpu0_file("energy_performance_available_preferences"@))
}

/// `cpuN` for a non-empty run of decimal digits N.
pub open spec fn is_cpu_n(name: Seq<char>) -> bool {
    starts_with(name, "cpu"@) && name.len() > "cpu"@.len() && all_digits(name.skip("cpu"@.len() as int))
}

pub open spec fn is_policy(fs: SysFs, name: Seq<char>) -> bool {
    is_cpu_n(name) && fs.spec_is_dir(cpufreq_dir(name))
}

/// The listed names that are cpufreq policies, in listing order.
pub open spec fn policy_filter(fs: SysFs, names: Seq<Seq<char>>) -> Seq<Seq<char>>
    decreases names.len(),
{
    if names.len() == 0 {
        seq![]
    } else {
        let r = policy_filter(fs, names.drop_last());
        if is_policy(fs, names.last()) {
            r.push(names.last())
        } else {
            r
        }
    }
}

/// The CPUs with a cpufreq policy, in sorted order.
pub open spec fn spec_policy_names(fs: SysFs) -> Seq<Seq<char>> {
    match fs.spec_list(CPU_BASE@) {
        Some(names) => sort_seq(policy_filter(fs, names)),
        None => seq![],
    }
}

pub open spec fn bool_opt(o: Option<Seq<char>>, v: Seq<char>) -> Option<bool> {
    match o {
        Some(x) => Some(x == v),
        None => None,
    }
}

pub fn status(fs: &SysFs) -> (s: CpuStatus)
    ensures
        opt_view(s.driver) == fs.spec_read_trim(cpu0_file("scaling_driver"@)),
        opt_view(s.governor) == fs.spec_read_trim(cpu0_file("scaling_governor"@)),
        opt_view(s.epp) == fs.spec_read_trim(cpu0_file("energy_performance_preference"@)),
        s.turbo_enabled == bool_opt(fs.spec_read_trim(NO_TURBO@), "0"@),
        string_views(s.available_governors@) == spec_available_governors(*fs),
        string_views(s.available_epp@) == spec_available_epp(*fs),
{
    let base = cpu_dir_of("cpu0");
    let turbo_enabled = match fs.read_trim(&String::from_str(NO_TURBO)) {
        Some(v) => Some(v == String::from_str("0")),
        None => None,
    };
    CpuStatus {
        driver: fs.read_trim(&join(&base, "scaling_driver")),
        governor: fs.read_trim(&join(&base, "scaling_governor")),
        epp: fs.read_trim(&join(&base, "energy_performance_preference")),
        turbo_enabled,
        available_governors: available_governors(fs),
        available_epp: available_epp(fs),
    }
}

fn cpu_dir_of(name: &str) -> (d: String)
    ensures
        d@ == cpufreq_dir(name@),
{
    join(&join(&String::from_str(CPU_BASE), name), "cpufreq")
}

pub fn available_governors(fs: &SysFs) -> (v: Vec<String>)
    ensures
        string_views(v@) == spec_available_governors(*fs),
{
    fs.words(&join(&cpu_dir_of("cpu0"), "scaling_available_governors"))
}

pub fn available_epp(fs: &SysFs) -> (v: Vec<String>)
    ensures
        string_views(v@) == spec_available_epp(*fs),
{
    fs.words(&join(&cpu_dir_of("cpu0"), "energy_performance_available_preferences"))
}

fn is_cpu_name(name: &String) -> (b: bool)
    ensures
        b == is_cpu_n(name@),
{
    let nc = chars_of(name.as_str());
    let pc = chars_of("cpu");
    if !has_prefix(&nc, &pc) || nc.len() <= pc.len() {
        return false;
    }
    let mut i = pc.len();
    while i < nc.len()
        invariant
            pc@ == "cpu"@,
            pc@.len() <= i <= nc@.len(),
            nc@ == name@,
            forall|k: int| pc@.len() <= k < i ==> crate::text::is_digit(#[trigger] nc@[k]),
        decreases nc@.len() - i,
    {
        let c = nc[i];
        if !('0' <= c && c <= '9') {
            assert(!crate::text::is_digit(name@.skip(pc@.len() as int)[i - pc@.len()]));
            return false;
        }
        i = i + 1;
    }
    assert forall|k: int| 0 <= k < name@.skip(pc@.len() as int).len() implies crate::text::is_digit(
        #[trigger] name@.skip(pc@.len() as int)[k],
    ) by {
        assert(name@.skip(pc@.len() as int)[k] == nc@[k + pc@.len()]);
    }
    true
}

/// The CPUs (`cpuN`) with a cpufreq policy directory, sorted by name.
pub fn policy_names(fs: &SysFs) -> (v: Vec<String>)
    ensures
        string_views(v@) == spec_policy_names(*fs),
{
    let names = match fs.list(&String::from_str(CPU_BASE)) {
        Some(v) => v,
        None => {
            let v: Vec<String> = Vec::new();
            assert(string_views(v@) =~= seq![]);
            return v;
        },
    };
    let ghost nv = string_views(names@);
    let mut kept: Vec<String> = Vec::new();
    let mut i: usize = 0;
    while i < names.len()
        invariant
            i <= names@.len(),
            nv == string_views(names@),
            string_views(kept@) == policy_filter(*fs, nv.take(i as int)),
        decreases names@.len() - i,
    {
        let n = &names[i];
        assert(nv.take(i + 1).drop_last() =~= nv.take(i as int));
        assert(nv.take(i + 1).last() == n@);
        if is_cpu_name(n) && fs.is_dir(&cpu_dir_of(n.as_str())) {
            let ghost before = string_views(kept@);
            kept.push(n.clone());
            assert(string_views(kept@) =~= before.push(n@));
        }
        i = i + 1;
    }
    assert(nv.take(names@.len() as int) =~= nv);
    sort_strings(kept)
}

/// The cpufreq policy directories, sorted (`policy_dirs`).
pub fn policy_dirs(fs: &SysFs) -> (v: Vec<String>)
    ensures
        string_views(v@) == spec_policy_names(*fs).map_values(|n: Seq<char>| cpufreq_dir(n)),
{
    let names = policy_names(fs);
    let mut out: Vec<String> = Vec::new();
    let mut i: usize = 0;
    while i < names.len()
        invariant
            i <= names@.len(),
            out@.len() == i,
            forall|k: int| 0 <= k < i ==> (#[trigger] out@[k])@ == cpufreq_dir(names@[k]@),
        decreases names@.len() - i,
    {
        out.push(cpu_dir_of(names[i].as_str()));
        i = i + 1;
    }
    assert(string_views(out@) =~= string_views(names@).map_values(|n: Seq<char>| cpufreq_dir(n)));
    out
}

pub open spec fn backup_of(fs: SysFs, name: Seq<char>) -> PolicyBackupView {
    PolicyBackupView {
        cpu: name,
        governor: fs.spec_read_trim(path_join(cpufreq_dir(name), "scaling_governor"@)),
        epp: fs.spec_read_trim(path_join(cpufreq_dir(name), "energy_performance_preference"@)),
    }
}

/// Snapshot the current governor/EPP/turbo so `restore` can undo `apply_*`.
pub fn capture(fs: &SysFs) -> (b: CpuBackup)
    ensures
        backup_views(b.policies@) == spec_policy_names(*fs).map_values(|n: Seq<char>| backup_of(*fs, n)),
        opt_view(b.no_turbo) == fs.spec_read_trim(NO_TURBO@),
{
    let names = policy_names(fs);
    let mut policies: Vec<PolicyBackup> = Vec::new();
    let mut i: usize = 0;
    while i < names.len()
        invariant
            i <= names@.len(),
            policies@.len() == i,
            forall|k: int| 0 <= k < i ==> (#[trigger] policies@[k])@ == backup_of(*fs, names@[k]@),
        decreases names@.len() - i,
    {
        let dir = cpu_dir_of(names[i].as_str());
        policies.push(PolicyBackup {
            cpu: names[i].clone(),
            governor: fs.read_trim(&join(&dir, "scaling_governor")),
            epp: fs.read_trim(&join(&dir, "energy_performance_preference")),
        });
        i = i + 1;
    }
    assert(backup_views(policies@) =~= string_views(names@).map_values(|n: Seq<char>| backup_of(*fs, n)));
    CpuBackup { policies, no_turbo: fs.read_trim(&String::from_str(NO_TURBO)) }
}

/// Reject `value` unless it is one of `allowed`.
pub fn ensure_allowed(value: &str, allowed: &[String], kind: &str) -> (r: Result<(), HalError>)
    ensures
        match r {
            Ok(()) => string_views(allowed@).contains(value@),
            Err(e) => !string_views(allowed@).contains(value@) && e.kind == ErrorKind::InvalidInput
                && e.message@ == not_available_message(kind@, value@, string_views(allowed@)),
        },
{
    if crate::platform_profile::contains_string(allowed, value) {
        return Ok(());
    }
    let mut msg = String::from_str(kind);
    append_str(&mut msg, " '");
    append_str(&mut msg, value);
    append_str(&mut msg, "' not available; options: ");
    let opts = join_strings(allowed, ", ");
    append_str(&mut msg, opts.as_str());
    Err(HalError { kind: ErrorKind::InvalidInput, message: msg })
}


pub type WriteView = (Seq<char>, Seq<char>, bool);

/// The governor write for one policy directory.
pub open spec fn governor_write(dir: Seq<char>, governor: Seq<char>, required: bool) -> WriteView {
    (path_join(dir, "scaling_governor"@), governor, required)
}

/// `set_epp`: a best-effort EPP write, made only when the file exists and the
/// value is advertised.
pub open spec fn epp_writes(fs: SysFs, dir: Seq<char>, epp: Option<Seq<char>>, epps: Seq<Seq<char>>) -> Seq<WriteView> {
    match epp {
        Some(e) => if fs.spec_exists(path_join(dir, "energy_performance_preference"@)) && epps.contains(e) {
            seq![(path_join(dir, "energy_performance_preference"@), e, false)]
        } else {
            seq![]
        },
        None => seq![],
    }
}

/// `set_turbo`: no_turbo is written when present ("0" enables turbo).
pub open spec fn turbo_writes(fs: SysFs, enabled: bool) -> Seq<WriteView> {
    if fs.spec_exists(NO_TURBO@) {
        seq![(NO_TURBO@, if enabled { "0"@ } else { "1"@ }, true)]
    } else {
        seq![]
    }
}

/// The governor (and EPP) writes for each policy directory in turn.
pub open spec fn policy_writes(
    fs: SysFs,
    dirs: Seq<Seq<char>>,
    governor: Seq<char>,
    epp: Option<Seq<char>>,
    epps: Seq<Seq<char>>,
) -> Seq<WriteView>
    decreases dirs.len(),
{
    if dirs.len() == 0 {
        seq![]
    } else {
        policy_writes(fs, dirs.drop_last(), governor, epp, epps) + seq![governor_write(dirs.last(), governor, true)]
            + epp_writes(fs, dirs.last(), epp, epps)
    }
}

pub open spec fn spec_policy_dirs(fs: SysFs) -> Seq<Seq<char>> {
    spec_policy_names(fs).map_values(|n: Seq<char>| cpufreq_dir(n))
}

/// `apply`: the governor is checked against the advertised list (at the first
/// policy, so no write happens when it is refused); EPP is best effort; turbo
/// maps to no_turbo.
pub open spec fn spec_apply(fs: SysFs, governor: Seq<char>, epp: Option<Seq<char>>, turbo: bool) -> PlanView {
    let dirs = spec_policy_dirs(fs);
    let govs = spec_available_governors(fs);
    if dirs.len() > 0 && !govs.contains(governor) {
        plan_fail(ErrorKind::InvalidInput, not_available_message("governor"@, governor, govs))
    } else {
        (policy_writes(fs, dirs, governor, epp, spec_available_epp(fs)) + turbo_writes(fs, turbo), Ok(()))
    }
}

fn set_governor(dir: &String, governor: &str, allowed: &[String], required: bool) -> (r: Result<Write, HalError>)
    ensures
        match r {
            Ok(w) => string_views(allowed@).contains(governor@) && write_view(w) == governor_write(
                dir@,
                governor@,
                required,
            ),
            Err(e) => !string_views(allowed@).contains(governor@) && e.kind == ErrorKind::InvalidInput
                && e.message@ == not_available_message("governor"@, governor@, string_views(allowed@)),
        },
{
    match ensure_allowed(governor, allowed, "governor") {
        Ok(()) => Ok(Write { path: join(dir, "scaling_governor"), value: String::from_str(governor), required }),
        Err(e) => Err(e),
    }
}

fn set_epp(fs: &SysFs, dir: &String, epp: &str, allowed: &[String], out: &mut Vec<Write>)
    ensures
        write_views(final(out)@) == write_views(old(out)@) + epp_writes(*fs, dir@, Some(epp@), string_views(allowed@)),
{
    let path = join(dir, "energy_performance_preference");
    let ghost before = write_views(out@);
    if fs.path_exists(&path) && crate::platform_profile::contains_string(allowed, epp) {
        out.push(Write { path, value: String::from_str(epp), required: false });
        assert(write_views(out@) =~= before + epp_writes(*fs, dir@, Some(epp@), string_views(allowed@)));
    } else {
        assert(write_views(out@) =~= before + epp_writes(*fs, dir@, Some(epp@), string_views(allowed@)));
    }
}

fn set_turbo(fs: &SysFs, enabled: bool, out: &mut Vec<Write>)
    ensures
        write_views(final(out)@) == write_views(old(out)@) + turbo_writes(*fs, enabled),
{
    let ghost before = write_views(out@);
    let path = String::from_str(NO_TURBO);
    if fs.path_exists(&path) {
        out.push(Write { path, value: String::from_str(if enabled { "0" } else { "1" }), required: true });
    }
    assert(write_views(out@) =~= before + turbo_writes(*fs, enabled));
}

pub open spec fn write_views(ws: Seq<Write>) -> Seq<WriteView> {
    crate::plan::write_views(ws)
}

pub open spec fn opt_str_view(o: Option<&str>) -> Option<Seq<char>> {
    match o {
        Some(s) => Some(s@),
        None => None,
    }
}

/// Apply an arbitrary cpufreq lever set to every policy. `governor` is validated
/// against the kernel-advertised list; `epp` is best-effort (only honoured under
/// the powersave governor in intel_pstate active mode). Turbo maps to no_turbo.
pub fn apply(fs: &SysFs, governor: &str, epp: Option<&str>, turbo: bool) -> (p: Plan)
    ensures
        p@ == spec_apply(*fs, governor@, opt_str_view(epp), turbo),
{
    let govs = available_governors(fs);
    let epps = available_epp(fs);
    let dirs = policy_dirs(fs);
    let ghost dv = string_views(dirs@);
    let ghost ev = opt_str_view(epp);
    let mut writes: Vec<Write> = Vec::new();
    let mut i: usize = 0;
    while i < dirs.len()
        invariant
            i <= dirs@.len(),
            dv == string_views(dirs@),
            dv == spec_policy_dirs(*fs),
            ev == opt_str_view(epp),
            string_views(govs@) == spec_available_governors(*fs),
            string_views(epps@) == spec_available_epp(*fs),
            i > 0 ==> spec_available_governors(*fs).contains(governor@),
            write_views(writes@) == policy_writes(*fs, dv.take(i as int), governor@, ev, spec_available_epp(*fs)),
        decreases dirs@.len() - i,
    {
        assert(dv.take(i + 1).drop_last() =~= dv.take(i as int));
        assert(dv.take(i + 1).last() == dirs@[i as int]@);
        match set_governor(&dirs[i], governor, govs.as_slice(), true) {
            Ok(w) => {
                let ghost before = write_views(writes@);
                writes.push(w);
                assert(write_views(writes@) =~= before.push(write_view(w)));
            },
            Err(e) => {
                assert(i == 0);
                let p = Plan { writes, outcome: Err(e) };
                assert(p@.0 =~= seq![]);
                return p;
            },
        }
        match epp {
            Some(e) => set_epp(fs, &dirs[i], e, epps.as_slice(), &mut writes),
            None => {},
        }
        assert(write_views(writes@) =~= policy_writes(*fs, dv.take(i + 1), governor@, ev, spec_available_epp(*fs)));
        i = i + 1;
    }
    assert(dv.take(dirs@.len() as int) =~= dv);
    set_turbo(fs, turbo, &mut writes);
    Plan { writes, outcome: Ok(()) }
}

/// Performance governor on every policy, turbo on.
pub fn apply_performance(fs: &SysFs) -> (p: Plan)
    ensures
        p@ == spec_apply(*fs, "performance"@, None, true),
{
    apply(fs, "performance", None, true)
}

/// Powersave governor with balance_performance EPP (best effort), turbo on.
pub fn apply_balanced(fs: &SysFs) -> (p: Plan)
    ensures
        p@ == spec_apply(*fs, "powersave"@, Some("balance_performance"@), true),
{
    apply(fs, "powersave", Some("balance_performance"), true)
}

/// The writes `restore` makes for each backed-up policy: its governor when still
/// advertised and its EPP as in `set_epp`, both best effort.
pub open spec fn restore_writes(
    fs: SysFs,
    ps: Seq<PolicyBackupView>,
    govs: Seq<Seq<char>>,
    epps: Seq<Seq<char>>,
) -> Seq<WriteView>
    decreases ps.len(),
{
    if ps.len() == 0 {
        seq![]
    } else {
        let p = ps.last();
        let dir = cpufreq_dir(p.cpu);
        restore_writes(fs, ps.drop_last(), govs, epps) + (match p.governor {
            Some(g) => if govs.contains(g) {
                seq![governor_write(dir, g, false)]
            } else {
                seq![]
            },
            None => seq![],
        }) + epp_writes(fs, dir, p.epp, epps)
    }
}

pub open spec fn spec_restore(fs: SysFs, ps: Seq<PolicyBackupView>, no_turbo: Option<Seq<char>>) -> PlanView {
    (restore_writes(fs, ps, spec_available_governors(fs), spec_available_epp(fs)) + (match no_turbo {
        Some(nt) => if fs.spec_exists(NO_TURBO@) {
            seq![(NO_TURBO@, nt, false)]
        } else {
            seq![]
        },
        None => seq![],
    }), Ok(()))
}

/// Put back what `capture` recorded. Every write is best effort.
pub fn restore(fs: &SysFs, backup: &CpuBackup) -> (p: Plan)
    ensures
        p@ == spec_restore(*fs, backup_views(backup.policies@), opt_view(backup.no_turbo)),
{
    let govs = available_governors(fs);
    let epps = available_epp(fs);
    let ghost bv = backup_views(backup.policies@);
    let mut writes: Vec<Write> = Vec::new();
    let mut i: usize = 0;
    while i < backup.policies.len()
        invariant
            i <= backup.policies@.len(),
            bv == backup_views(backup.policies@),
            string_views(govs@) == spec_available_governors(*fs),
            string_views(epps@) == spec_available_epp(*fs),
            write_views(writes@) == restore_writes(
                *fs,
                bv.take(i as int),
                spec_available_governors(*fs),
                spec_available_epp(*fs),
            ),
        decreases backup.policies@.len() - i,
    {
        let p = &backup.policies[i];
        assert(bv.take(i + 1).drop_last() =~= bv.take(i as int));
        assert(bv.take(i + 1).last() == p@);
        let dir = cpu_dir_of(p.cpu.as_str());
        let ghost w0 = write_views(writes@);
        match &p.governor {
            Some(g) => match set_governor(&dir, g.as_str(), govs.as_slice(), false) {
                Ok(w) => {
                    writes.push(w);
                    assert(write_views(writes@) =~= w0.push(write_view(w)));
                },
                Err(_) => {},
            },
            None => {},
        }
        let ghost w1 = write_views(writes@);
        match &p.epp {
            Some(e) => set_epp(fs, &dir, e.as_str(), epps.as_slice(), &mut writes),
            None => {
                assert(write_views(writes@) =~= w1 + epp_writes(*fs, dir@, None, spec_available_epp(*fs)));
            },
        }
        assert(write_views(writes@) =~= restore_writes(
            *fs,
            bv.take(i + 1),
            spec_available_governors(*fs),
            spec_available_epp(*fs),
        ));
        i = i + 1;
    }
    assert(bv.take(backup.policies@.len() as int) =~= bv);
    let ghost w2 = write_views(writes@);
    match &backup.no_turbo {
        Some(nt) => {
            let path = String::from_str(NO_TURBO);
            if fs.path_exists(&path) {
                writes.push(Write { path, value: nt.clone(), required: false });
            }
        },
        None => {},
    }
    let p = Plan { writes, outcome: Ok(()) };
    assert(p@.0 =~= spec_restore(*fs, bv, opt_view(backup.no_turbo)).0);
    p
}

/// Each write puts back the value its file already holds.
pub open spec fn writes_current_values(fs: SysFs, ws: Seq<WriteView>) -> bool {
    forall|i: int| 0 <= i < ws.len() ==> fs.spec_read_trim(#[trigger] ws[i].0) == Some(ws[i].1)
}

proof fn lemma_restore_writes_current(fs: SysFs, names: Seq<Seq<char>>, govs: Seq<Seq<char>>, epps: Seq<Seq<char>>)
    ensures
        writes_current_values(fs, restore_writes(fs, names.map_values(|n: Seq<char>| backup_of(fs, n)), govs, epps)),
    decreases names.len(),
{
    let ps = names.map_values(|n: Seq<char>| backup_of(fs, n));
    if names.len() > 0 {
        let rest = names.drop_last();
        assert(ps.drop_last() =~= rest.map_values(|n: Seq<char>| backup_of(fs, n)));
        lemma_restore_writes_current(fs, rest, govs, epps);
        let p = ps.last();
        let dir = cpufreq_dir(p.cpu);
        let before = restore_writes(fs, ps.drop_last(), govs, epps);
        let g = match p.governor {
            Some(g) => if govs.contains(g) {
                seq![governor_write(dir, g, false)]
            } else {
                seq![]
            },
            None => seq![],
        };
        let e = epp_writes(fs, dir, p.epp, epps);
        assert(restore_writes(fs, ps, govs, epps) == before + g + e);
        let all = before + g + e;
        assert forall|i: int| 0 <= i < all.len() implies fs.spec_read_trim(#[trigger] all[i].0) == Some(all[i].1) by {
            if i < before.len() {
                assert(all[i] == before[i]);
            } else if i < before.len() + g.len() {
                assert(all[i] == g[i - before.len()]);
            } else {
                assert(all[i] == e[i - before.len() - g.len()]);
            }
        }
    }
}

/// Restoring a snapshot right after taking it changes nothing: every write
/// it plans puts back the value its file already holds.
pub proof fn lemma_restore_of_capture_is_noop(fs: SysFs)
    ensures
        writes_current_values(
            fs,
            spec_restore(
                fs,
                spec_policy_names(fs).map_values(|n: Seq<char>| backup_of(fs, n)),
                fs.spec_read_trim(NO_TURBO@),
            ).0,
        ),
{
    let names = spec_policy_names(fs);
    let ps = names.map_values(|n: Seq<char>| backup_of(fs, n));
    let govs = spec_available_governors(fs);
    let epps = spec_available_epp(fs);
    lemma_restore_writes_current(fs, names, govs, epps);
    let before = restore_writes(fs, ps, govs, epps);
    let nt = match fs.spec_read_trim(NO_TURBO@) {
        Some(nt) => if fs.spec_exists(NO_TURBO@) {
            seq![(NO_TURBO@, nt, false)]
        } else {
            seq![]
        },
        None => seq![],
    };
    let all = before + nt;
    assert forall|i: int| 0 <= i < all.len() implies fs.spec_read_trim(#[trigger] all[i].0) == Some(all[i].1) by {
        if i < before.len() {
            assert(all[i] == before[i]);
        } else {
            assert(all[i] == nt[i - before.len()]);
        }
    }
}

/// A write `apply` may plan: an advertised governor, an advertised EPP into an
/// existing file, or the existing no_turbo switch.
pub open spec fn advertised_write(fs: SysFs, w: WriteView) -> bool {
    ||| spec_available_governors(fs).contains(w.1)
    ||| fs.spec_exists(w.0) && spec_available_epp(fs).contains(w.1)
    ||| w.0 == NO_TURBO@ && fs.spec_exists(NO_TURBO@)
}

proof fn lemma_policy_writes_advertised(
    fs: SysFs,
    dirs: Seq<Seq<char>>,
    governor: Seq<char>,
    epp: Option<Seq<char>>,
)
    requires
        dirs.len() > 0 ==> spec_available_governors(fs).contains(governor),
    ensures
        forall|i: int|
            0 <= i < policy_writes(fs, dirs, governor, epp, spec_available_epp(fs)).len() ==> advertised_write(
                fs,
                #[trigger] policy_writes(fs, dirs, governor, epp, spec_available_epp(fs))[i],
            ),
    decreases dirs.len(),
{
    if dirs.len() > 0 {
        let epps = spec_available_epp(fs);
        lemma_policy_writes_advertised(fs, dirs.drop_last(), governor, epp);
        let before = policy_writes(fs, dirs.drop_last(), governor, epp, epps);
        let g = seq![governor_write(dirs.last(), governor, true)];
        let e = epp_writes(fs, dirs.last(), epp, epps);
        let all = before + g + e;
        assert(policy_writes(fs, dirs, governor, epp, epps) == all);
        assert forall|i: int| 0 <= i < all.len() implies advertised_write(fs, #[trigger] all[i]) by {
            if i < before.len() {
                assert(all[i] == before[i]);
            } else if i < before.len() + 1 {
                assert(all[i] == g[0]);
            } else {
                assert(all[i] == e[i - before.len() - 1]);
            }
        }
    }
}

/// `apply` only ever writes values the kernel advertises: a listed governor,
/// a listed EPP into an existing file, or the existing no_turbo switch.
pub proof fn lemma_apply_writes_only_advertised(fs: SysFs, governor: Seq<char>, epp: Option<Seq<char>>, turbo: bool)
    ensures
        forall|i: int|
            0 <= i < spec_apply(fs, governor, epp, turbo).0.len() ==> advertised_write(
                fs,
                #[trigger] spec_apply(fs, governor, epp, turbo).0[i],
            ),
{
    let dirs = spec_policy_dirs(fs);
    let govs = spec_available_governors(fs);
    if dirs.len() > 0 && !govs.contains(governor) {
    } else {
        lemma_policy_writes_advertised(fs, dirs, governor, epp);
        let pw = policy_writes(fs, dirs, governor, epp, spec_available_epp(fs));
        let tw = turbo_writes(fs, turbo);
        let all = pw + tw;
        assert forall|i: int| 0 <= i < all.len() implies advertised_write(fs, #[trigger] all[i]) by {
            if i < pw.len() {
                assert(all[i] == pw[i]);
            } else {
                assert(all[i] == tw[i - pw.len()]);
            }
        }
    }
}

// ---------------------------------------------------------------------------
// Restore after apply
// ---------------------------------------------------------------------------

/// A write the cpufreq levers make in state `fs`: a governor, an EPP into an
/// existing file, or the existing no_turbo switch.
pub open spec fn lever_write(fs: SysFs, w: WriteView) -> bool {
    &&& w.0.len() > 0
    &&& {
        ||| w.0.last() == 'r'
        ||| w.0.last() == 'e' && fs.spec_exists(w.0)
        ||| w.0 == NO_TURBO@ && fs.spec_exists(NO_TURBO@)
    }
}

pub open spec fn lever_writes(fs: SysFs, ws: Seq<WriteView>) -> bool {
    forall|i: int| 0 <= i < ws.len() ==> lever_write(fs, #[trigger] ws[i])
}

proof fn lemma_lever_concat(fs: SysFs, a: Seq<WriteView>, b: Seq<WriteView>)
    requires
        lever_writes(fs, a),
        lever_writes(fs, b),
    ensures
        lever_writes(fs, a + b),
{
    assert forall|i: int| 0 <= i < (a + b).len() implies lever_write(fs, #[trigger] (a + b)[i]) by {
        if i < a.len() {
            assert((a + b)[i] == a[i]);
        } else {
            assert((a + b)[i] == b[i - a.len()]);
        }
    }
}

proof fn lemma_gov_write_lever(fs: SysFs, dir: Seq<char>, g: Seq<char>, req: bool)
    ensures
        lever_writes(fs, seq![governor_write(dir, g, req)]),
{
    reveal_strlit("scaling_governor");
    lemma_join_last(dir, "scaling_governor"@);
}

proof fn lemma_epp_writes_lever(fs: SysFs, dir: Seq<char>, epp: Option<Seq<char>>, epps: Seq<Seq<char>>)
    ensures
        lever_writes(fs, epp_writes(fs, dir, epp, epps)),
{
    reveal_strlit("energy_performance_preference");
    lemma_join_last(dir, "energy_performance_preference"@);
}

proof fn lemma_no_turbo_last()
    ensures
        NO_TURBO@.len() > 0,
        NO_TURBO@.last() == 'o',
{
    reveal_strlit("/sys/devices/system/cpu/intel_pstate/no_turbo");
}

proof fn lemma_policy_writes_lever(
    fs: SysFs,
    dirs: Seq<Seq<char>>,
    governor: Seq<char>,
    epp: Option<Seq<char>>,
    epps: Seq<Seq<char>>,
)
    ensures
        lever_writes(fs, policy_writes(fs, dirs, governor, epp, epps)),
    decreases dirs.len(),
{
    if dirs.len() > 0 {
        lemma_policy_writes_lever(fs, dirs.drop_last(), governor, epp, epps);
        lemma_gov_write_lever(fs, dirs.last(), governor, true);
        lemma_epp_writes_lever(fs, dirs.last(), epp, epps);
        let a = policy_writes(fs, dirs.drop_last(), governor, epp, epps);
        let g = seq![governor_write(dirs.last(), governor, true)];
        lemma_lever_concat(fs, a, g);
        lemma_lever_concat(fs, a + g, epp_writes(fs, dirs.last(), epp, epps));
    }
}

/// Every write `apply` plans is a lever write.
proof fn lemma_apply_lever(fs: SysFs, governor: Seq<char>, epp: Option<Seq<char>>, turbo: bool)
    ensures
        lever_writes(fs, spec_apply(fs, governor, epp, turbo).0),
{
    lemma_no_turbo_last();
    let dirs = spec_policy_dirs(fs);
    let epps = spec_available_epp(fs);
    lemma_policy_writes_lever(fs, dirs, governor, epp, epps);
    lemma_lever_concat(fs, policy_writes(fs, dirs, governor, epp, epps), turbo_writes(fs, turbo));
}

proof fn lemma_restore_writes_lever(fs: SysFs, ps: Seq<PolicyBackupView>, govs: Seq<Seq<char>>, epps: Seq<Seq<char>>)
    ensures
        lever_writes(fs, restore_writes(fs, ps, govs, epps)),
    decreases ps.len(),
{
    if ps.len() > 0 {
        let p = ps.last();
        let dir = cpufreq_dir(p.cpu);
        lemma_restore_writes_lever(fs, ps.drop_last(), govs, epps);
        let a = restore_writes(fs, ps.drop_last(), govs, epps);
        let g: Seq<WriteView> = match p.governor {
            Some(x) => if govs.contains(x) {
                seq![governor_write(dir, x, false)]
            } else {
                seq![]
            },
            None => seq![],
        };
        match p.governor {
            Some(x) => lemma_gov_write_lever(fs, dir, x, false),
            None => {},
        }
        lemma_epp_writes_lever(fs, dir, p.epp, epps);
        lemma_lever_concat(fs, a, g);
        lemma_lever_concat(fs, a + g, epp_writes(fs, dir, p.epp, epps));
    }
}

/// The no_turbo write `restore` ends with, if any.
pub open spec fn turbo_restore(fs: SysFs, no_turbo: Option<Seq<char>>) -> Seq<WriteView> {
    match no_turbo {
        Some(nt) => if fs.spec_exists(NO_TURBO@) {
            seq![(NO_TURBO@, nt, false)]
        } else {
            seq![]
        },
        None => seq![],
    }
}

/// Every write `restore` plans is a lever write.
proof fn lemma_restore_lever(fs: SysFs, ps: Seq<PolicyBackupView>, no_turbo: Option<Seq<char>>)
    ensures
        lever_writes(fs, spec_restore(fs, ps, no_turbo).0),
{
    lemma_no_turbo_last();
    let govs = spec_available_governors(fs);
    let epps = spec_available_epp(fs);
    lemma_restore_writes_lever(fs, ps, govs, epps);
    lemma_lever_concat(fs, restore_writes(fs, ps, govs, epps), turbo_restore(fs, no_turbo));
    assert(spec_restore(fs, ps, no_turbo).0 == restore_writes(fs, ps, govs, epps) + turbo_restore(fs, no_turbo));
}

/// A path whose last character no lever write ends in is not written.
proof fn lemma_lever_misses(fs: SysFs, ws: Seq<WriteView>, p: Seq<char>)
    requires
        lever_writes(fs, ws),
        p.len() > 0,
        p.last() != 'r' && p.last() != 'e' && p.last() != 'o',
    ensures
        last_write(ws, p) is None,
{
    lemma_no_turbo_last();
    assert forall|i: int| 0 <= i < ws.len() implies (#[trigger] ws[i]).0 != p by {
        assert(lever_write(fs, ws[i]));
    }
    lemma_last_write_untouched(ws, p);
}

/// An absent path ending in 'e' or 'o' is not a lever write.
proof fn lemma_lever_misses_absent(fs: SysFs, ws: Seq<WriteView>, p: Seq<char>)
    requires
        lever_writes(fs, ws),
        p.len() > 0,
        p.last() != 'r',
        !fs.spec_exists(p),
    ensures
        last_write(ws, p) is None,
{
    assert forall|i: int| 0 <= i < ws.len() implies (#[trigger] ws[i]).0 != p by {
        assert(lever_write(fs, ws[i]));
    }
    lemma_last_write_untouched(ws, p);
}

proof fn lemma_policy_filter_kept(fs: SysFs, ws: Seq<WriteView>, after: SysFs, names: Seq<Seq<char>>)
    requires
        applied(fs, ws, after),
        lever_writes(fs, ws),
    ensures
        policy_filter(after, names) == policy_filter(fs, names),
    decreases names.len(),
{
    if names.len() > 0 {
        let n = names.last();
        reveal_strlit("cpufreq");
        lemma_join_last(path_join(CPU_BASE@, n), "cpufreq"@);
        lemma_lever_misses(fs, ws, cpufreq_dir(n));
        lemma_applied_unwritten(fs, ws, after, cpufreq_dir(n));
        lemma_policy_filter_kept(fs, ws, after, names.drop_last());
    }
}

/// Lever writes keep the list of policies and the advertised values.
proof fn lemma_levers_keep_layout(fs: SysFs, ws: Seq<WriteView>, after: SysFs)
    requires
        applied(fs, ws, after),
        lever_writes(fs, ws),
    ensures
        spec_policy_names(after) == spec_policy_names(fs),
        spec_available_governors(after) == spec_available_governors(fs),
        spec_available_epp(after) == spec_available_epp(fs),
{
    reveal_strlit("/sys/devices/system/cpu");
    reveal_strlit("scaling_available_governors");
    reveal_strlit("energy_performance_available_preferences");
    lemma_lever_misses(fs, ws, CPU_BASE@);
    lemma_applied_unwritten(fs, ws, after, CPU_BASE@);
    match fs.spec_list(CPU_BASE@) {
        Some(names) => lemma_policy_filter_kept(fs, ws, after, names),
        None => {},
    }
    lemma_join_last(cpufreq_dir("cpu0"@), "scaling_available_governors"@);
    lemma_join_last(cpufreq_dir("cpu0"@), "energy_performance_available_preferences"@);
    lemma_lever_misses(fs, ws, cpu0_file("scaling_available_governors"@));
    lemma_lever_misses(fs, ws, cpu0_file("energy_performance_available_preferences"@));
    lemma_applied_unwritten(fs, ws, after, cpu0_file("scaling_available_governors"@));
    lemma_applied_unwritten(fs, ws, after, cpu0_file("energy_performance_available_preferences"@));
}

/// The path of a file in a CPU's cpufreq directory, written out.
proof fn lemma_policy_path(n: Seq<char>, file: Seq<char>)
    requires
        is_cpu_n(n),
        file.len() > 0,
        file[0] != '/',
    ensures
        path_join(cpufreq_dir(n), file) == CPU_BASE@ + seq!['/'] + n + seq!['/'] + "cpufreq"@ + seq!['/'] + file,
{
    reveal_strlit("/sys/devices/system/cpu");
    reveal_strlit("cpufreq");
    reveal_strlit("cpu");
    assert(n.take(3) == "cpu"@);
    assert(n[0] == n.take(3)[0]);
    assert(n.last() == n.skip(3)[n.len() - 4]);
    let a = CPU_BASE@ + seq!['/'] + n;
    assert(path_join(CPU_BASE@, n) == a);
    assert(a.last() == n.last());
    let b = a + seq!['/'] + "cpufreq"@;
    assert(path_join(a, "cpufreq"@) == b);
    assert(b.last() == 'q');
    assert(path_join(b, file) == b + seq!['/'] + file);
    assert(path_join(cpufreq_dir(n), file) =~= CPU_BASE@ + seq!['/'] + n + seq!['/'] + "cpufreq"@ + seq!['/'] + file);
}

/// Distinct CPUs have distinct attribute paths.
proof fn lemma_policy_path_injective(a: Seq<char>, b: Seq<char>, file: Seq<char>)
    requires
        is_cpu_n(a),
        is_cpu_n(b),
        file.len() > 0,
        file[0] != '/',
        path_join(cpufreq_dir(a), file) == path_join(cpufreq_dir(b), file),
    ensures
        a == b,
{
    lemma_policy_path(a, file);
    lemma_policy_path(b, file);
    let pre = CPU_BASE@ + seq!['/'];
    let suf = seq!['/'] + "cpufreq"@ + seq!['/'] + file;
    let x = path_join(cpufreq_dir(a), file);
    assert(x =~= pre + a + suf);
    assert(x =~= pre + b + suf);
    assert(a.len() == b.len());
    assert(a =~= x.subrange(pre.len() as int, (pre.len() + a.len()) as int));
    assert(b =~= x.subrange(pre.len() as int, (pre.len() + b.len()) as int));
}

pub open spec fn gov_path(n: Seq<char>) -> Seq<char> {
    path_join(cpufreq_dir(n), "scaling_governor"@)
}

pub open spec fn epp_path(n: Seq<char>) -> Seq<char> {
    path_join(cpufreq_dir(n), "energy_performance_preference"@)
}

pub open spec fn all_cpu_names(names: Seq<Seq<char>>) -> bool {
    forall|k: int| 0 <= k < names.len() ==> is_cpu_n(#[trigger] names[k])
}

/// The last governor `restore` writes for CPU `n` is its captured one.
proof fn lemma_restore_gov_last(
    mid: SysFs,
    fs: SysFs,
    names: Seq<Seq<char>>,
    govs: Seq<Seq<char>>,
    epps: Seq<Seq<char>>,
    n: Seq<char>,
    g: Seq<char>,
)
    requires
        all_cpu_names(names),
        is_cpu_n(n),
        backup_of(fs, n).governor == Some(g),
        govs.contains(g),
    ensures
        last_write(restore_writes(mid, names.map_values(|m: Seq<char>| backup_of(fs, m)), govs, epps), gov_path(n))
            == (if names.contains(n) {
            Some(g)
        } else {
            None::<Seq<char>>
        }),
    decreases names.len(),
{
    reveal_strlit("scaling_governor");
    reveal_strlit("energy_performance_preference");
    let ps = names.map_values(|m: Seq<char>| backup_of(fs, m));
    if names.len() == 0 {
        assert(!names.contains(n));
    } else {
        let m = names.last();
        let rest = names.drop_last();
        assert(ps.drop_last() =~= rest.map_values(|m: Seq<char>| backup_of(fs, m)));
        assert(all_cpu_names(rest)) by {
            assert forall|k: int| 0 <= k < rest.len() implies is_cpu_n(#[trigger] rest[k]) by {
                assert(rest[k] == names[k]);
            }
        }
        assert(is_cpu_n(m)) by {
            assert(m == names[names.len() - 1]);
        }
        lemma_restore_gov_last(mid, fs, rest, govs, epps, n, g);
        let p = ps.last();
        assert(p == backup_of(fs, m));
        let dir = cpufreq_dir(m);
        let a = restore_writes(mid, ps.drop_last(), govs, epps);
        let gw: Seq<WriteView> = match p.governor {
            Some(x) => if govs.contains(x) {
                seq![governor_write(dir, x, false)]
            } else {
                seq![]
            },
            None => seq![],
        };
        let ew = epp_writes(mid, dir, p.epp, epps);
        assert(restore_writes(mid, ps, govs, epps) == a + gw + ew);
        lemma_last_write_concat(a + gw, ew, gov_path(n));
        lemma_last_write_concat(a, gw, gov_path(n));
        lemma_join_last(cpufreq_dir(n), "scaling_governor"@);
        lemma_join_last(dir, "energy_performance_preference"@);
        lemma_last_write_untouched(ew, gov_path(n));
        if m == n {
            assert(gw == seq![governor_write(dir, g, false)]);
            assert(last_write(gw, gov_path(n)) == Some(g));
            assert(names.contains(n)) by {
                assert(names[names.len() - 1] == n);
            }
        } else {
            if gw.len() > 0 {
                if gw[0].0 == gov_path(n) {
                    lemma_policy_path_injective(m, n, "scaling_governor"@);
                }
            }
            lemma_last_write_untouched(gw, gov_path(n));
            assert(names.contains(n) == rest.contains(n)) by {
                if names.contains(n) {
                    let k = choose|k: int| 0 <= k < names.len() && names[k] == n;
                    assert(k < names.len() - 1);
                    assert(rest[k] == n);
                }
                if rest.contains(n) {
                    let k = choose|k: int| 0 <= k < rest.len() && rest[k] == n;
                    assert(names[k] == n);
                }
            }
        }
    }
}

/// The last EPP `restore` writes for CPU `n` is its captured one.
proof fn lemma_restore_epp_last(
    mid: SysFs,
    fs: SysFs,
    names: Seq<Seq<char>>,
    govs: Seq<Seq<char>>,
    epps: Seq<Seq<char>>,
    n: Seq<char>,
    e: Seq<char>,
)
    requires
        all_cpu_names(names),
        is_cpu_n(n),
        backup_of(fs, n).epp == Some(e),
        epps.contains(e),
        mid.spec_exists(epp_path(n)),
    ensures
        last_write(restore_writes(mid, names.map_values(|m: Seq<char>| backup_of(fs, m)), govs, epps), epp_path(n))
            == (if names.contains(n) {
            Some(e)
        } else {
            None::<Seq<char>>
        }),
    decreases names.len(),
{
    reveal_strlit("scaling_governor");
    reveal_strlit("energy_performance_preference");
    let ps = names.map_values(|m: Seq<char>| backup_of(fs, m));
    if names.len() == 0 {
        assert(!names.contains(n));
    } else {
        let m = names.last();
        let rest = names.drop_last();
        assert(ps.drop_last() =~= rest.map_values(|m: Seq<char>| backup_of(fs, m)));
        assert(all_cpu_names(rest)) by {
            assert forall|k: int| 0 <= k < rest.len() implies is_cpu_n(#[trigger] rest[k]) by {
                assert(rest[k] == names[k]);
            }
        }
        assert(is_cpu_n(m)) by {
            assert(m == names[names.len() - 1]);
        }
        lemma_restore_epp_last(mid, fs, rest, govs, epps, n, e);
        let p = ps.last();
        assert(p == backup_of(fs, m));
        let dir = cpufreq_dir(m);
        let a = restore_writes(mid, ps.drop_last(), govs, epps);
        let gw: Seq<WriteView> = match p.governor {
            Some(x) => if govs.contains(x) {
                seq![governor_write(dir, x, false)]
            } else {
                seq![]
            },
            None => seq![],
        };
        let ew = epp_writes(mid, dir, p.epp, epps);
        assert(restore_writes(mid, ps, govs, epps) == a + gw + ew);
        lemma_last_write_concat(a + gw, ew, epp_path(n));
        lemma_last_write_concat(a, gw, epp_path(n));
        lemma_join_last(cpufreq_dir(n), "energy_performance_preference"@);
        lemma_join_last(dir, "scaling_governor"@);
        lemma_last_write_untouched(gw, epp_path(n));
        if m == n {
            assert(ew == seq![(epp_path(n), e, false)]);
            assert(last_write(ew, epp_path(n)) == Some(e));
            assert(names.contains(n)) by {
                assert(names[names.len() - 1] == n);
            }
        } else {
            if ew.len() > 0 {
                if ew[0].0 == epp_path(n) {
                    lemma_policy_path_injective(m, n, "energy_performance_preference"@);
                }
            }
            lemma_last_write_untouched(ew, epp_path(n));
            assert(names.contains(n) == rest.contains(n)) by {
                if names.contains(n) {
                    let k = choose|k: int| 0 <= k < names.len() && names[k] == n;
                    assert(k < names.len() - 1);
                    assert(rest[k] == n);
                }
                if rest.contains(n) {
                    let k = choose|k: int| 0 <= k < rest.len() && rest[k] == n;
                    assert(names[k] == n);
                }
            }
        }
    }
}

proof fn lemma_policy_filter_cpu(fs: SysFs, names: Seq<Seq<char>>)
    ensures
        all_cpu_names(policy_filter(fs, names)),
    decreases names.len(),
{
    if names.len() > 0 {
        lemma_policy_filter_cpu(fs, names.drop_last());
        let r = policy_filter(fs, names.drop_last());
        if is_policy(fs, names.last()) {
            assert forall|k: int| 0 <= k < r.push(names.last()).len() implies is_cpu_n(
                #[trigger] r.push(names.last())[k],
            ) by {
                if k < r.len() {
                    assert(r.push(names.last())[k] == r[k]);
                }
            }
        }
    }
}

/// Every policy name is a `cpuN`.
proof fn lemma_policy_names_cpu(fs: SysFs)
    ensures
        all_cpu_names(spec_policy_names(fs)),
{
    broadcast use vstd::seq_lib::to_multiset_contains;

    match fs.spec_list(CPU_BASE@) {
        Some(names) => {
            let f = policy_filter(fs, names);
            lemma_policy_filter_cpu(fs, names);
            lemma_sort_seq(f);
            let s = sort_seq(f);
            assert forall|k: int| 0 <= k < s.len() implies is_cpu_n(#[trigger] s[k]) by {
                assert(s.contains(s[k]));
                assert(s.to_multiset().count(s[k]) > 0);
                assert(f.contains(s[k]));
                let j = choose|j: int| 0 <= j < f.len() && f[j] == s[k];
                assert(is_cpu_n(f[j]));
            }
        },
        None => {},
    }
}

/// What `capture` records of the policies.
pub open spec fn captured_policies(fs: SysFs) -> Seq<PolicyBackupView> {
    spec_policy_names(fs).map_values(|n: Seq<char>| backup_of(fs, n))
}

/// A state whose capture can be put back in full: every policy's governor is
/// readable and advertised, every existing EPP file reads an advertised
/// preference, and an existing no_turbo switch is readable.
pub open spec fn restorable(fs: SysFs) -> bool {
    &&& forall|k: int|
        0 <= k < spec_policy_names(fs).len() ==> {
            let n = #[trigger] spec_policy_names(fs)[k];
            &&& backup_of(fs, n).governor matches Some(g) && spec_available_governors(fs).contains(g)
            &&& fs.spec_exists(epp_path(n)) ==> (backup_of(fs, n).epp matches Some(e)
                && spec_available_epp(fs).contains(e))
        }
    &&& fs.spec_exists(NO_TURBO@) ==> fs.spec_read_trim(NO_TURBO@) is Some
}

/// Whether a path exists survives lever writes that all succeeded.
proof fn lemma_exists_kept(before: SysFs, ws: Seq<WriteView>, after: SysFs, p: Seq<char>)
    requires
        applied(before, ws, after),
        before.spec_exists(p),
    ensures
        after.spec_exists(p),
{
    match last_write(ws, p) {
        Some(v) => lemma_applied_written(before, ws, after, p, v),
        None => lemma_applied_unwritten(before, ws, after, p),
    }
}

/// `restore` undoes `apply`: after the writes of an `apply` and then of a
/// `restore` of the capture taken before it have all been stored, a fresh
/// capture equals the first one. `restore` itself never fails.
pub proof fn lemma_restore_undoes_apply(
    fs: SysFs,
    governor: Seq<char>,
    epp: Option<Seq<char>>,
    turbo: bool,
    mid: SysFs,
    after: SysFs,
)
    requires
        restorable(fs),
        applied(fs, spec_apply(fs, governor, epp, turbo).0, mid),
        applied(mid, spec_restore(mid, captured_policies(fs), fs.spec_read_trim(NO_TURBO@)).0, after),
    ensures
        spec_restore(mid, captured_policies(fs), fs.spec_read_trim(NO_TURBO@)).1 is Ok,
        spec_policy_names(after) == spec_policy_names(fs),
        captured_policies(after) == captured_policies(fs),
        after.spec_read_trim(NO_TURBO@) == fs.spec_read_trim(NO_TURBO@),
{
    let ws1 = spec_apply(fs, governor, epp, turbo).0;
    let ps = captured_policies(fs);
    let nt = fs.spec_read_trim(NO_TURBO@);
    let ws2 = spec_restore(mid, ps, nt).0;
    lemma_apply_lever(fs, governor, epp, turbo);
    lemma_restore_lever(mid, ps, nt);
    lemma_levers_keep_layout(fs, ws1, mid);
    lemma_levers_keep_layout(mid, ws2, after);
    lemma_no_turbo_last();
    let names = spec_policy_names(fs);
    lemma_policy_names_cpu(fs);
    let govs = spec_available_governors(fs);
    let epps = spec_available_epp(fs);
    let rw = restore_writes(mid, ps, govs, epps);
    let tw = turbo_restore(mid, nt);
    assert(ws2 == rw + tw);
    reveal_strlit("scaling_governor");
    reveal_strlit("energy_performance_preference");
    assert forall|k: int| 0 <= k < names.len() implies #[trigger] backup_of(after, names[k]) == backup_of(
        fs,
        names[k],
    ) by {
        let n = names[k];
        assert(is_cpu_n(n));
        assert(names.contains(n));
        // governor
        let g = backup_of(fs, n).governor->0;
        lemma_restore_gov_last(mid, fs, names, govs, epps, n, g);
        lemma_join_last(cpufreq_dir(n), "scaling_governor"@);
        lemma_last_write_untouched(tw, gov_path(n));
        lemma_last_write_concat(rw, tw, gov_path(n));
        match fs.raw(gov_path(n)) {
            Some(c) => lemma_trim_idempotent(c),
            None => {},
        }
        lemma_applied_written(mid, ws2, after, gov_path(n), g);
        assert(after.spec_read_trim(gov_path(n)) == Some(g));
        // energy performance preference
        lemma_join_last(cpufreq_dir(n), "energy_performance_preference"@);
        if fs.spec_exists(epp_path(n)) {
            let e = backup_of(fs, n).epp->0;
            lemma_exists_kept(fs, ws1, mid, epp_path(n));
            lemma_restore_epp_last(mid, fs, names, govs, epps, n, e);
            lemma_last_write_untouched(tw, epp_path(n));
            lemma_last_write_concat(rw, tw, epp_path(n));
            match fs.raw(epp_path(n)) {
                Some(c) => lemma_trim_idempotent(c),
                None => {},
            }
            lemma_applied_written(mid, ws2, after, epp_path(n), e);
        } else {
            lemma_lever_misses_absent(fs, ws1, epp_path(n));
            lemma_applied_unwritten(fs, ws1, mid, epp_path(n));
            lemma_lever_misses_absent(mid, ws2, epp_path(n));
            lemma_applied_unwritten(mid, ws2, after, epp_path(n));
        }
    }
    assert(captured_policies(after) =~= captured_policies(fs));
    if fs.spec_exists(NO_TURBO@) {
        lemma_exists_kept(fs, ws1, mid, NO_TURBO@);
        let v = nt->0;
        assert(tw == seq![(NO_TURBO@, v, false)]);
        assert(ws2.last() == (NO_TURBO@, v, false));
        match fs.raw(NO_TURBO@) {
            Some(c) => lemma_trim_idempotent(c),
            None => {},
        }
        lemma_applied_written(mid, ws2, after, NO_TURBO@, v);
    } else {
        lemma_lever_misses_absent(fs, ws1, NO_TURBO@);
        lemma_applied_unwritten(fs, ws1, mid, NO_TURBO@);
        lemma_lever_misses_absent(mid, ws2, NO_TURBO@);
        lemma_applied_unwritten(mid, ws2, after, NO_TURBO@);
    }
}

proof fn lemma_restore_writes_best_effort(fs: SysFs, ps: Seq<PolicyBackupView>, govs: Seq<Seq<char>>, epps: Seq<Seq<char>>)
    ensures
        forall|i: int|
            0 <= i < restore_writes(fs, ps, govs, epps).len() ==> !(#[trigger] restore_writes(fs, ps, govs, epps)[i]).2,
    decreases ps.len(),
{
    if ps.len() > 0 {
        lemma_restore_writes_best_effort(fs, ps.drop_last(), govs, epps);
        let p = ps.last();
        let dir = cpufreq_dir(p.cpu);
        let a = restore_writes(fs, ps.drop_last(), govs, epps);
        let g: Seq<WriteView> = match p.governor {
            Some(x) => if govs.contains(x) {
                seq![governor_write(dir, x, false)]
            } else {
                seq![]
            },
            None => seq![],
        };
        let e = epp_writes(fs, dir, p.epp, epps);
        let all = a + g + e;
        assert(restore_writes(fs, ps, govs, epps) == all);
        assert forall|i: int| 0 <= i < all.len() implies !(#[trigger] all[i]).2 by {
            if i < a.len() {
                assert(all[i] == a[i]);
            } else if i < a.len() + g.len() {
                assert(all[i] == g[i - a.len()]);
            } else {
                assert(all[i] == e[i - a.len() - g.len()]);
            }
        }
    }
}

/// `restore` never fails, and every write it plans is best effort, so a
/// failing write never stops the others.
pub proof fn lemma_restore_never_fails(fs: SysFs, ps: Seq<PolicyBackupView>, no_turbo: Option<Seq<char>>)
    ensures
        spec_restore(fs, ps, no_turbo).1 is Ok,
        forall|i: int| 0 <= i < spec_restore(fs, ps, no_turbo).0.len() ==> !(#[trigger] spec_restore(fs, ps, no_turbo).0[i]).2,
{
    let govs = spec_available_governors(fs);
    let epps = spec_available_epp(fs);
    lemma_restore_writes_best_effort(fs, ps, govs, epps);
    let a = restore_writes(fs, ps, govs, epps);
    let t = turbo_restore(fs, no_turbo);
    let all = a + t;
    assert(spec_restore(fs, ps, no_turbo).0 == all);
    assert forall|i: int| 0 <= i < all.len() implies !(#[trigger] all[i]).2 by {
        if i < a.len() {
            assert(all[i] == a[i]);
        } else {
            assert(all[i] == t[i - a.len()]);
        }
    }
}

} // verus!
