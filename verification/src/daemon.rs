//! The decisions of the privileged background daemon.
//!
//! Each iteration of the control loop the daemon reloads its configuration,
//! reads the sensors and the hotkey slot, and then
//!   * holds the configured profile, or picks one from AC/thermal state,
//!   * enforces the emergency thermal guard (Quiet above a threshold),
//!   * applies the battery charge limit when it changed,
//!   * re-applies the persisted keyboard colour on change or after resume.
//! [`decide`] turns what the loop remembers and what it just read into the
//! actions of one iteration; the loop performs them and reports back, and
//! [`settle`] turns the outcomes into what it remembers next time.

use vstd::prelude::*;
use crate::acer::spec_sense_dir;
use crate::config::{clamp_poll, opt_rgb_same, opt_rgb_view, Config, ConfigView};
use crate::control::{apply_balanced, spec_apply};
use crate::evdev::{find_hotkey_device, spec_find_hotkey_device};
use crate::fan::{self, FanMode};
use crate::input::{device_views, InputDevice};
use crate::plan::{append_best_effort, append_writes, best_effort, Plan, PlanView, Write};
use crate::platform_profile::{self, spec_choices, spec_pick, str_views, PROFILE};
use crate::profile::{
    auto_profile, lemma_parse_as_str, profile_name, spec_auto_profile, spec_next, spec_parse, Profile,
};
use crate::rgb::{RgbState, RgbStateView};
use crate::state::State;
use crate::sysfs::SysFs;

verus! {

// ---------------------------------------------------------------------------
// What the loop remembers between iterations
// ---------------------------------------------------------------------------

/// What the control loop remembers from one iteration to the next.
#[derive(Debug)]
pub struct Memory {
    /// The profile last applied successfully.
    pub last_profile: Option<Profile>,
    /// The charge limit last enforced (or recorded as unenforceable).
    pub last_charge: Option<u8>,
    /// The keyboard state last applied.
    pub last_rgb: Option<RgbState>,
    /// Wall-clock time (Unix seconds) of the previous iteration.
    pub last_unix: u64,
}

pub struct MemoryView {
    pub last_profile: Option<Profile>,
    pub last_charge: Option<u8>,
    pub last_rgb: Option<RgbStateView>,
    pub last_unix: u64,
}

impl View for Memory {
    type V = MemoryView;

    open spec fn view(&self) -> MemoryView {
        MemoryView {
            last_profile: self.last_profile,
            last_charge: self.last_charge,
            last_rgb: opt_rgb_view(self.last_rgb),
            last_unix: self.last_unix,
        }
    }
}

impl Memory {
    /// Nothing applied yet; the clock started at `now_unix`.
    pub fn new(now_unix: u64) -> (m: Memory)
        ensures
            m@ == (MemoryView { last_profile: None, last_charge: None, last_rgb: None, last_unix: now_unix }),
    {
        Memory { last_profile: None, last_charge: None, last_rgb: None, last_unix: now_unix }
    }
}

/// What the loop read at the start of an iteration.
#[derive(Debug, Clone, Copy)]
pub struct Readings {
    /// Wall-clock time, Unix seconds.
    pub now_unix: u64,
    /// The hotkey slot taken (and cleared) this iteration; 0 means no press,
    /// 1..=4 a request for the profile at that position of [`Profile::ALL`].
    pub hotkey: u8,
    /// Whether mains power is online, when a mains supply exists.
    pub ac_online: Option<bool>,
    /// CPU package temperature in millidegrees Celsius, when readable.
    pub temp_mc: Option<i64>,
    /// Whether a charge-limit interface exists.
    pub battery_supported: bool,
    /// Whether the keyboard RGB interface exists.
    pub rgb_supported: bool,
}

// ---------------------------------------------------------------------------
// The actions of one iteration
// ---------------------------------------------------------------------------

/// What to do about the battery charge limit.
#[derive(Debug, Clone, Copy, PartialEq, Eq, Structural)]
pub enum ChargeStep {
    /// Nothing changed.
    Keep,
    /// Enforce this limit; remember it once that succeeded.
    Apply(u8),
    /// Nothing can be written; remember this value so the log is not spammed.
    Record(Option<u8>),
}

/// What to do about the keyboard colour.
#[derive(Debug)]
pub enum RgbStep {
    /// Nothing changed.
    Keep,
    /// Apply this state; `announce` when it is a change (not just a resume).
    Apply { state: RgbState, announce: bool },
    /// The configuration dropped the colour; forget the last one.
    Forget,
}

pub enum RgbStepView {
    Keep,
    Apply { state: RgbStateView, announce: bool },
    Forget,
}

impl View for RgbStep {
    type V = RgbStepView;

    open spec fn view(&self) -> RgbStepView {
        match *self {
            RgbStep::Keep => RgbStepView::Keep,
            RgbStep::Apply { state, announce } => RgbStepView::Apply { state: state@, announce },
            RgbStep::Forget => RgbStepView::Forget,
        }
    }
}

/// The decisions of one iteration of the control loop.
#[derive(Debug)]
pub struct Tick {
    /// The configuration in force (after a hotkey press pinned a profile).
    pub cfg: Config,
    /// A hotkey press changed the configuration; persist it.
    pub save_config: bool,
    /// The wall clock jumped: the machine resumed from suspend.
    pub resumed: bool,
    /// The CPU is at or above the thermal guard.
    pub guard_active: bool,
    /// The profile the machine should hold.
    pub desired: Profile,
    /// `desired` differs from the profile last applied: apply it.
    pub apply_profile: bool,
    pub charge: ChargeStep,
    pub rgb: RgbStep,
    /// The time of this iteration.
    pub now_unix: u64,
}

pub struct TickView {
    pub cfg: ConfigView,
    pub save_config: bool,
    pub resumed: bool,
    pub guard_active: bool,
    pub desired: Profile,
    pub apply_profile: bool,
    pub charge: ChargeStep,
    pub rgb: RgbStepView,
    pub now_unix: u64,
}

impl View for Tick {
    type V = TickView;

    open spec fn view(&self) -> TickView {
        TickView {
            cfg: self.cfg@,
            save_config: self.save_config,
            resumed: self.resumed,
            guard_active: self.guard_active,
            desired: self.desired,
            apply_profile: self.apply_profile,
            charge: self.charge,
            rgb: self.rgb@,
            now_unix: self.now_unix,
        }
    }
}

/// How the actions of a [`Tick`] went.
#[derive(Debug, Clone, Copy)]
pub struct Outcome {
    /// Applying the profile succeeded (ignored when none was applied).
    pub profile_ok: bool,
    /// Enforcing the charge limit succeeded (ignored unless `Apply`).
    pub charge_ok: bool,
    /// Applying the keyboard state succeeded (ignored unless `Apply`).
    pub rgb_ok: bool,
}

// ---------------------------------------------------------------------------
// Specification of one iteration
// ---------------------------------------------------------------------------

/// The profile a hotkey slot stands for: 1..=4 index [`Profile::ALL`].
pub open spec fn slot_profile(slot: u8) -> Option<Profile> {
    if slot == 1 {
        Some(Profile::Quiet)
    } else if slot == 2 {
        Some(Profile::Balanced)
    } else if slot == 3 {
        Some(Profile::Performance)
    } else if slot == 4 {
        Some(Profile::Turbo)
    } else {
        None
    }
}

/// A wall-clock jump larger than a few poll periods means a resume.
pub open spec fn spec_resumed(now_unix: u64, last_unix: u64, poll_secs: u64) -> bool {
    let elapsed: int = if now_unix >= last_unix { now_unix - last_unix } else { 0 };
    elapsed > clamp_poll(poll_secs) * 3 + 20
}

/// A hotkey press pins the pressed profile and disables auto-switching.
pub open spec fn pinned_config(c: ConfigView, slot: u8) -> ConfigView {
    match slot_profile(slot) {
        Some(p) => ConfigView { auto_switch: false, profile: profile_name(p), ..c },
        None => c,
    }
}

pub open spec fn spec_guard_active(temp_mc: Option<i64>, guard_mc: i64) -> bool {
    temp_mc is Some && temp_mc->0 >= guard_mc
}

/// The configured profile, or Balanced when the name is not recognised.
pub open spec fn parse_or_balanced(name: Seq<char>) -> Profile {
    match spec_parse(name) {
        Some(p) => p,
        None => Profile::Balanced,
    }
}

/// The profile the machine should hold: the thermal guard wins, then
/// auto-switching, then the configured profile.
pub open spec fn spec_desired(c: ConfigView, r: Readings) -> Profile {
    if spec_guard_active(r.temp_mc, c.thermal_guard_mc) {
        Profile::Quiet
    } else if c.auto_switch {
        spec_auto_profile(r.ac_online, r.temp_mc, c.thermal_guard_mc)
    } else {
        parse_or_balanced(c.profile)
    }
}

pub open spec fn spec_charge_step(limit: Option<u8>, last: Option<u8>, supported: bool) -> ChargeStep {
    if limit == last {
        ChargeStep::Keep
    } else {
        match limit {
            Some(pct) => if supported {
                ChargeStep::Apply(pct)
            } else {
                ChargeStep::Record(Some(pct))
            },
            None => ChargeStep::Record(None),
        }
    }
}

pub open spec fn spec_rgb_step(
    wanted: Option<RgbStateView>,
    last: Option<RgbStateView>,
    supported: bool,
    resumed: bool,
) -> RgbStepView {
    if !supported {
        RgbStepView::Keep
    } else {
        let changed = wanted != last;
        if changed || (resumed && wanted is Some) {
            match wanted {
                Some(st) => RgbStepView::Apply { state: st, announce: changed },
                None => RgbStepView::Forget,
            }
        } else {
            RgbStepView::Keep
        }
    }
}

/// One iteration's decisions.
pub open spec fn spec_decide(m: MemoryView, c: ConfigView, r: Readings) -> TickView {
    let resumed = spec_resumed(r.now_unix, m.last_unix, c.poll_secs);
    let cfg = pinned_config(c, r.hotkey);
    let desired = spec_desired(cfg, r);
    TickView {
        cfg,
        save_config: slot_profile(r.hotkey) is Some,
        resumed,
        guard_active: spec_guard_active(r.temp_mc, cfg.thermal_guard_mc),
        desired,
        apply_profile: m.last_profile != Some(desired),
        charge: spec_charge_step(cfg.charge_limit, m.last_charge, r.battery_supported),
        rgb: spec_rgb_step(cfg.rgb, m.last_rgb, r.rgb_supported, resumed),
        now_unix: r.now_unix,
    }
}

/// What the loop remembers after the actions of `t` had outcome `o`.
pub open spec fn spec_settle(m: MemoryView, t: TickView, o: Outcome) -> MemoryView {
    MemoryView {
        last_profile: if t.apply_profile && o.profile_ok {
            Some(t.desired)
        } else {
            m.last_profile
        },
        last_charge: match t.charge {
            ChargeStep::Keep => m.last_charge,
            ChargeStep::Apply(pct) => if o.charge_ok {
                Some(pct)
            } else {
                m.last_charge
            },
            ChargeStep::Record(v) => v,
        },
        last_rgb: match t.rgb {
            RgbStepView::Keep => m.last_rgb,
            RgbStepView::Apply { state, .. } => if o.rgb_ok {
                Some(state)
            } else {
                m.last_rgb
            },
            RgbStepView::Forget => None,
        },
        last_unix: t.now_unix,
    }
}

// ---------------------------------------------------------------------------
// Executable steps
// ---------------------------------------------------------------------------

/// The profile a hotkey slot stands for.
pub fn profile_of_slot(slot: u8) -> (r: Option<Profile>)
    ensures
        r == slot_profile(slot),
{
    if slot >= 1 && slot <= 4 {
        let i: usize = (slot - 1) as usize;
        let all = Profile::ALL;
        Some(all[i])
    } else {
        None
    }
}

/// The slot value a hotkey press publishes: the profile after the configured
/// one (Balanced when unrecognised), as its position in [`Profile::ALL`] plus one.
pub fn hotkey_slot(configured: &str) -> (slot: u8)
    ensures
        1 <= slot <= 4,
        slot_profile(slot) == Some(spec_next(parse_or_balanced(configured@))),
{
    let current = match Profile::parse(configured) {
        Some(p) => p,
        None => Profile::Balanced,
    };
    match current.next() {
        Profile::Quiet => 1,
        Profile::Balanced => 2,
        Profile::Performance => 3,
        Profile::Turbo => 4,
    }
}

fn resumed_since(now_unix: u64, last_unix: u64, poll_secs: u64) -> (b: bool)
    ensures
        b == spec_resumed(now_unix, last_unix, poll_secs),
{
    let elapsed = now_unix.saturating_sub(last_unix);
    let poll = if poll_secs < 1 {
        1
    } else if poll_secs > 60 {
        60
    } else {
        poll_secs
    };
    elapsed > poll * 3 + 20
}

fn charge_step(limit: Option<u8>, last: Option<u8>, supported: bool) -> (s: ChargeStep)
    ensures
        s == spec_charge_step(limit, last, supported),
{
    if limit == last {
        ChargeStep::Keep
    } else {
        match limit {
            Some(pct) => if supported {
                ChargeStep::Apply(pct)
            } else {
                ChargeStep::Record(Some(pct))
            },
            None => ChargeStep::Record(None),
        }
    }
}

fn rgb_step(wanted: &Option<RgbState>, last: &Option<RgbState>, supported: bool, resumed: bool) -> (s: RgbStep)
    ensures
        s@ == spec_rgb_step(opt_rgb_view(*wanted), opt_rgb_view(*last), supported, resumed),
{
    if !supported {
        return RgbStep::Keep;
    }
    let changed = !opt_rgb_same(wanted, last);
    if changed || (resumed && wanted.is_some()) {
        match wanted {
            Some(st) => RgbStep::Apply { state: st.duplicate(), announce: changed },
            None => RgbStep::Forget,
        }
    } else {
        RgbStep::Keep
    }
}

/// Decide one iteration of the control loop from what the loop remembers, the
/// configuration just loaded, and the readings just taken.
pub fn decide(mem: &Memory, cfg: Config, r: &Readings) -> (t: Tick)
    ensures
        t@ == spec_decide(mem@, cfg@, *r),
{
    let resumed = resumed_since(r.now_unix, mem.last_unix, cfg.poll_secs);
    let mut cfg = cfg;
    let pinned = profile_of_slot(r.hotkey);
    let save_config = pinned.is_some();
    if let Some(p) = pinned {
        cfg.auto_switch = false;
        cfg.profile = String::from_str(p.as_str());
    }
    let guard_active = match r.temp_mc {
        Some(t) => t >= cfg.thermal_guard_mc,
        None => false,
    };
    let desired = if guard_active {
        Profile::Quiet
    } else if cfg.auto_switch {
        auto_profile(r.ac_online, r.temp_mc, cfg.thermal_guard_mc)
    } else {
        match Profile::parse(cfg.profile.as_str()) {
            Some(p) => p,
            None => Profile::Balanced,
        }
    };
    let apply_profile = match mem.last_profile {
        Some(p) => p != desired,
        None => true,
    };
    let charge = charge_step(cfg.charge_limit, mem.last_charge, r.battery_supported);
    let rgb = rgb_step(&cfg.rgb, &mem.last_rgb, r.rgb_supported, resumed);
    let t = Tick {
        cfg,
        save_config,
        resumed,
        guard_active,
        desired,
        apply_profile,
        charge,
        rgb,
        now_unix: r.now_unix,
    };
    t
}

/// Turn the outcomes of one iteration's actions into what the loop remembers
/// for the next one.
pub fn settle(mem: Memory, t: &Tick, o: Outcome) -> (m: Memory)
    ensures
        m@ == spec_settle(mem@, t@, o),
{
    let last_profile = if t.apply_profile && o.profile_ok {
        Some(t.desired)
    } else {
        mem.last_profile
    };
    let last_charge = match t.charge {
        ChargeStep::Keep => mem.last_charge,
        ChargeStep::Apply(pct) => if o.charge_ok {
            Some(pct)
        } else {
            mem.last_charge
        },
        ChargeStep::Record(v) => v,
    };
    let last_rgb = match &t.rgb {
        RgbStep::Keep => mem.last_rgb,
        RgbStep::Apply { state, .. } => if o.rgb_ok {
            Some(state.duplicate())
        } else {
            mem.last_rgb
        },
        RgbStep::Forget => None,
    };
    Memory { last_profile, last_charge, last_rgb, last_unix: t.now_unix }
}

// ---------------------------------------------------------------------------
// Laws of the control loop
// ---------------------------------------------------------------------------

/// At or above the thermal guard the daemon holds Quiet, whatever the
/// configuration says and whatever key was pressed.
pub proof fn lemma_guard_wins(m: MemoryView, c: ConfigView, r: Readings)
    requires
        r.temp_mc is Some,
        r.temp_mc->0 >= c.thermal_guard_mc,
    ensures
        spec_decide(m, c, r).guard_active,
        spec_decide(m, c, r).desired == Profile::Quiet,
{
}

/// A hotkey press pins the pressed profile: auto-switching is turned off, the
/// profile's name is stored and saved, and below the guard it is the profile
/// the machine holds.
pub proof fn lemma_hotkey_pins(m: MemoryView, c: ConfigView, r: Readings, p: Profile)
    requires
        slot_profile(r.hotkey) == Some(p),
    ensures
        spec_decide(m, c, r).save_config,
        !spec_decide(m, c, r).cfg.auto_switch,
        spec_decide(m, c, r).cfg.profile == profile_name(p),
        !spec_guard_active(r.temp_mc, c.thermal_guard_mc) ==> spec_decide(m, c, r).desired == p,
{
    lemma_parse_as_str(p);
}

/// Without a key press the configuration is used as loaded and not saved.
pub proof fn lemma_no_press_keeps_config(m: MemoryView, c: ConfigView, r: Readings)
    requires
        r.hotkey == 0,
    ensures
        !spec_decide(m, c, r).save_config,
        spec_decide(m, c, r).cfg == c,
{
}

/// A press always asks for the profile after the configured one, and
/// pressing it four times comes back to the start.
pub proof fn lemma_hotkey_cycles(name: Seq<char>)
    ensures
        spec_next(spec_next(spec_next(spec_next(parse_or_balanced(name))))) == parse_or_balanced(name),
{
}

/// Once an iteration's actions all succeeded, the next iteration with the same
/// configuration and sensors (no key press, no resume) re-applies nothing.
pub proof fn lemma_settled_is_quiet(m: MemoryView, c: ConfigView, r: Readings, r2: Readings)
    requires
        r2.hotkey == 0,
        r2.temp_mc == r.temp_mc,
        r2.ac_online == r.ac_online,
        r2.battery_supported == r.battery_supported,
        r2.rgb_supported == r.rgb_supported,
        !spec_resumed(r2.now_unix, r.now_unix, c.poll_secs),
    ensures
        ({
            let t = spec_decide(m, c, r);
            let m2 = spec_settle(m, t, Outcome { profile_ok: true, charge_ok: true, rgb_ok: true });
            let t2 = spec_decide(m2, t.cfg, r2);
            &&& t2.desired == t.desired
            &&& !t2.apply_profile
            &&& t2.charge == ChargeStep::Keep
            &&& t2.rgb is Keep
            &&& !t2.save_config
        }),
{
}

/// A failed profile application is retried on the next iteration.
pub proof fn lemma_failed_profile_retried(m: MemoryView, c: ConfigView, r: Readings, r2: Readings, o: Outcome)
    requires
        spec_decide(m, c, r).apply_profile,
        !o.profile_ok,
        r2.hotkey == 0,
        r2.temp_mc == r.temp_mc,
        r2.ac_online == r.ac_online,
    ensures
        spec_decide(spec_settle(m, spec_decide(m, c, r), o), spec_decide(m, c, r).cfg, r2).apply_profile,
{
}

// ---------------------------------------------------------------------------
// Hotkey listener and restore
// ---------------------------------------------------------------------------

/// How the hotkey listener starts.
#[derive(Debug)]
pub enum Listener {
    /// No key code has been learned: nothing to listen for.
    Disabled,
    /// A key code is configured but no input device was found.
    NoDevice,
    /// Watch `device` for presses of `code`.
    Watch { code: u16, device: String },
}

pub enum ListenerView {
    Disabled,
    NoDevice,
    Watch { code: u16, device: Seq<char> },
}

impl View for Listener {
    type V = ListenerView;

    open spec fn view(&self) -> ListenerView {
        match *self {
            Listener::Disabled => ListenerView::Disabled,
            Listener::NoDevice => ListenerView::NoDevice,
            Listener::Watch { code, device } => ListenerView::Watch { code, device: device@ },
        }
    }
}

/// The learned key code, on the configured device or else on the hotkey
/// device found among `devices`.
pub open spec fn spec_listener(c: ConfigView, devices: Seq<crate::input::InputDeviceView>) -> ListenerView {
    match c.hotkey_code {
        None => ListenerView::Disabled,
        Some(code) => match c.hotkey_device {
            Some(d) => ListenerView::Watch { code, device: d },
            None => match spec_find_hotkey_device(devices) {
                Some(d) => ListenerView::Watch { code, device: d },
                None => ListenerView::NoDevice,
            },
        },
    }
}

/// Decide where the hotkey listener watches.
pub fn listener(cfg: &Config, devices: &[InputDevice]) -> (l: Listener)
    ensures
        l@ == spec_listener(cfg@, device_views(devices@)),
{
    let code = match cfg.hotkey_code {
        Some(c) => c,
        None => return Listener::Disabled,
    };
    match &cfg.hotkey_device {
        Some(d) => Listener::Watch { code, device: d.clone() },
        None => match find_hotkey_device(devices) {
            Some(d) => Listener::Watch { code, device: d },
            None => Listener::NoDevice,
        },
    }
}

/// The failsafe run when the daemon stops: fans back to firmware control, the
/// balanced platform profile, then the balanced cpufreq levers, whose result
/// is the result.
pub open spec fn spec_restore_defaults(fs: SysFs) -> PlanView {
    let fans = if spec_sense_dir(fs) is Some {
        best_effort(fan::spec_set(fs, FanMode::Auto).0)
    } else {
        seq![]
    };
    let platform = if fs.spec_exists(PROFILE@) {
        match spec_pick(spec_choices(fs), seq!["balanced"@]) {
            Some(name) => best_effort(platform_profile::spec_set(fs, name).0),
            None => seq![],
        }
    } else {
        seq![]
    };
    let cpu = spec_apply(fs, "powersave"@, Some("balance_performance"@), true);
    (fans + platform + cpu.0, cpu.1)
}

/// Return the machine to a safe, balanced state.
pub fn restore_defaults(fs: &SysFs) -> (p: Plan)
    ensures
        p@ == spec_restore_defaults(*fs),
{
    let mut writes: Vec<Write> = Vec::new();
    if fan::supported(fs) {
        append_best_effort(&mut writes, &fan::set(fs, FanMode::Auto));
    }
    if platform_profile::supported(fs) {
        let prefs: [&str; 1] = ["balanced"];
        assert(str_views(prefs@) =~= seq!["balanced"@]);
        match platform_profile::pick(fs, &prefs) {
            Some(name) => append_best_effort(&mut writes, &platform_profile::set(fs, name.as_str())),
            None => {},
        }
    }
    let cpu = apply_balanced(fs);
    append_writes(&mut writes, &cpu);
    Plan { writes, outcome: cpu.outcome }
}

// ---------------------------------------------------------------------------
// Published state
// ---------------------------------------------------------------------------

/// The state published after an iteration: the held profile and the
/// configuration in force, the readings, the charge limit the hardware
/// reports (none without a charge-limit interface), whether a hotkey is
/// learned, the time and the daemon's PID.
pub fn published(t: &Tick, r: &Readings, fs: &SysFs, now_unix: u64, pid: u32) -> (s: State)
    ensures
        s.profile@ == profile_name(t.desired),
        s.auto_switch == t.cfg.auto_switch,
        s.cpu_temp_mc == r.temp_mc,
        s.ac_online == r.ac_online,
        s.thermal_guard_active == t.guard_active,
        s.charge_limit == (if crate::battery::spec_limit_kind(*fs) is Some {
            crate::battery::spec_get_limit(*fs)
        } else {
            None
        }),
        s.hotkey_bound == (t.cfg.hotkey_code is Some),
        s.updated_unix == now_unix,
        s.daemon_pid == pid,
{
    State {
        profile: String::from_str(t.desired.as_str()),
        auto_switch: t.cfg.auto_switch,
        cpu_temp_mc: r.temp_mc,
        ac_online: r.ac_online,
        thermal_guard_active: t.guard_active,
        charge_limit: if crate::battery::supported(fs) {
            crate::battery::get_limit(fs)
        } else {
            None
        },
        hotkey_bound: t.cfg.hotkey_code.is_some(),
        updated_unix: now_unix,
        daemon_pid: pid,
    }
}


/// With auto-switching on, no key pressed and the CPU below the guard, the
/// daemon holds Performance on mains power and Balanced on battery or when
/// the power source is unknown.
pub proof fn lemma_auto_follows_power(m: MemoryView, c: ConfigView, r: Readings)
    requires
        c.auto_switch,
        r.hotkey == 0,
        !(r.temp_mc is Some && r.temp_mc->0 >= c.thermal_guard_mc),
    ensures
        !spec_decide(m, c, r).guard_active,
        spec_decide(m, c, r).desired == (if r.ac_online == Some(true) {
            Profile::Performance
        } else {
            Profile::Balanced
        }),
{
}

/// With auto-switching off, no key pressed and the CPU below the guard, the
/// daemon holds the configured profile whatever the power source.
pub proof fn lemma_manual_holds_configured(m: MemoryView, c: ConfigView, r: Readings, p: Profile)
    requires
        !c.auto_switch,
        r.hotkey == 0,
        !(r.temp_mc is Some && r.temp_mc->0 >= c.thermal_guard_mc),
        spec_parse(c.profile) == Some(p),
    ensures
        spec_decide(m, c, r).desired == p,
{
}

} // verus!
