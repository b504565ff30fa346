//! The decisions behind the graphical control panel: how its colour and
//! effect controls map to keyboard states, how they are seeded from the saved
//! configuration, and how the outcome of an elevated `nitro` run is reported.

use vstd::prelude::*;
use crate::config::ConfigView;
use crate::cli::{describe_rgb, spec_describe_rgb};
use crate::profile::{profile_name, Profile};
use crate::state::State;
use crate::rgb::{effect_name_of, parse_rgb, rgb_hex, Rgb, RgbStateView, EFFECT_COUNT};
use crate::text::{
    append_str, chars_of, dec_string, dec_text, lines, lines_vec, lower_all, lower_seq, push_char,
    push_dec, string_of, string_views, trim, trimmed, upper, views,
};

verus! {

// ---------------------------------------------------------------------------
// Colour and effect helpers
// ---------------------------------------------------------------------------

/// Position of an effect mode in the effect table, or the first entry.
pub open spec fn spec_effect_index_of(mode: u8) -> int {
    if mode < 8 {
        mode as int
    } else {
        0
    }
}

/// Index of the effect selector entry for `mode` (the first entry when the
/// mode is not in the table).
pub fn effect_index_of(mode: u8) -> (i: usize)
    ensures
        i == spec_effect_index_of(mode),
        i < EFFECT_COUNT,
{
    let mut i: usize = 0;
    while i < EFFECT_COUNT
        invariant
            i <= EFFECT_COUNT,
            mode as int >= i,
        decreases EFFECT_COUNT - i,
    {
        let (_, m) = crate::rgb::effect_at(i);
        if m == mode {
            return i;
        }
        i = i + 1;
    }
    0
}

/// Modes that may leave this firmware's keyboard dark.
pub open spec fn may_stay_dark(mode: int) -> bool {
    mode == 0 || mode == 1 || mode == 7
}

pub open spec fn spec_effect_label(idx: int) -> Seq<char> {
    if may_stay_dark(idx) {
        effect_name_of(idx) + " (may stay dark)"@
    } else {
        effect_name_of(idx)
    }
}

/// The selector label of effect `idx`, with a warning on modes that may stay dark.
pub fn effect_label(idx: usize) -> (s: String)
    requires
        idx < EFFECT_COUNT,
    ensures
        s@ == spec_effect_label(idx as int),
{
    let (name, mode) = crate::rgb::effect_at(idx);
    let mut s = String::from_str(name);
    if mode == 0 || mode == 1 || mode == 7 {
        append_str(&mut s, " (may stay dark)");
    }
    s
}

/// The colour as the three bytes a colour picker edits.
pub open spec fn rgb_bytes(c: Rgb) -> Seq<u8> {
    seq![c.r, c.g, c.b]
}

/// Parse "RRGGBB" (optionally "#RRGGBB") into three bytes.
pub fn hex_to_rgb(s: &str) -> (r: Option<[u8; 3]>)
    ensures
        r is Some == parse_rgb(s@) is Some,
        r is Some ==> r->0@ == rgb_bytes(parse_rgb(s@)->0),
{
    match Rgb::parse(s) {
        Some(c) => {
            let b = [c.r, c.g, c.b];
            assert(b@ =~= rgb_bytes(c));
            Some(b)
        },
        None => None,
    }
}

/// Three bytes as lower-case "rrggbb".
pub fn rgb_to_hex(c: [u8; 3]) -> (s: String)
    ensures
        s@ == rgb_hex(Rgb { r: c@[0], g: c@[1], b: c@[2] }),
{
    Rgb { r: c[0], g: c[1], b: c[2] }.hex()
}

/// The upper-case mapping of one character (`char::to_uppercase`).
pub uninterp spec fn char_upper(c: char) -> Seq<char>;

/// `char::to_uppercase`, collected into a string. Claimed: the result is the
/// character's upper-case mapping, and for an ASCII character it is the single
/// ASCII upper-case letter (or the character itself when it is no lower-case
/// letter). The Unicode mappings of other characters are left unsaid.
#[verifier::external_body]
fn uppercase_of(c: char) -> (s: String)
    ensures
        s@ == char_upper(c),
        (c as u32) < 128 ==> s@ == seq![upper(c)],
{
    c.to_uppercase().collect()
}

pub open spec fn spec_cap(s: Seq<char>) -> Seq<char> {
    if s.len() == 0 {
        seq![]
    } else {
        char_upper(s[0]) + s.drop_first()
    }
}

/// The text with its first character upper-cased.
pub fn cap(s: &str) -> (r: String)
    ensures
        r@ == spec_cap(s@),
        s@.len() > 0 && (s@[0] as u32) < 128 ==> r@ == seq![upper(s@[0])] + s@.drop_first(),
{
    let cs = chars_of(s);
    if cs.len() == 0 {
        return String::new();
    }
    let mut out = uppercase_of(cs[0]);
    let mut i: usize = 1;
    let ghost head = out@;
    while i < cs.len()
        invariant
            1 <= i <= cs@.len(),
            out@ == head + cs@.subrange(1, i as int),
        decreases cs@.len() - i,
    {
        push_char(&mut out, cs[i]);
        assert(cs@.subrange(1, i + 1) =~= cs@.subrange(1, i as int).push(cs@[i as int]));
        i = i + 1;
    }
    assert(cs@.subrange(1, cs@.len() as int) =~= cs@.drop_first());
    out
}

// ---------------------------------------------------------------------------
// Editable controls
// ---------------------------------------------------------------------------

/// Which RGB editor the panel shows.
#[derive(Debug, Clone, Copy, PartialEq, Eq, Structural)]
pub enum RgbMode {
    Solid,
    Effect,
    Zones,
}

/// The values of the panel's editable controls.
#[derive(Debug, Clone, Copy)]
pub struct Controls {
    pub fan_cpu: u8,
    pub fan_gpu: u8,
    pub charge_on: bool,
    pub charge_pct: u8,
    pub rgb_mode: RgbMode,
    pub color: Rgb,
    pub brightness: u8,
    pub effect_sel: usize,
    pub effect_speed: u8,
    pub effect_dir: u8,
    pub zones: [Rgb; 4],
    pub zone_brightness: u8,
}

pub open spec fn green() -> Rgb {
    Rgb { r: 0, g: 255, b: 0 }
}

/// The controls of a freshly opened panel: fans at 60%, an 80% charge cap
/// switched off, and a green solid colour; the effect editor starts on the
/// lit "shifting" effect.
pub fn initial_controls() -> (c: Controls)
    ensures
        c.fan_cpu == 60 && c.fan_gpu == 60,
        !c.charge_on && c.charge_pct == 80,
        c.rgb_mode == RgbMode::Solid,
        c.color == green() && c.brightness == 100,
        c.effect_sel == 4 && c.effect_speed == 3 && c.effect_dir == 1,
        c.zones@ == seq![green(), green(), green(), green()],
        c.zone_brightness == 100,
{
    let g = Rgb { r: 0, g: 255, b: 0 };
    let zones = [g, g, g, g];
    assert(zones@ =~= seq![green(), green(), green(), green()]);
    Controls {
        fan_cpu: 60,
        fan_gpu: 60,
        charge_on: false,
        charge_pct: 80,
        rgb_mode: RgbMode::Solid,
        color: g,
        brightness: 100,
        effect_sel: effect_index_of(4),
        effect_speed: 3,
        effect_dir: 1,
        zones,
        zone_brightness: 100,
    }
}

pub open spec fn min_u8(a: u8, b: u8) -> u8 {
    if a < b {
        a
    } else {
        b
    }
}

pub open spec fn clamp_u8(v: u8, lo: u8, hi: u8) -> u8 {
    if v < lo {
        lo
    } else if v > hi {
        hi
    } else {
        v
    }
}

/// A colour text parsed, or `keep` when it is not a colour.
pub open spec fn colour_or(s: Seq<char>, keep: Rgb) -> Rgb {
    match parse_rgb(s) {
        Some(c) => c,
        None => keep,
    }
}

/// `init_controls`: the controls seeded from the saved configuration.
pub open spec fn spec_seed(c: Controls, cfg: ConfigView) -> Controls {
    let c1 = Controls {
        charge_on: cfg.charge_limit is Some,
        charge_pct: match cfg.charge_limit {
            Some(p) => clamp_u8(p, 20, 100),
            None => c.charge_pct,
        },
        ..c
    };
    match cfg.rgb {
        Some(RgbStateView::Effect { mode, speed, brightness, direction, color }) => Controls {
            rgb_mode: RgbMode::Effect,
            effect_sel: spec_effect_index_of(mode) as usize,
            effect_speed: min_u8(speed, 9),
            effect_dir: clamp_u8(direction, 1, 2),
            brightness: min_u8(brightness, 100),
            color: colour_or(color, c1.color),
            ..c1
        },
        Some(RgbStateView::Zones { colors, brightness }) => Controls {
            rgb_mode: RgbMode::Zones,
            zone_brightness: min_u8(brightness, 100),
            zones: [
                colour_or(colors[0], c1.zones[0]),
                colour_or(colors[1], c1.zones[1]),
                colour_or(colors[2], c1.zones[2]),
                colour_or(colors[3], c1.zones[3]),
            ],
            color: colour_or(colors[0], c1.color),
            ..c1
        },
        _ => c1,
    }
}

fn colour_or_keep(s: &String, keep: Rgb) -> (r: Rgb)
    ensures
        r == colour_or(s@, keep),
{
    match Rgb::parse(s.as_str()) {
        Some(c) => c,
        None => keep,
    }
}

/// Seed the editable controls from the persisted configuration.
pub fn seed_controls(c: Controls, cfg: &crate::config::Config) -> (r: Controls)
    ensures
        r == spec_seed(c, cfg@),
{
    let mut r = c;
    r.charge_on = cfg.charge_limit.is_some();
    if let Some(p) = cfg.charge_limit {
        r.charge_pct = if p < 20 {
            20
        } else if p > 100 {
            100
        } else {
            p
        };
    }
    match &cfg.rgb {
        Some(crate::rgb::RgbState::Effect { mode, speed, brightness, direction, color }) => {
            r.rgb_mode = RgbMode::Effect;
            r.effect_sel = effect_index_of(*mode);
            r.effect_speed = if *speed < 9 { *speed } else { 9 };
            r.effect_dir = if *direction < 1 {
                1
            } else if *direction > 2 {
                2
            } else {
                *direction
            };
            r.brightness = if *brightness < 100 { *brightness } else { 100 };
            r.color = colour_or_keep(color, r.color);
        },
        Some(crate::rgb::RgbState::Zones { colors, brightness }) => {
            r.rgb_mode = RgbMode::Zones;
            r.zone_brightness = if *brightness < 100 { *brightness } else { 100 };
            let z0 = colour_or_keep(&colors[0], r.zones[0]);
            let z1 = colour_or_keep(&colors[1], r.zones[1]);
            let z2 = colour_or_keep(&colors[2], r.zones[2]);
            let z3 = colour_or_keep(&colors[3], r.zones[3]);
            r.zones = [z0, z1, z2, z3];
            r.color = colour_or_keep(&colors[0], r.color);
        },
        _ => {},
    }
    r
}

// ---------------------------------------------------------------------------
// Requests the panel makes of the elevated `nitro` command
// ---------------------------------------------------------------------------

/// A change the panel asks the `nitro` command to make.
#[derive(Debug, Clone, Copy, PartialEq, Eq, Structural)]
pub enum PanelAction {
    /// One of the profile buttons.
    SetProfile(Profile),
    /// The auto-switch check box, with its new state.
    AutoSwitch(bool),
    /// "Apply" under the charge limit: the slider value, or off.
    ChargeLimit,
    FanAuto,
    FanMax,
    /// "Apply manual speeds" with the two fan sliders.
    FanManual,
    /// "Apply colour" in the solid editor.
    RgbSolid,
    /// "Apply effect" in the effect editor.
    RgbEffect,
    /// "Apply zones" in the per-zone editor.
    RgbZones,
    RgbOff,
}

pub open spec fn on_off(on: bool) -> Seq<char> {
    if on {
        "on"@
    } else {
        "off"@
    }
}

/// The `nitro` arguments of an action, given the current controls.
pub open spec fn spec_action_args(a: PanelAction, c: Controls) -> Seq<Seq<char>> {
    match a {
        PanelAction::SetProfile(p) => seq!["profile"@, profile_name(p)],
        PanelAction::AutoSwitch(on) => seq!["auto"@, on_off(on)],
        PanelAction::ChargeLimit => seq![
            "charge-limit"@,
            if c.charge_on {
                dec_string(c.charge_pct as nat)
            } else {
                "off"@
            },
        ],
        PanelAction::FanAuto => seq!["fan"@, "auto"@],
        PanelAction::FanMax => seq!["fan"@, "max"@],
        PanelAction::FanManual => seq![
            "fan"@,
            dec_string(c.fan_cpu as nat) + ","@ + dec_string(c.fan_gpu as nat),
        ],
        PanelAction::RgbSolid => seq!["rgb"@, rgb_hex(c.color), dec_string(c.brightness as nat)],
        PanelAction::RgbEffect => seq![
            "rgb"@,
            "effect"@,
            effect_name_of(c.effect_sel as int),
            dec_string(c.effect_speed as nat),
            dec_string(c.brightness as nat),
            dec_string(c.effect_dir as nat),
            rgb_hex(c.color),
        ],
        PanelAction::RgbZones => seq![
            "rgb"@,
            "zones"@,
            rgb_hex(c.zones[0]),
            rgb_hex(c.zones[1]),
            rgb_hex(c.zones[2]),
            rgb_hex(c.zones[3]),
            dec_string(c.zone_brightness as nat),
        ],
        PanelAction::RgbOff => seq!["rgb"@, "off"@],
    }
}

fn owned(s: &str) -> (r: String)
    ensures
        r@ == s@,
{
    String::from_str(s)
}

/// The arguments the panel hands to `nitro` for an action. The effect editor
/// needs its selection to be an entry of the effect table.
pub fn action_args(a: PanelAction, c: &Controls) -> (v: Vec<String>)
    requires
        a == PanelAction::RgbEffect ==> c.effect_sel < EFFECT_COUNT,
    ensures
        string_views(v@) == spec_action_args(a, *c),
{
    let mut v: Vec<String> = Vec::new();
    match a {
        PanelAction::SetProfile(p) => {
            v.push(owned("profile"));
            v.push(owned(p.as_str()));
        },
        PanelAction::AutoSwitch(on) => {
            v.push(owned("auto"));
            v.push(owned(if on { "on" } else { "off" }));
        },
        PanelAction::ChargeLimit => {
            v.push(owned("charge-limit"));
            if c.charge_on {
                v.push(dec_text(c.charge_pct as u64));
            } else {
                v.push(owned("off"));
            }
        },
        PanelAction::FanAuto => {
            v.push(owned("fan"));
            v.push(owned("auto"));
        },
        PanelAction::FanMax => {
            v.push(owned("fan"));
            v.push(owned("max"));
        },
        PanelAction::FanManual => {
            v.push(owned("fan"));
            let mut s = String::new();
            push_dec(&mut s, c.fan_cpu as u64);
            append_str(&mut s, ",");
            push_dec(&mut s, c.fan_gpu as u64);
            v.push(s);
        },
        PanelAction::RgbSolid => {
            v.push(owned("rgb"));
            v.push(c.color.hex());
            v.push(dec_text(c.brightness as u64));
        },
        PanelAction::RgbEffect => {
            v.push(owned("rgb"));
            v.push(owned("effect"));
            let (name, _) = crate::rgb::effect_at(c.effect_sel);
            v.push(owned(name));
            v.push(dec_text(c.effect_speed as u64));
            v.push(dec_text(c.brightness as u64));
            v.push(dec_text(c.effect_dir as u64));
            v.push(c.color.hex());
        },
        PanelAction::RgbZones => {
            v.push(owned("rgb"));
            v.push(owned("zones"));
            v.push(c.zones[0].hex());
            v.push(c.zones[1].hex());
            v.push(c.zones[2].hex());
            v.push(c.zones[3].hex());
            v.push(dec_text(c.zone_brightness as u64));
        },
        PanelAction::RgbOff => {
            v.push(owned("rgb"));
            v.push(owned("off"));
        },
    }
    proof {
        reveal_strlit("profile");
        reveal_strlit("auto");
        reveal_strlit("on");
        reveal_strlit("off");
        reveal_strlit("charge-limit");
        reveal_strlit("fan");
        reveal_strlit("max");
        reveal_strlit(",");
        reveal_strlit("rgb");
        reveal_strlit("effect");
        reveal_strlit("zones");
    }
    assert(string_views(v@) =~= spec_action_args(a, *c));
    v
}

/// A profile button shows as selected when auto-switching is off and the
/// current profile's name matches it, ignoring ASCII case.
pub open spec fn spec_profile_selected(auto: bool, current: Seq<char>, p: Profile) -> bool {
    !auto && lower_seq(current) == lower_seq(profile_name(p))
}

/// Whether the profile button for `p` shows as selected.
pub fn profile_selected(auto: bool, current: &str, p: Profile) -> (b: bool)
    ensures
        b == spec_profile_selected(auto, current@, p),
{
    if auto {
        return false;
    }
    let cur = lower_all(&chars_of(current));
    let name = p.as_str();
    let lname = lower_all(&chars_of(name));
    let b = crate::text::seq_eq(&cur, lname.as_slice());
    b
}

// ---------------------------------------------------------------------------
// The status the panel shows
// ---------------------------------------------------------------------------

/// The profile, switches and saved colour the panel shows.
#[derive(Debug)]
pub struct PanelStatus {
    pub profile: String,
    pub auto: bool,
    pub thermal_guard: bool,
    pub charge_limit: Option<u8>,
    /// The saved keyboard state described, "none saved" when there is none,
    /// empty when no configuration was loaded.
    pub rgb_desc: String,
}

pub struct PanelStatusView {
    pub profile: Seq<char>,
    pub auto: bool,
    pub thermal_guard: bool,
    pub charge_limit: Option<u8>,
    pub rgb_desc: Seq<char>,
}

impl View for PanelStatus {
    type V = PanelStatusView;

    open spec fn view(&self) -> PanelStatusView {
        PanelStatusView {
            profile: self.profile@,
            auto: self.auto,
            thermal_guard: self.thermal_guard,
            charge_limit: self.charge_limit,
            rgb_desc: self.rgb_desc@,
        }
    }
}

pub open spec fn opt_config_view(cfg: Option<&crate::config::Config>) -> Option<ConfigView> {
    match cfg {
        Some(c) => Some(c@),
        None => None,
    }
}

/// The saved configuration gives the profile, auto switch, charge limit and
/// colour; the daemon's live state, when present, is authoritative for the
/// profile, auto switch and thermal guard, and for the charge limit when it
/// has one.
pub open spec fn spec_panel_status(cfg: Option<ConfigView>, st: Option<State>) -> PanelStatusView {
    let base = match cfg {
        Some(c) => PanelStatusView {
            profile: c.profile,
            auto: c.auto_switch,
            thermal_guard: false,
            charge_limit: c.charge_limit,
            rgb_desc: match c.rgb {
                Some(r) => spec_describe_rgb(r),
                None => "none saved"@,
            },
        },
        None => PanelStatusView {
            profile: seq![],
            auto: false,
            thermal_guard: false,
            charge_limit: None,
            rgb_desc: seq![],
        },
    };
    match st {
        Some(s) => PanelStatusView {
            profile: s.profile@,
            auto: s.auto_switch,
            thermal_guard: s.thermal_guard_active,
            charge_limit: if s.charge_limit is Some {
                s.charge_limit
            } else {
                base.charge_limit
            },
            ..base
        },
        None => base,
    }
}

/// What the panel shows from the saved configuration and the daemon's state.
pub fn panel_status(cfg: Option<&crate::config::Config>, st: Option<&State>) -> (v: PanelStatus)
    ensures
        v@ == spec_panel_status(opt_config_view(cfg), match st {
            Some(s) => Some(*s),
            None => None,
        }),
{
    let mut v = PanelStatus {
        profile: String::new(),
        auto: false,
        thermal_guard: false,
        charge_limit: None,
        rgb_desc: String::new(),
    };
    match cfg {
        Some(c) => {
            v.profile = c.profile.clone();
            v.auto = c.auto_switch;
            v.charge_limit = c.charge_limit;
            v.rgb_desc = match &c.rgb {
                Some(r) => describe_rgb(r),
                None => String::from_str("none saved"),
            };
        },
        None => {
            proof {
                reveal_strlit("");
            }
            assert(v.profile@ =~= seq![]);
            assert(v.rgb_desc@ =~= seq![]);
        },
    }
    match st {
        Some(s) => {
            v.profile = s.profile.clone();
            v.auto = s.auto_switch;
            v.thermal_guard = s.thermal_guard_active;
            if s.charge_limit.is_some() {
                v.charge_limit = s.charge_limit;
            }
        },
        None => {},
    }
    v
}

// ---------------------------------------------------------------------------
// Reporting an elevated run
// ---------------------------------------------------------------------------

/// The last line that is not blank.
pub open spec fn last_nonblank(ls: Seq<Seq<char>>) -> Option<Seq<char>>
    decreases ls.len(),
{
    if ls.len() == 0 {
        None
    } else if trim(ls.last()).len() > 0 {
        Some(ls.last())
    } else {
        last_nonblank(ls.drop_last())
    }
}

/// `{}` of a signed integer.
pub open spec fn int_text(n: int) -> Seq<char> {
    if n < 0 {
        seq!['-'] + dec_string((-n) as nat)
    } else {
        dec_string(n as nat)
    }
}

pub open spec fn exit_hint(code: int) -> Seq<char> {
    if code == 126 {
        " (authentication dismissed)"@
    } else if code == 127 {
        " (not authorised)"@
    } else {
        ""@
    }
}

/// The status line after `nitro` ran: on success its last non-blank line of
/// output (or of its error output, or "done"); on failure the exit code
/// (-1 when killed by a signal), a hint for the two pkexec codes, and the
/// error output (or the output when that is blank).
pub open spec fn spec_action_message(
    success: bool,
    code: Option<i32>,
    stdout: Seq<char>,
    stderr: Seq<char>,
) -> Seq<char> {
    if success {
        let line = match last_nonblank(lines(stdout)) {
            Some(l) => l,
            None => match last_nonblank(lines(stderr)) {
                Some(l) => l,
                None => "done"@,
            },
        };
        trim(line)
    } else {
        let c: int = match code {
            Some(c) => c as int,
            None => -1,
        };
        let detail = if trim(stderr).len() > 0 {
            trim(stderr)
        } else {
            trim(stdout)
        };
        "nitro failed (exit "@ + int_text(c) + ")"@ + exit_hint(c) + ": "@ + detail
    }
}

fn last_nonblank_line(text: &str) -> (r: Option<Vec<char>>)
    ensures
        match r {
            Some(l) => last_nonblank(lines(text@)) == Some(l@),
            None => last_nonblank(lines(text@)) is None,
        },
{
    let cs = chars_of(text);
    let ls = lines_vec(&cs);
    let ghost lv = views(ls@);
    let mut i = ls.len();
    assert(lv.take(i as int) =~= lv);
    while i > 0
        invariant
            i <= ls@.len(),
            lv == views(ls@),
            lv == lines(text@),
            last_nonblank(lv) == last_nonblank(lv.take(i as int)),
        decreases i,
    {
        let t = trimmed(&ls[i - 1]);
        assert(lv.take(i as int).last() == ls@[i - 1]@);
        assert(lv.take(i as int).drop_last() =~= lv.take(i - 1));
        if t.len() > 0 {
            let mut l: Vec<char> = Vec::new();
            let src = &ls[i - 1];
            let mut k: usize = 0;
            while k < src.len()
                invariant
                    k <= src@.len(),
                    l@ == src@.take(k as int),
                decreases src@.len() - k,
            {
                l.push(src[k]);
                k = k + 1;
                assert(l@ =~= src@.take(k as int));
            }
            assert(src@.take(k as int) =~= src@);
            return Some(l);
        }
        i = i - 1;
    }
    assert(lv.take(0) =~= seq![]);
    None
}

fn push_int(out: &mut String, n: i32)
    ensures
        final(out)@ == old(out)@ + int_text(n as int),
{
    if n < 0 {
        push_char(out, '-');
        let m: u64 = (0i64 - (n as i64)) as u64;
        push_dec(out, m);
    } else {
        push_dec(out, n as u64);
    }
    assert(final(out)@ =~= old(out)@ + int_text(n as int));
}

/// The status line reported after an elevated `nitro` run.
pub fn action_message(success: bool, code: Option<i32>, stdout: &str, stderr: &str) -> (m: String)
    ensures
        m@ == spec_action_message(success, code, stdout@, stderr@),
{
    if success {
        let line = match last_nonblank_line(stdout) {
            Some(l) => l,
            None => match last_nonblank_line(stderr) {
                Some(l) => l,
                None => chars_of("done"),
            },
        };
        let t = trimmed(&line);
        string_of(t.as_slice())
    } else {
        let c: i32 = match code {
            Some(c) => c,
            None => -1,
        };
        let err = trimmed(&chars_of(stderr));
        let detail = if err.len() > 0 {
            err
        } else {
            trimmed(&chars_of(stdout))
        };
        let mut m = String::from_str("nitro failed (exit ");
        push_int(&mut m, c);
        append_str(&mut m, ")");
        if c == 126 {
            append_str(&mut m, " (authentication dismissed)");
        } else if c == 127 {
            append_str(&mut m, " (not authorised)");
        }
        append_str(&mut m, ": ");
        let ds = string_of(detail.as_slice());
        append_str(&mut m, ds.as_str());
        proof {
            reveal_strlit("");
        }
        assert(m@ =~= spec_action_message(success, code, stdout@, stderr@));
        m
    }
}

} // verus!
