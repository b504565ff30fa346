//! What the `nitro` command line makes of its arguments.
//!
//! Each command's arguments are turned into a request here; the program
//! around it performs the request and prints the result.

use vstd::prelude::*;
use crate::fan::FanMode;
use crate::rgb::{
    effect_mode, effect_name, effect_name_of, parse_rgb, parse_zone_string, rgb_hex, spec_effect_mode,
    spec_parse_zone_string, Rgb, RgbState, RgbStateView,
};
use crate::text::{
    append_str, chars_of, dec_string, find, find_from, join, join_strings, parse_u8, parse_u8_spec,
    push_dec, slice_vec, string_of, string_views, trim, trimmed,
};

verus! {

// ---------------------------------------------------------------------------
// Small argument forms
// ---------------------------------------------------------------------------

/// `parse_pair`: "CPU,GPU", split at the first comma, each side a `u8`
/// with surrounding white space ignored.
pub open spec fn spec_parse_pair(s: Seq<char>) -> Option<(u8, u8)> {
    let i = find(s, seq![',']);
    if i < 0 {
        None
    } else {
        match (parse_u8_spec(trim(s.take(i))), parse_u8_spec(trim(s.skip(i + 1)))) {
            (Some(a), Some(b)) => Some((a, b)),
            _ => None,
        }
    }
}

pub fn parse_pair(spec: &str) -> (r: Option<(u8, u8)>)
    ensures
        r == spec_parse_pair(spec@),
{
    let cs = chars_of(spec);
    let mut comma: Vec<char> = Vec::new();
    comma.push(',');
    assert(comma@ =~= seq![',']);
    assert(cs@.skip(0) =~= cs@);
    match find_from(&cs, &comma, 0) {
        None => None,
        Some(i) => {
            proof {
                crate::text::lemma_find(cs@, comma@);
                assert(find(cs@, comma@) == i);
                assert(crate::text::match_at(cs@, comma@, i as int));
            }
            assert(i < cs.len());
            let a = trimmed(&slice_vec(&cs, 0, i));
            let b = trimmed(&slice_vec(&cs, i + 1, cs.len()));
            assert(cs@.subrange(0, i as int) =~= cs@.take(i as int));
            assert(cs@.subrange(i + 1, cs@.len() as int) =~= cs@.skip(i + 1));
            let sa = string_of(a.as_slice());
            let sb = string_of(b.as_slice());
            match (parse_u8(sa.as_str()), parse_u8(sb.as_str())) {
                (Some(x), Some(y)) => Some((x, y)),
                _ => None,
            }
        },
    }
}

/// "on"/"off" for a turbo state, "?" when unknown.
pub fn turbo_str(t: Option<bool>) -> (s: &'static str)
    ensures
        s@ == (match t {
            Some(true) => "on"@,
            Some(false) => "off"@,
            None => "?"@,
        }),
{
    match t {
        Some(true) => "on",
        Some(false) => "off",
        None => "?",
    }
}

/// `nitro auto <on|off>`: the switch value, when the word is one of
/// on/true/1 or off/false/0.
pub open spec fn spec_parse_switch(arg: Option<Seq<char>>) -> Option<bool> {
    match arg {
        Some(a) => if a == "on"@ || a == "true"@ || a == "1"@ {
            Some(true)
        } else if a == "off"@ || a == "false"@ || a == "0"@ {
            Some(false)
        } else {
            None
        },
        None => None,
    }
}

pub open spec fn opt_str(o: Option<&str>) -> Option<Seq<char>> {
    match o {
        Some(s) => Some(s@),
        None => None,
    }
}

pub fn parse_switch(arg: Option<&str>) -> (r: Option<bool>)
    ensures
        r == spec_parse_switch(opt_str(arg)),
{
    match arg {
        Some(a) => {
            let cs = chars_of(a);
            if crate::text::eq_str(&cs, "on") || crate::text::eq_str(&cs, "true") || crate::text::eq_str(&cs, "1") {
                Some(true)
            } else if crate::text::eq_str(&cs, "off") || crate::text::eq_str(&cs, "false") || crate::text::eq_str(
                &cs,
                "0",
            ) {
                Some(false)
            } else {
                None
            }
        },
        None => None,
    }
}

// ---------------------------------------------------------------------------
// charge-limit and fan
// ---------------------------------------------------------------------------

/// What `nitro charge-limit [arg]` asks for.
#[derive(Debug, Clone, Copy, PartialEq, Eq, Structural)]
pub enum ChargeArg {
    /// No argument: report the current limit.
    Show,
    /// "off" or "none": drop the saved limit.
    Clear,
    /// A percentage to save and enforce.
    Limit(u8),
    /// Anything else: print the usage.
    Invalid,
}

pub open spec fn spec_charge_arg(arg: Option<Seq<char>>) -> ChargeArg {
    match arg {
        None => ChargeArg::Show,
        Some(a) => if a == "off"@ || a == "none"@ {
            ChargeArg::Clear
        } else {
            match parse_u8_spec(a) {
                Some(pct) => ChargeArg::Limit(pct),
                None => ChargeArg::Invalid,
            }
        },
    }
}

pub fn charge_arg(arg: Option<&str>) -> (r: ChargeArg)
    ensures
        r == spec_charge_arg(opt_str(arg)),
{
    match arg {
        None => ChargeArg::Show,
        Some(a) => {
            let cs = chars_of(a);
            if crate::text::eq_str(&cs, "off") || crate::text::eq_str(&cs, "none") {
                ChargeArg::Clear
            } else {
                match parse_u8(a) {
                    Some(pct) => ChargeArg::Limit(pct),
                    None => ChargeArg::Invalid,
                }
            }
        },
    }
}

/// What `nitro fan [arg]` asks for.
#[derive(Debug, Clone, Copy, PartialEq, Eq, Structural)]
pub enum FanArg {
    /// No argument: report the current setting.
    Show,
    /// Set this fan mode.
    Mode(FanMode),
    /// Neither auto, max nor CPU,GPU.
    Invalid,
}

pub open spec fn spec_fan_arg(arg: Option<Seq<char>>) -> FanArg {
    match arg {
        None => FanArg::Show,
        Some(a) => if a == "auto"@ {
            FanArg::Mode(FanMode::Auto)
        } else if a == "max"@ {
            FanArg::Mode(FanMode::Max)
        } else {
            match spec_parse_pair(a) {
                Some((cpu, gpu)) => FanArg::Mode(FanMode::Manual { cpu, gpu }),
                None => FanArg::Invalid,
            }
        },
    }
}

pub fn fan_arg(arg: Option<&str>) -> (r: FanArg)
    ensures
        r == spec_fan_arg(opt_str(arg)),
{
    match arg {
        None => FanArg::Show,
        Some(a) => {
            let cs = chars_of(a);
            if crate::text::eq_str(&cs, "auto") {
                FanArg::Mode(FanMode::Auto)
            } else if crate::text::eq_str(&cs, "max") {
                FanArg::Mode(FanMode::Max)
            } else {
                match parse_pair(a) {
                    Some((cpu, gpu)) => FanArg::Mode(FanMode::Manual { cpu, gpu }),
                    None => FanArg::Invalid,
                }
            }
        },
    }
}

// ---------------------------------------------------------------------------
// rgb
// ---------------------------------------------------------------------------

/// Are all zone colours the same?
pub open spec fn all_same(cs: Seq<Seq<char>>) -> bool {
    forall|i: int| 0 <= i < cs.len() ==> #[trigger] cs[i] == cs[0]
}

pub open spec fn percent_suffix(b: u8) -> Seq<char> {
    " @ "@ + dec_string(b as nat) + "%"@
}

/// `describe_rgb`: a one-line description of a persisted keyboard state.
pub open spec fn spec_describe_rgb(st: RgbStateView) -> Seq<char> {
    match st {
        RgbStateView::Off => "off"@,
        RgbStateView::Zones { colors, brightness } => if all_same(colors) {
            "solid #"@ + colors[0] + percent_suffix(brightness)
        } else {
            "zones "@ + join(colors, "/"@) + percent_suffix(brightness)
        },
        RgbStateView::Effect { mode, brightness, color, .. } => "effect "@ + effect_name_of(mode as int) + " #"@
            + color + percent_suffix(brightness),
    }
}

fn push_percent_suffix(out: &mut String, b: u8)
    ensures
        final(out)@ == old(out)@ + percent_suffix(b),
{
    append_str(out, " @ ");
    push_dec(out, b as u64);
    append_str(out, "%");
    assert(final(out)@ =~= old(out)@ + percent_suffix(b));
}

/// One-line human description of a persisted RGB state.
pub fn describe_rgb(state: &RgbState) -> (s: String)
    ensures
        s@ == spec_describe_rgb(state@),
{
    match state {
        RgbState::Off => String::from_str("off"),
        RgbState::Zones { colors, brightness } => {
            let ghost cv = colors@.map_values(|c: String| c@);
            let same = colors[1] == colors[0] && colors[2] == colors[0] && colors[3] == colors[0];
            let mut out = String::new();
            if same {
                assert(all_same(cv)) by {
                    assert forall|i: int| 0 <= i < cv.len() implies #[trigger] cv[i] == cv[0] by {
                        assert(i == 0 || i == 1 || i == 2 || i == 3);
                    }
                }
                append_str(&mut out, "solid #");
                append_str(&mut out, colors[0].as_str());
            } else {
                assert(!all_same(cv)) by {
                    assert(cv[1] != cv[0] || cv[2] != cv[0] || cv[3] != cv[0]);
                }
                append_str(&mut out, "zones ");
                let joined = join_strings(colors, "/");
                assert(string_views(colors@) =~= cv);
                append_str(&mut out, joined.as_str());
            }
            push_percent_suffix(&mut out, *brightness);
            out
        },
        RgbState::Effect { mode, brightness, color, .. } => {
            let mut out = String::new();
            append_str(&mut out, "effect ");
            append_str(&mut out, effect_name(*mode));
            append_str(&mut out, " #");
            append_str(&mut out, color.as_str());
            push_percent_suffix(&mut out, *brightness);
            out
        },
    }
}

/// Why an `nitro rgb` request was refused.
#[derive(Debug)]
pub enum RgbUsage {
    /// `brightness` without a `u8`.
    Brightness,
    /// `zones` with fewer than four colours.
    Zones,
    /// A zone colour that is not RRGGBB.
    ZoneColour(String),
    /// `effect` with fewer than five arguments.
    Effect,
    /// An effect that is neither a known name nor 0-7.
    UnknownEffect(String),
    /// The effect colour is not RRGGBB.
    EffectColour(String),
    /// The first argument is no subcommand and no colour.
    Colour(String),
}

pub enum RgbUsageView {
    Brightness,
    Zones,
    ZoneColour(Seq<char>),
    Effect,
    UnknownEffect(Seq<char>),
    EffectColour(Seq<char>),
    Colour(Seq<char>),
}

impl View for RgbUsage {
    type V = RgbUsageView;

    open spec fn view(&self) -> RgbUsageView {
        match *self {
            RgbUsage::Brightness => RgbUsageView::Brightness,
            RgbUsage::Zones => RgbUsageView::Zones,
            RgbUsage::ZoneColour(c) => RgbUsageView::ZoneColour(c@),
            RgbUsage::Effect => RgbUsageView::Effect,
            RgbUsage::UnknownEffect(e) => RgbUsageView::UnknownEffect(e@),
            RgbUsage::EffectColour(c) => RgbUsageView::EffectColour(c@),
            RgbUsage::Colour(c) => RgbUsageView::Colour(c@),
        }
    }
}

/// What `nitro rgb [args]` asks for.
#[derive(Debug)]
pub enum RgbRequest {
    /// No argument: report the saved and current state.
    Show,
    /// Apply and save this state.
    Apply(RgbState),
    /// A solid colour, applied and saved as this gentle "shifting" effect
    /// (steady static colour leaves this firmware's keyboard dark).
    Solid(RgbState),
    /// Re-apply the saved (or current) colours at this brightness (0-100).
    Brightness(u8),
    /// Refused; print the usage.
    Invalid(RgbUsage),
}

pub enum RgbRequestView {
    Show,
    Apply(RgbStateView),
    Solid(RgbStateView),
    Brightness(u8),
    Invalid(RgbUsageView),
}

impl View for RgbRequest {
    type V = RgbRequestView;

    open spec fn view(&self) -> RgbRequestView {
        match *self {
            RgbRequest::Show => RgbRequestView::Show,
            RgbRequest::Apply(st) => RgbRequestView::Apply(st@),
            RgbRequest::Solid(st) => RgbRequestView::Solid(st@),
            RgbRequest::Brightness(b) => RgbRequestView::Brightness(b),
            RgbRequest::Invalid(u) => RgbRequestView::Invalid(u@),
        }
    }
}

/// Argument `i` parsed as a `u8`, or `default` when absent or not a `u8`.
pub open spec fn u8_or(args: Seq<Seq<char>>, i: int, default: u8) -> u8 {
    if i < args.len() {
        match parse_u8_spec(args[i]) {
            Some(v) => v,
            None => default,
        }
    } else {
        default
    }
}

/// The zone colours, as lower-case hex, or the first one that is not a colour.
pub open spec fn zone_colours(z: Seq<Seq<char>>) -> Result<Seq<Seq<char>>, Seq<char>> {
    match (parse_rgb(z[0]), parse_rgb(z[1]), parse_rgb(z[2]), parse_rgb(z[3])) {
        (Some(c0), Some(c1), Some(c2), Some(c3)) => Ok(seq![rgb_hex(c0), rgb_hex(c1), rgb_hex(c2), rgb_hex(c3)]),
        _ => if parse_rgb(z[0]) is None {
            Err(z[0])
        } else if parse_rgb(z[1]) is None {
            Err(z[1])
        } else if parse_rgb(z[2]) is None {
            Err(z[2])
        } else {
            Err(z[3])
        },
    }
}

/// `nitro rgb [args]`.
pub open spec fn spec_rgb_request(args: Seq<Seq<char>>) -> RgbRequestView {
    if args.len() == 0 {
        RgbRequestView::Show
    } else if args[0] == "off"@ {
        RgbRequestView::Apply(RgbStateView::Off)
    } else if args[0] == "brightness"@ {
        if args.len() > 1 && parse_u8_spec(args[1]) is Some {
            let v = parse_u8_spec(args[1])->0;
            RgbRequestView::Brightness(if v < 100 { v } else { 100 })
        } else {
            RgbRequestView::Invalid(RgbUsageView::Brightness)
        }
    } else if args[0] == "zones"@ {
        if args.len() < 5 {
            RgbRequestView::Invalid(RgbUsageView::Zones)
        } else {
            match zone_colours(args.subrange(1, 5)) {
                Ok(colors) => RgbRequestView::Apply(
                    RgbStateView::Zones { colors, brightness: u8_or(args, 5, 100) },
                ),
                Err(c) => RgbRequestView::Invalid(RgbUsageView::ZoneColour(c)),
            }
        }
    } else if args[0] == "effect"@ {
        if args.len() < 6 {
            RgbRequestView::Invalid(RgbUsageView::Effect)
        } else {
            match spec_effect_mode(args[1]) {
                None => RgbRequestView::Invalid(RgbUsageView::UnknownEffect(args[1])),
                Some(mode) => match parse_rgb(args[5]) {
                    None => RgbRequestView::Invalid(RgbUsageView::EffectColour(args[5])),
                    Some(c) => RgbRequestView::Apply(
                        RgbStateView::Effect {
                            mode,
                            speed: u8_or(args, 2, 0),
                            brightness: u8_or(args, 3, 100),
                            direction: u8_or(args, 4, 1),
                            color: rgb_hex(c),
                        },
                    ),
                },
            }
        }
    } else {
        match parse_rgb(args[0]) {
            Some(c) => RgbRequestView::Solid(
                RgbStateView::Effect {
                    mode: 4,
                    speed: 3,
                    brightness: u8_or(args, 1, 100),
                    direction: 1,
                    color: rgb_hex(c),
                },
            ),
            None => RgbRequestView::Invalid(RgbUsageView::Colour(args[0])),
        }
    }
}

fn arg_u8_or(args: &[String], i: usize, default: u8) -> (v: u8)
    ensures
        v == u8_or(string_views(args@), i as int, default),
{
    if i < args.len() {
        match parse_u8(args[i].as_str()) {
            Some(v) => v,
            None => default,
        }
    } else {
        default
    }
}

fn eq_word(s: &String, w: &str) -> (b: bool)
    ensures
        b == (s@ == w@),
{
    let cs = chars_of(s.as_str());
    crate::text::eq_str(&cs, w)
}

fn zones_request(args: &[String]) -> (r: RgbRequest)
    requires
        args@.len() > 0,
        args@[0]@ == "zones"@,
    ensures
        r@ == spec_rgb_request(string_views(args@)),
{
    let ghost a = string_views(args@);
    assert(a[0] == args@[0]@);
    proof {
        reveal_strlit("zones");
        reveal_strlit("off");
        reveal_strlit("brightness");
    }
    if args.len() < 5 {
        return RgbRequest::Invalid(RgbUsage::Zones);
    }
    let ghost z = a.subrange(1, 5);
    assert(z[0] == args@[1]@ && z[1] == args@[2]@ && z[2] == args@[3]@ && z[3] == args@[4]@);
    let c0 = match Rgb::parse(args[1].as_str()) {
        Some(c) => c,
        None => return RgbRequest::Invalid(RgbUsage::ZoneColour(args[1].clone())),
    };
    let c1 = match Rgb::parse(args[2].as_str()) {
        Some(c) => c,
        None => return RgbRequest::Invalid(RgbUsage::ZoneColour(args[2].clone())),
    };
    let c2 = match Rgb::parse(args[3].as_str()) {
        Some(c) => c,
        None => return RgbRequest::Invalid(RgbUsage::ZoneColour(args[3].clone())),
    };
    let c3 = match Rgb::parse(args[4].as_str()) {
        Some(c) => c,
        None => return RgbRequest::Invalid(RgbUsage::ZoneColour(args[4].clone())),
    };
    let colors = [c0.hex(), c1.hex(), c2.hex(), c3.hex()];
    let brightness = arg_u8_or(args, 5, 100);
    let st = RgbState::Zones { colors, brightness };
    assert(colors@.map_values(|c: String| c@) =~= seq![rgb_hex(c0), rgb_hex(c1), rgb_hex(c2), rgb_hex(c3)]);
    return RgbRequest::Apply(st);
}

fn effect_request(args: &[String]) -> (r: RgbRequest)
    requires
        args@.len() > 0,
        args@[0]@ == "effect"@,
    ensures
        r@ == spec_rgb_request(string_views(args@)),
{
    let ghost a = string_views(args@);
    assert(a[0] == args@[0]@);
    proof {
        reveal_strlit("zones");
        reveal_strlit("off");
        reveal_strlit("effect");
        reveal_strlit("brightness");
    }
    if args.len() < 6 {
        return RgbRequest::Invalid(RgbUsage::Effect);
    }
    assert(a[1] == args@[1]@ && a[5] == args@[5]@);
    let mode = match effect_mode(args[1].as_str()) {
        Some(m) => m,
        None => return RgbRequest::Invalid(RgbUsage::UnknownEffect(args[1].clone())),
    };
    let speed = arg_u8_or(args, 2, 0);
    let brightness = arg_u8_or(args, 3, 100);
    let direction = arg_u8_or(args, 4, 1);
    let color = match Rgb::parse(args[5].as_str()) {
        Some(c) => c,
        None => return RgbRequest::Invalid(RgbUsage::EffectColour(args[5].clone())),
    };
    return RgbRequest::Apply(RgbState::Effect { mode, speed, brightness, direction, color: color.hex() });
}

/// Interpret the arguments of `nitro rgb`.
pub fn rgb_request(args: &[String]) -> (r: RgbRequest)
    ensures
        r@ == spec_rgb_request(string_views(args@)),
{
    let ghost a = string_views(args@);
    if args.len() == 0 {
        return RgbRequest::Show;
    }
    assert(a[0] == args@[0]@);
    if eq_word(&args[0], "off") {
        return RgbRequest::Apply(RgbState::Off);
    }
    if eq_word(&args[0], "brightness") {
        if args.len() > 1 {
            assert(a[1] == args@[1]@);
            match parse_u8(args[1].as_str()) {
                Some(v) => return RgbRequest::Brightness(if v < 100 { v } else { 100 }),
                None => return RgbRequest::Invalid(RgbUsage::Brightness),
            }
        }
        return RgbRequest::Invalid(RgbUsage::Brightness);
    }
    if eq_word(&args[0], "zones") {
        return zones_request(args);
    }
    if eq_word(&args[0], "effect") {
        return effect_request(args);
    }
    match Rgb::parse(args[0].as_str()) {
        Some(c) => {
            let brightness = arg_u8_or(args, 1, 100);
            RgbRequest::Solid(RgbState::Effect { mode: 4, speed: 3, brightness, direction: 1, color: c.hex() })
        },
        None => RgbRequest::Invalid(RgbUsage::Colour(args[0].clone())),
    }
}

/// The state `nitro rgb brightness` adjusts: the saved one, else the per-zone
/// colours the keyboard reports (at full brightness).
pub open spec fn spec_brightness_base(saved: Option<RgbStateView>, per_zone: Option<Seq<char>>) -> Option<
    RgbStateView,
> {
    match saved {
        Some(st) => Some(st),
        None => match per_zone {
            Some(s) => match spec_parse_zone_string(s) {
                Some((z, _)) => Some(
                    RgbStateView::Zones {
                        colors: seq![rgb_hex(z[0]), rgb_hex(z[1]), rgb_hex(z[2]), rgb_hex(z[3])],
                        brightness: 100,
                    },
                ),
                None => None,
            },
            None => None,
        },
    }
}

pub fn brightness_base(saved: Option<RgbState>, per_zone: Option<String>) -> (r: Option<RgbState>)
    ensures
        crate::config::opt_rgb_view(r) == spec_brightness_base(
            crate::config::opt_rgb_view(saved),
            crate::sysfs::opt_view(per_zone),
        ),
{
    match saved {
        Some(st) => Some(st),
        None => match per_zone {
            Some(s) => match parse_zone_string(s.as_str()) {
                Some((z, _)) => {
                    let colors = [z[0].hex(), z[1].hex(), z[2].hex(), z[3].hex()];
                    assert(colors@.map_values(|c: String| c@) =~= seq![
                        rgb_hex(z@[0]),
                        rgb_hex(z@[1]),
                        rgb_hex(z@[2]),
                        rgb_hex(z@[3]),
                    ]);
                    Some(RgbState::Zones { colors, brightness: 100 })
                },
                None => None,
            },
            None => None,
        },
    }
}

// ---------------------------------------------------------------------------
// status
// ---------------------------------------------------------------------------

pub open spec fn auto_tag(auto_switch: bool) -> Seq<char> {
    if auto_switch {
        " (auto)"@
    } else {
        ""@
    }
}

/// A capability-gated read-back: unsupported, or supported with an optional value.
pub open spec fn gated(v: Option<Option<Seq<char>>>) -> Seq<char> {
    match v {
        None => "n/a (linuwu-sense not loaded)"@,
        Some(None) => "?"@,
        Some(Some(x)) => x,
    }
}

pub open spec fn opt_opt_view(v: Option<Option<String>>) -> Option<Option<Seq<char>>> {
    match v {
        None => None,
        Some(None) => Some(None),
        Some(Some(x)) => Some(Some(x@)),
    }
}

/// `nitro status`, up to the telemetry lines: daemon state, the profile (as
/// published by the daemon when it has published one, else as configured),
/// the cpufreq status, charge limit, hotkey, fan and keyboard read-backs.
/// `fan` and `rgb` are none when the interface is missing.
pub open spec fn spec_status_text(
    s: crate::control::CpuStatus,
    cfg: crate::config::ConfigView,
    daemon: bool,
    st: Option<crate::state::State>,
    battery_supported: bool,
    fan: Option<Option<Seq<char>>>,
    rgb: Option<Option<Seq<char>>>,
) -> Seq<char> {
    let t = seq![] + "nitro status\n"@ + "  daemon    : "@ + (if daemon {
        "running"@
    } else {
        "stopped"@
    }) + "\n"@;
    let t = match st {
        Some(x) => {
            let t = t + "  profile   : "@ + x.profile@ + auto_tag(x.auto_switch) + "\n"@;
            if x.thermal_guard_active {
                t + "  THERMAL GUARD ACTIVE (CPU forced to quiet)\n"@
            } else {
                t
            }
        },
        None => t + "  profile   : "@ + cfg.profile + auto_tag(cfg.auto_switch) + "\n"@,
    };
    t + "  driver    : "@ + crate::render::opt_or(crate::sysfs::opt_view(s.driver), "?"@) + "\n"@
        + "  governor  : "@ + crate::render::opt_or(crate::sysfs::opt_view(s.governor), "?"@) + "\n"@
        + "  epp       : "@ + crate::render::opt_or(crate::sysfs::opt_view(s.epp), "?"@) + "\n"@
        + "  turbo     : "@ + (match s.turbo_enabled {
        Some(true) => "on"@,
        Some(false) => "off"@,
        None => "?"@,
    }) + "\n"@ + "  governors : "@ + join(string_views(s.available_governors@), ", "@) + "\n"@
        + "  charge    : "@ + (match cfg.charge_limit {
        Some(v) => dec_string(v as nat) + "%"@,
        None => "unset"@,
    }) + " (hw support: "@ + crate::render::yn(battery_supported) + ")\n"@ + "  hotkey    : "@
        + (match cfg.hotkey_code {
        Some(c) => "bound (code "@ + dec_string(c as nat) + ")"@,
        None => "not learned"@,
    }) + "\n"@ + "  fan       : "@ + gated(fan) + "\n"@ + "  rgb       : "@ + gated(rgb) + "\n"@ + "\n"@
}

fn push_gated(o: &mut String, v: &Option<Option<String>>)
    ensures
        final(o)@ == old(o)@ + gated(opt_opt_view(*v)),
{
    match v {
        None => append_str(o, "n/a (linuwu-sense not loaded)"),
        Some(None) => append_str(o, "?"),
        Some(Some(x)) => append_str(o, x.as_str()),
    }
}

fn push_or_q(o: &mut String, v: &Option<String>)
    ensures
        final(o)@ == old(o)@ + crate::render::opt_or(crate::sysfs::opt_view(*v), "?"@),
{
    match v {
        Some(x) => append_str(o, x.as_str()),
        None => append_str(o, "?"),
    }
}

/// The text `nitro status` prints before the telemetry lines.
pub fn status_text(
    s: &crate::control::CpuStatus,
    cfg: &crate::config::Config,
    daemon: bool,
    st: &Option<crate::state::State>,
    battery_supported: bool,
    fan: &Option<Option<String>>,
    rgb: &Option<Option<String>>,
) -> (o: String)
    ensures
        o@ == spec_status_text(*s, cfg@, daemon, *st, battery_supported, opt_opt_view(*fan), opt_opt_view(*rgb)),
{
    let mut o = String::new();
    append_str(&mut o, "nitro status\n");
    append_str(&mut o, "  daemon    : ");
    if daemon {
        append_str(&mut o, "running");
    } else {
        append_str(&mut o, "stopped");
    }
    append_str(&mut o, "\n");
    match st {
        Some(x) => {
            append_str(&mut o, "  profile   : ");
            append_str(&mut o, x.profile.as_str());
            if x.auto_switch {
                append_str(&mut o, " (auto)");
            } else {
                append_str(&mut o, "");
            }
            append_str(&mut o, "\n");
            if x.thermal_guard_active {
                append_str(&mut o, "  THERMAL GUARD ACTIVE (CPU forced to quiet)\n");
            }
        },
        None => {
            append_str(&mut o, "  profile   : ");
            append_str(&mut o, cfg.profile.as_str());
            if cfg.auto_switch {
                append_str(&mut o, " (auto)");
            } else {
                append_str(&mut o, "");
            }
            append_str(&mut o, "\n");
        },
    }
    append_str(&mut o, "  driver    : ");
    push_or_q(&mut o, &s.driver);
    append_str(&mut o, "\n");
    append_str(&mut o, "  governor  : ");
    push_or_q(&mut o, &s.governor);
    append_str(&mut o, "\n");
    append_str(&mut o, "  epp       : ");
    push_or_q(&mut o, &s.epp);
    append_str(&mut o, "\n");
    append_str(&mut o, "  turbo     : ");
    append_str(&mut o, turbo_str(s.turbo_enabled));
    append_str(&mut o, "\n");
    append_str(&mut o, "  governors : ");
    let g = join_strings(s.available_governors.as_slice(), ", ");
    append_str(&mut o, g.as_str());
    append_str(&mut o, "\n");
    append_str(&mut o, "  charge    : ");
    let ghost before_charge = o@;
    match cfg.charge_limit {
        Some(v) => {
            push_dec(&mut o, v as u64);
            append_str(&mut o, "%");
            assert(o@ =~= before_charge + (dec_string(v as nat) + "%"@));
        },
        None => append_str(&mut o, "unset"),
    }
    append_str(&mut o, " (hw support: ");
    if battery_supported {
        append_str(&mut o, "yes");
    } else {
        append_str(&mut o, "no");
    }
    append_str(&mut o, ")\n");
    append_str(&mut o, "  hotkey    : ");
    let ghost before_hotkey = o@;
    match cfg.hotkey_code {
        Some(c) => {
            append_str(&mut o, "bound (code ");
            push_dec(&mut o, c as u64);
            append_str(&mut o, ")");
            assert(o@ =~= before_hotkey + ("bound (code "@ + dec_string(c as nat) + ")"@));
        },
        None => append_str(&mut o, "not learned"),
    }
    append_str(&mut o, "\n");
    append_str(&mut o, "  fan       : ");
    push_gated(&mut o, fan);
    append_str(&mut o, "\n");
    append_str(&mut o, "  rgb       : ");
    push_gated(&mut o, rgb);
    append_str(&mut o, "\n");
    append_str(&mut o, "\n");
    o
}

} // verus!
