//! Four-zone keyboard RGB via the Acer gaming-WMI keyboard attributes.
//!
//! per_zone_mode: "RRGGBB,RRGGBB,RRGGBB,RRGGBB,BRIGHTNESS" (static per-zone).
//! four_zone_mode: "mode,speed,brightness,direction,red,green,blue" (effects),
//! mode 0-7, speed 0-9, brightness 0-100, direction 1-2, rgb 0-255.
//! Capability-gated on the linuwu-sense keyboard directory being present.

use vstd::prelude::*;
use crate::acer::{kbd_dir, read_attr, spec_kbd_dir, spec_write_attr, write_attr};
use crate::error::{ErrorKind, HalError};
use crate::plan::{plan_fail, Plan, PlanView};
use crate::sysfs::{opt_view, path_join, SysFs};
use crate::text::{
    all_hex, chars_of, dec_string, eq_str, hex_char, hex_digit, hex_digit_value, is_hex, is_hex_char,
    is_ws, lower_all, lower_seq, parse_u64_chars, parse_uint, push_char, push_dec, split, split_vec,
    trim, trim_end, trim_start, trimmed, lemma_dec_string, lemma_split_first, lemma_split_none, upper, upper_seq,
    is_digit,
};

verus! {

#[derive(Debug, Clone, Copy, PartialEq, Eq, Structural)]
pub struct Rgb {
    pub r: u8,
    pub g: u8,
    pub b: u8,
}

/// `{:02x}` of a byte.
pub open spec fn hex2(b: u8) -> Seq<char> {
    seq![hex_char((b / 16) as nat), hex_char((b % 16) as nat)]
}

/// `Rgb::hex`: "rrggbb" in lower case.
pub open spec fn rgb_hex(c: Rgb) -> Seq<char> {
    hex2(c.r) + hex2(c.g) + hex2(c.b)
}

/// Leading `#` characters removed (`trim_start_matches('#')`).
pub open spec fn strip_hashes(s: Seq<char>) -> Seq<char>
    decreases s.len(),
{
    if s.len() > 0 && s[0] == '#' {
        strip_hashes(s.drop_first())
    } else {
        s
    }
}

/// The byte written by the two hex digits at `i`.
pub open spec fn hex_byte(t: Seq<char>, i: int) -> u8 {
    (hex_digit_value(t[i]) * 16 + hex_digit_value(t[i + 1])) as u8
}

/// `Rgb::parse`: an optional run of `#`, then exactly six hex digits, with
/// surrounding white space ignored.
pub open spec fn parse_rgb(s: Seq<char>) -> Option<Rgb> {
    let t = strip_hashes(trim(s));
    if t.len() == 6 && all_hex(t) {
        Some(Rgb { r: hex_byte(t, 0), g: hex_byte(t, 2), b: hex_byte(t, 4) })
    } else {
        None
    }
}

fn hex_digit_char(d: u8) -> (c: char)
    requires
        d < 16,
    ensures
        c == hex_char(d as nat),
{
    if d < 10 {
        (d + 48) as char
    } else {
        (d + 87) as char
    }
}

/// Appends `{:02x}` of `b`.
pub fn push_hex_byte(out: &mut String, b: u8)
    ensures
        final(out)@ == old(out)@ + hex2(b),
{
    push_char(out, hex_digit_char(b / 16));
    push_char(out, hex_digit_char(b % 16));
    assert(final(out)@ =~= old(out)@ + hex2(b));
}

impl Rgb {
    /// All channels off.
    pub fn off_color() -> (c: Rgb)
        ensures
            c == (Rgb { r: 0, g: 0, b: 0 }),
    {
        Rgb { r: 0, g: 0, b: 0 }
    }

    /// The colour as "rrggbb".
    pub fn hex(self) -> (s: String)
        ensures
            s@ == rgb_hex(self),
    {
        let mut s = String::new();
        push_hex_byte(&mut s, self.r);
        push_hex_byte(&mut s, self.g);
        push_hex_byte(&mut s, self.b);
        assert(s@ =~= rgb_hex(self));
        s
    }

    /// Parse a "RRGGBB" (optionally "#RRGGBB") hex colour.
    pub fn parse(s: &str) -> (r: Option<Rgb>)
        ensures
            r == parse_rgb(s@),
    {
        let cs = chars_of(s);
        let t = trimmed(&cs);
        parse_rgb_chars(&t)
    }
}

fn parse_rgb_vec(s: &Vec<char>) -> (r: Option<Rgb>)
    ensures
        r == parse_rgb(s@),
{
    let t = trimmed(s);
    parse_rgb_chars(&t)
}

fn parse_rgb_chars(t: &Vec<char>) -> (r: Option<Rgb>)
    ensures
        r == (if strip_hashes(t@).len() == 6 && all_hex(strip_hashes(t@)) {
            Some(Rgb {
                r: hex_byte(strip_hashes(t@), 0),
                g: hex_byte(strip_hashes(t@), 2),
                b: hex_byte(strip_hashes(t@), 4),
            })
        } else {
            None::<Rgb>
        }),
{
    let mut j: usize = 0;
    assert(t@.skip(0) =~= t@);
    while j < t.len() && t[j] == '#'
        invariant
            j <= t@.len(),
            strip_hashes(t@) == strip_hashes(t@.skip(j as int)),
        decreases t@.len() - j,
    {
        assert(t@.skip(j as int).drop_first() =~= t@.skip(j + 1));
        j = j + 1;
    }
    let ghost h = t@.skip(j as int);
    assert(strip_hashes(h) == h);
    if t.len() - j != 6 {
        return None;
    }
    let mut k: usize = 0;
    while k < 6
        invariant
            k <= 6,
            j + 6 == t@.len(),
            t@.len() == t.len(),
            h == t@.skip(j as int),
            strip_hashes(t@) == h,
            forall|m: int| 0 <= m < k ==> is_hex(#[trigger] h[m]),
        decreases 6 - k,
    {
        if !is_hex_char(t[j + k]) {
            assert(!is_hex(h[k as int]));
            return None;
        }
        k = k + 1;
    }
    assert(is_hex(h[0]) && is_hex(h[1]) && is_hex(h[2]) && is_hex(h[3]) && is_hex(h[4]) && is_hex(h[5]));
    assert(h[0] == t@[j as int] && h[1] == t@[j + 1] && h[2] == t@[j + 2]);
    assert(h[3] == t@[j + 3] && h[4] == t@[j + 4] && h[5] == t@[j + 5]);
    let r = hex_digit(t[j]) * 16 + hex_digit(t[j + 1]);
    let g = hex_digit(t[j + 2]) * 16 + hex_digit(t[j + 3]);
    let b = hex_digit(t[j + 4]) * 16 + hex_digit(t[j + 5]);
    Some(Rgb { r, g, b })
}

proof fn lemma_hex_char_value(d: nat)
    requires
        d < 16,
    ensures
        is_hex(hex_char(d)),
        hex_digit_value(hex_char(d)) == d,
        !is_ws(hex_char(d)),
        hex_char(d) != '#',
{
}

/// Parsing the text `hex` writes gives the colour back.
pub proof fn lemma_parse_hex_round_trip(c: Rgb)
    ensures
        parse_rgb(rgb_hex(c)) == Some(c),
{
    let x = rgb_hex(c);
    lemma_hex_char_value((c.r / 16) as nat);
    lemma_hex_char_value((c.r % 16) as nat);
    lemma_hex_char_value((c.g / 16) as nat);
    lemma_hex_char_value((c.g % 16) as nat);
    lemma_hex_char_value((c.b / 16) as nat);
    lemma_hex_char_value((c.b % 16) as nat);
    assert(x.len() == 6);
    assert(trim_start(x) == x);
    assert(trim_end(x) == x);
    assert(strip_hashes(x) == x);
    assert(all_hex(x));
}


proof fn lemma_upper_hex_char_value(d: nat)
    requires
        d < 16,
    ensures
        is_hex(upper(hex_char(d))),
        hex_digit_value(upper(hex_char(d))) == d,
        !is_ws(upper(hex_char(d))),
        upper(hex_char(d)) != '#',
{
}

/// The colour also parses back from "#" and its hex text in upper case
/// (`format!("#{}", c.hex().to_ascii_uppercase())`).
pub proof fn lemma_parse_upper_hash_round_trip(c: Rgb)
    ensures
        parse_rgb(seq!['#'] + upper_seq(rgb_hex(c))) == Some(c),
{
    let u = upper_seq(rgb_hex(c));
    let x = seq!['#'] + u;
    lemma_upper_hex_char_value((c.r / 16) as nat);
    lemma_upper_hex_char_value((c.r % 16) as nat);
    lemma_upper_hex_char_value((c.g / 16) as nat);
    lemma_upper_hex_char_value((c.g % 16) as nat);
    lemma_upper_hex_char_value((c.b / 16) as nat);
    lemma_upper_hex_char_value((c.b % 16) as nat);
    assert(u.len() == 6);
    assert(u[0] == upper(hex_char((c.r / 16) as nat)) && u[1] == upper(hex_char((c.r % 16) as nat)));
    assert(u[2] == upper(hex_char((c.g / 16) as nat)) && u[3] == upper(hex_char((c.g % 16) as nat)));
    assert(u[4] == upper(hex_char((c.b / 16) as nat)) && u[5] == upper(hex_char((c.b % 16) as nat)));
    assert(trim_start(x) == x);
    assert(x.last() == u[5]);
    assert(trim_end(x) == x);
    assert(x.drop_first() =~= u);
    assert(strip_hashes(u) == u);
    assert(strip_hashes(x) == u);
    assert(all_hex(u));
}

// ---------------------------------------------------------------------------
// Effects
// ---------------------------------------------------------------------------

/// The number of named four-zone effects.
pub const EFFECT_COUNT: usize = 8;

/// Name of effect mode `m` (mode ids 0-7, as documented by linuwu-sense),
/// "custom" for any other id.
pub open spec fn effect_name_of(m: int) -> Seq<char> {
    if m == 0 {
        "static"@
    } else if m == 1 {
        "breathing"@
    } else if m == 2 {
        "neon"@
    } else if m == 3 {
        "wave"@
    } else if m == 4 {
        "shifting"@
    } else if m == 5 {
        "zoom"@
    } else if m == 6 {
        "meteor"@
    } else if m == 7 {
        "twinkling"@
    } else {
        "custom"@
    }
}

/// `effect_mode`: a name (case-insensitive, white space ignored) or a literal
/// mode number 0-7.
pub open spec fn spec_effect_mode(name: Seq<char>) -> Option<u8> {
    let n = lower_seq(trim(name));
    if n == effect_name_of(0) {
        Some(0u8)
    } else if n == effect_name_of(1) {
        Some(1u8)
    } else if n == effect_name_of(2) {
        Some(2u8)
    } else if n == effect_name_of(3) {
        Some(3u8)
    } else if n == effect_name_of(4) {
        Some(4u8)
    } else if n == effect_name_of(5) {
        Some(5u8)
    } else if n == effect_name_of(6) {
        Some(6u8)
    } else if n == effect_name_of(7) {
        Some(7u8)
    } else {
        match parse_uint(n, 255) {
            Some(v) => if v <= 7 {
                Some(v as u8)
            } else {
                None
            },
            None => None,
        }
    }
}

/// Human-readable name for a mode id (falls back to "custom").
pub fn effect_name(mode: u8) -> (s: &'static str)
    ensures
        s@ == effect_name_of(mode as int),
{
    match mode {
        0 => "static",
        1 => "breathing",
        2 => "neon",
        3 => "wave",
        4 => "shifting",
        5 => "zoom",
        6 => "meteor",
        7 => "twinkling",
        _ => "custom",
    }
}

/// The named effect at position `i` of the effect table and its mode id.
pub fn effect_at(i: usize) -> (e: (&'static str, u8))
    requires
        i < EFFECT_COUNT,
    ensures
        e.1 == i,
        e.0@ == effect_name_of(i as int),
{
    let m = i as u8;
    (effect_name(m), m)
}

/// Resolve an effect name (case-insensitive) or a literal "0".."7" to a mode id.
pub fn effect_mode(name: &str) -> (r: Option<u8>)
    ensures
        r == spec_effect_mode(name@),
{
    let cs = chars_of(name);
    let t = trimmed(&cs);
    let n = lower_all(&t);
    let mut m: u8 = 0;
    while m < 8
        invariant
            m <= 8,
            n@ == lower_seq(trim(name@)),
            forall|k: int| 0 <= k < m ==> n@ != #[trigger] effect_name_of(k),
        decreases 8 - m,
    {
        if eq_str(&n, effect_name(m)) {
            assert(m == 0 || n@ != effect_name_of(0));
            assert(m <= 1 || n@ != effect_name_of(1));
            assert(m <= 2 || n@ != effect_name_of(2));
            assert(m <= 3 || n@ != effect_name_of(3));
            assert(m <= 4 || n@ != effect_name_of(4));
            assert(m <= 5 || n@ != effect_name_of(5));
            assert(m <= 6 || n@ != effect_name_of(6));
            return Some(m);
        }
        m = m + 1;
    }
    assert(n@ != effect_name_of(0) && n@ != effect_name_of(1) && n@ != effect_name_of(2));
    assert(n@ != effect_name_of(3) && n@ != effect_name_of(4) && n@ != effect_name_of(5));
    assert(n@ != effect_name_of(6) && n@ != effect_name_of(7));
    match parse_u64_chars(&n) {
        Some(v) => if v <= 7 {
            Some(v as u8)
        } else {
            None
        },
        None => None,
    }
}

/// Every effect resolves from its own name, and from its number.
pub proof fn lemma_effect_name_resolves(m: u8)
    requires
        m < 8,
    ensures
        spec_effect_mode(effect_name_of(m as int)) == Some(m),
        spec_effect_mode(dec_string(m as nat)) == Some(m),
{
    reveal_strlit("static");
    reveal_strlit("breathing");
    reveal_strlit("neon");
    reveal_strlit("wave");
    reveal_strlit("shifting");
    reveal_strlit("zoom");
    reveal_strlit("meteor");
    reveal_strlit("twinkling");
    let n = effect_name_of(m as int);
    assert(!is_ws(n[0]));
    assert(trim_start(n) == n);
    assert(!is_ws(n.last()));
    assert(trim_end(n) == n);
    assert(lower_seq(n) =~= n);
    let d = dec_string(m as nat);
    lemma_dec_string(m as nat);
    assert(d == seq![crate::text::digit_char(m as nat)]);
    assert(!is_ws(d[0]));
    assert(trim_start(d) == d);
    assert(trim_end(d) == d);
    assert(lower_seq(d) =~= d);
    assert(d.len() == 1);
}

/// `effect_mode` never answers a mode outside the table.
pub proof fn lemma_effect_mode_in_table(name: Seq<char>)
    ensures
        spec_effect_mode(name) matches Some(m) ==> m <= 7,
{
}

/// Effect names resolve whatever their ASCII case: the upper-case name of
/// every effect gives its mode.
pub proof fn lemma_effect_upper_name_resolves(m: u8)
    requires
        m < 8,
    ensures
        spec_effect_mode(upper_seq(effect_name_of(m as int))) == Some(m),
{
    reveal_strlit("static");
    reveal_strlit("breathing");
    reveal_strlit("neon");
    reveal_strlit("wave");
    reveal_strlit("shifting");
    reveal_strlit("zoom");
    reveal_strlit("meteor");
    reveal_strlit("twinkling");
    let n = effect_name_of(m as int);
    let u = upper_seq(n);
    assert(forall|i: int| 0 <= i < n.len() ==> 'a' <= #[trigger] n[i] && n[i] <= 'z');
    assert(!is_ws(u[0]));
    assert(trim_start(u) == u);
    assert(!is_ws(u.last()));
    assert(trim_end(u) == u);
    assert(lower_seq(u) =~= n);
    lemma_effect_name_resolves(m);
}

pub open spec fn effect_names_spec() -> Seq<Seq<char>> {
    Seq::new(8, |i: int| effect_name_of(i))
}

/// The supported effect names, for help text.
pub fn effect_names() -> (v: Vec<&'static str>)
    ensures
        v@.map_values(|s: &'static str| s@) == effect_names_spec(),
{
    let mut v: Vec<&'static str> = Vec::new();
    let mut m: u8 = 0;
    while m < 8
        invariant
            m <= 8,
            v@.len() == m,
            forall|k: int| 0 <= k < m ==> (#[trigger] v@[k])@ == effect_name_of(k),
        decreases 8 - m,
    {
        v.push(effect_name(m));
        m = m + 1;
    }
    assert(v@.map_values(|s: &'static str| s@) =~= effect_names_spec());
    v
}

// ---------------------------------------------------------------------------
// Capability and read-back
// ---------------------------------------------------------------------------

pub const KBD_UNSUPPORTED: &'static str = "keyboard RGB unavailable (linuwu-sense module not loaded)";

pub const INVALID_COLOR: &'static str = "invalid RGB colour value";

pub fn supported(fs: &SysFs) -> (b: bool)
    ensures
        b == spec_kbd_dir(*fs) is Some,
{
    kbd_dir(fs).is_some()
}

/// The raw `per_zone_mode` attribute.
pub fn get(fs: &SysFs) -> (r: Option<String>)
    ensures
        opt_view(r) == (match spec_kbd_dir(*fs) {
            Some(d) => fs.spec_read_trim(path_join(d, "per_zone_mode"@)),
            None => None,
        }),
{
    match kbd_dir(fs) {
        Some(d) => read_attr(fs, &d, "per_zone_mode"),
        None => None,
    }
}

/// The raw `four_zone_mode` attribute ("mode,speed,brightness,dir,r,g,b").
pub fn get_four_zone(fs: &SysFs) -> (r: Option<String>)
    ensures
        opt_view(r) == (match spec_kbd_dir(*fs) {
            Some(d) => fs.spec_read_trim(path_join(d, "four_zone_mode"@)),
            None => None,
        }),
{
    match kbd_dir(fs) {
        Some(d) => read_attr(fs, &d, "four_zone_mode"),
        None => None,
    }
}

// ---------------------------------------------------------------------------
// Writes
// ---------------------------------------------------------------------------

pub open spec fn min_u8(a: u8, b: u8) -> u8 {
    if a < b {
        a
    } else {
        b
    }
}

/// "c1,c2,c3,c4,b": the four colours as `hex` writes them and the brightness
/// in decimal (`format!("{},{},{},{},{}", ..)`).
pub open spec fn zone_text(z: Seq<Rgb>, brightness: u8) -> Seq<char> {
    rgb_hex(z[0]) + seq![','] + rgb_hex(z[1]) + seq![','] + rgb_hex(z[2]) + seq![','] + rgb_hex(z[3])
        + seq![','] + dec_string(brightness as nat)
}

/// The `per_zone_mode` text for four colours and a brightness (capped at 100).
pub open spec fn zones_value(z: Seq<Rgb>, brightness: u8) -> Seq<char> {
    zone_text(z, min_u8(brightness, 100))
}

pub open spec fn spec_set_zones(fs: SysFs, z: Seq<Rgb>, brightness: u8) -> PlanView {
    match spec_kbd_dir(fs) {
        Some(d) => spec_write_attr(fs, d, "per_zone_mode"@, zones_value(z, brightness)),
        None => plan_fail(ErrorKind::Unsupported, KBD_UNSUPPORTED@),
    }
}

/// `direction.clamp(1, 2)`.
pub open spec fn clamp_direction(d: u8) -> u8 {
    if d < 1 {
        1
    } else if d > 2 {
        2
    } else {
        d
    }
}

/// The `four_zone_mode` text for an effect, each field clamped to its range.
pub open spec fn effect_value(mode: u8, speed: u8, brightness: u8, direction: u8, c: Rgb) -> Seq<char> {
    dec_string(min_u8(mode, 7) as nat) + seq![','] + dec_string(min_u8(speed, 9) as nat) + seq![',']
        + dec_string(min_u8(brightness, 100) as nat) + seq![','] + dec_string(
        clamp_direction(direction) as nat,
    ) + seq![','] + dec_string(c.r as nat) + seq![','] + dec_string(c.g as nat) + seq![',']
        + dec_string(c.b as nat)
}

pub open spec fn spec_set_effect(
    fs: SysFs,
    mode: u8,
    speed: u8,
    brightness: u8,
    direction: u8,
    c: Rgb,
) -> PlanView {
    match spec_kbd_dir(fs) {
        Some(d) => spec_write_attr(fs, d, "four_zone_mode"@, effect_value(mode, speed, brightness, direction, c)),
        None => plan_fail(ErrorKind::Unsupported, KBD_UNSUPPORTED@),
    }
}

fn unsupported() -> (e: HalError)
    ensures
        e.kind == ErrorKind::Unsupported,
        e.message@ == KBD_UNSUPPORTED@,
{
    HalError { kind: ErrorKind::Unsupported, message: String::from_str(KBD_UNSUPPORTED) }
}

fn invalid_color() -> (e: HalError)
    ensures
        e.kind == ErrorKind::InvalidInput,
        e.message@ == INVALID_COLOR@,
{
    HalError { kind: ErrorKind::InvalidInput, message: String::from_str(INVALID_COLOR) }
}

/// Set an explicit colour for each of the four zones plus overall brightness via
/// `per_zone_mode`. Note: on the AN515-5x firmware the underlying static path is
/// broken (the keyboard goes dark); animated effects via [`set_effect`] do work.
pub fn set_zones(fs: &SysFs, zones: [Rgb; 4], brightness: u8) -> (p: Plan)
    ensures
        p@ == spec_set_zones(*fs, zones@, brightness),
{
    let dir = match kbd_dir(fs) {
        Some(d) => d,
        None => {
            let p = Plan::fail(unsupported());
            assert(p@.0 =~= seq![]);
            return p;
        },
    };
    let b = if brightness < 100 { brightness } else { 100 };
    let mut value = String::new();
    push_hex_byte(&mut value, zones[0].r);
    push_hex_byte(&mut value, zones[0].g);
    push_hex_byte(&mut value, zones[0].b);
    push_char(&mut value, ',');
    push_hex_byte(&mut value, zones[1].r);
    push_hex_byte(&mut value, zones[1].g);
    push_hex_byte(&mut value, zones[1].b);
    push_char(&mut value, ',');
    push_hex_byte(&mut value, zones[2].r);
    push_hex_byte(&mut value, zones[2].g);
    push_hex_byte(&mut value, zones[2].b);
    push_char(&mut value, ',');
    push_hex_byte(&mut value, zones[3].r);
    push_hex_byte(&mut value, zones[3].g);
    push_hex_byte(&mut value, zones[3].b);
    push_char(&mut value, ',');
    push_dec(&mut value, b as u64);
    assert(value@ =~= zones_value(zones@, brightness));
    write_attr(fs, &dir, "per_zone_mode", value)
}

/// Set all four zones to the same colour.
pub fn set_all(fs: &SysFs, color: Rgb, brightness: u8) -> (p: Plan)
    ensures
        p@ == spec_set_zones(*fs, seq![color, color, color, color], brightness),
{
    let zones = [color, color, color, color];
    assert(zones@ =~= seq![color, color, color, color]);
    set_zones(fs, zones, brightness)
}

pub open spec fn off_zones() -> Seq<Rgb> {
    seq![Rgb { r: 0, g: 0, b: 0 }, Rgb { r: 0, g: 0, b: 0 }, Rgb { r: 0, g: 0, b: 0 }, Rgb { r: 0, g: 0, b: 0 }]
}

/// All zones dark at brightness 0.
pub fn off(fs: &SysFs) -> (p: Plan)
    ensures
        p@ == spec_set_zones(*fs, off_zones(), 0),
{
    set_all(fs, Rgb::off_color(), 0)
}

/// Drive an animated effect via four_zone_mode.
pub fn set_effect(fs: &SysFs, mode: u8, speed: u8, brightness: u8, direction: u8, color: Rgb) -> (p: Plan)
    ensures
        p@ == spec_set_effect(*fs, mode, speed, brightness, direction, color),
{
    let dir = match kbd_dir(fs) {
        Some(d) => d,
        None => {
            let p = Plan::fail(unsupported());
            assert(p@.0 =~= seq![]);
            return p;
        },
    };
    let mut value = String::new();
    push_dec(&mut value, (if mode < 7 { mode } else { 7 }) as u64);
    push_char(&mut value, ',');
    push_dec(&mut value, (if speed < 9 { speed } else { 9 }) as u64);
    push_char(&mut value, ',');
    push_dec(&mut value, (if brightness < 100 { brightness } else { 100 }) as u64);
    push_char(&mut value, ',');
    push_dec(&mut value, (if direction < 1 { 1 } else if direction > 2 { 2 } else { direction }) as u64);
    push_char(&mut value, ',');
    push_dec(&mut value, color.r as u64);
    push_char(&mut value, ',');
    push_dec(&mut value, color.g as u64);
    push_char(&mut value, ',');
    push_dec(&mut value, color.b as u64);
    assert(value@ =~= effect_value(mode, speed, brightness, direction, color));
    write_attr(fs, &dir, "four_zone_mode", value)
}

/// An effect is written only into an existing `four_zone_mode`: with the
/// keyboard directory present but that file absent, nothing is written and
/// the request fails as unsupported; with it present, exactly one write of
/// the effect text is planned there.
pub proof fn lemma_effect_needs_four_zone_mode(fs: SysFs, mode: u8, speed: u8, brightness: u8, direction: u8, c: Rgb)
    requires
        spec_kbd_dir(fs) is Some,
    ensures
        !fs.spec_exists(path_join(spec_kbd_dir(fs)->0, "four_zone_mode"@)) ==> spec_set_effect(
            fs,
            mode,
            speed,
            brightness,
            direction,
            c,
        ) == plan_fail(ErrorKind::Unsupported, crate::acer::missing_attr_message("four_zone_mode"@)),
        fs.spec_exists(path_join(spec_kbd_dir(fs)->0, "four_zone_mode"@)) ==> spec_set_effect(
            fs,
            mode,
            speed,
            brightness,
            direction,
            c,
        ) == crate::plan::plan_write(
            path_join(spec_kbd_dir(fs)->0, "four_zone_mode"@),
            effect_value(mode, speed, brightness, direction, c),
        ),
{
}

// ---------------------------------------------------------------------------
// Reading the per-zone attribute back
// ---------------------------------------------------------------------------

/// `parse_zone_string`: "hex,hex,hex,hex,brightness" (extra fields ignored).
pub open spec fn spec_parse_zone_string(s: Seq<char>) -> Option<(Seq<Rgb>, u8)> {
    let parts = split(trim(s), seq![',']);
    if parts.len() < 5 {
        None
    } else {
        match (parse_rgb(parts[0]), parse_rgb(parts[1]), parse_rgb(parts[2]), parse_rgb(parts[3])) {
            (Some(z0), Some(z1), Some(z2), Some(z3)) => match parse_uint(trim(parts[4]), 255) {
                Some(b) => Some((seq![z0, z1, z2, z3], b as u8)),
                None => None,
            },
            _ => None,
        }
    }
}

/// Parse the raw `per_zone_mode` string ("hex,hex,hex,hex,brightness") into the
/// four zone colours and the brightness value.
pub fn parse_zone_string(s: &str) -> (r: Option<([Rgb; 4], u8)>)
    ensures
        match r {
            Some((z, b)) => spec_parse_zone_string(s@) == Some((z@, b)),
            None => spec_parse_zone_string(s@) is None,
        },
{
    let cs = chars_of(s);
    let t = trimmed(&cs);
    let mut comma: Vec<char> = Vec::new();
    comma.push(',');
    assert(comma@ =~= seq![',']);
    let parts = split_vec(&t, &comma);
    if parts.len() < 5 {
        return None;
    }
    assert(parts@[0]@ == crate::text::views(parts@)[0]);
    assert(parts@[1]@ == crate::text::views(parts@)[1]);
    assert(parts@[2]@ == crate::text::views(parts@)[2]);
    assert(parts@[3]@ == crate::text::views(parts@)[3]);
    assert(parts@[4]@ == crate::text::views(parts@)[4]);
    let z0 = match parse_rgb_vec(&parts[0]) { Some(c) => c, None => return None };
    let z1 = match parse_rgb_vec(&parts[1]) { Some(c) => c, None => return None };
    let z2 = match parse_rgb_vec(&parts[2]) { Some(c) => c, None => return None };
    let z3 = match parse_rgb_vec(&parts[3]) { Some(c) => c, None => return None };
    let bt = trimmed(&parts[4]);
    let b = match parse_u64_chars(&bt) {
        Some(v) => if v <= 255 { v as u8 } else { return None },
        None => return None,
    };
    let z = [z0, z1, z2, z3];
    assert(z@ =~= seq![z0, z1, z2, z3]);
    Some((z, b))
}


/// The colour text `hex` writes has no comma and no white space.
proof fn lemma_hex_text_plain(c: Rgb)
    ensures
        rgb_hex(c).len() == 6,
        forall|i: int| 0 <= i < 6 ==> #[trigger] rgb_hex(c)[i] != ',' && !is_ws(rgb_hex(c)[i]),
{
    lemma_hex_char_value((c.r / 16) as nat);
    lemma_hex_char_value((c.r % 16) as nat);
    lemma_hex_char_value((c.g / 16) as nat);
    lemma_hex_char_value((c.g % 16) as nat);
    lemma_hex_char_value((c.b / 16) as nat);
    lemma_hex_char_value((c.b % 16) as nat);
    assert forall|i: int| 0 <= i < 6 implies #[trigger] rgb_hex(c)[i] != ',' && !is_ws(rgb_hex(c)[i]) by {
        let x = rgb_hex(c);
        assert(x[i] == hex_char((c.r / 16) as nat) || x[i] == hex_char((c.r % 16) as nat) || x[i] == hex_char(
            (c.g / 16) as nat,
        ) || x[i] == hex_char((c.g % 16) as nat) || x[i] == hex_char((c.b / 16) as nat) || x[i] == hex_char(
            (c.b % 16) as nat,
        ));
    }
}

/// `parse_zone_string` inverts the zone text: four colours and any brightness
/// written as "c1,c2,c3,c4,b" parse back to themselves.
pub proof fn lemma_zone_text_round_trip(z: Seq<Rgb>, b: u8)
    requires
        z.len() == 4,
    ensures
        spec_parse_zone_string(zone_text(z, b)) == Some((z, b)),
{
    let d = dec_string(b as nat);
    let (h0, h1, h2, h3) = (rgb_hex(z[0]), rgb_hex(z[1]), rgb_hex(z[2]), rgb_hex(z[3]));
    lemma_hex_text_plain(z[0]);
    lemma_hex_text_plain(z[1]);
    lemma_hex_text_plain(z[2]);
    lemma_hex_text_plain(z[3]);
    lemma_dec_string(b as nat);
    lemma_parse_hex_round_trip(z[0]);
    lemma_parse_hex_round_trip(z[1]);
    lemma_parse_hex_round_trip(z[2]);
    lemma_parse_hex_round_trip(z[3]);
    let v = zone_text(z, b);
    let c = seq![','];
    // the text as pieces
    let r3 = h3 + c + d;
    let r2 = h2 + c + r3;
    let r1 = h1 + c + r2;
    assert(v =~= h0 + c + r1);
    assert forall|i: int| 0 <= i < d.len() implies #[trigger] d[i] != ',' && !is_ws(d[i]) by {
        assert(is_digit(d[i]));
    }
    lemma_split_none(d, ',');
    lemma_split_first(h3, d, ',');
    lemma_split_first(h2, r3, ',');
    lemma_split_first(h1, r2, ',');
    lemma_split_first(h0, r1, ',');
    assert(split(v, c) =~= seq![h0, h1, h2, h3, d]);
    // no white space at either end
    assert(!is_ws(v[0]));
    assert(trim_start(v) == v);
    assert(v.last() == d.last());
    assert(!is_ws(v.last()));
    assert(trim_end(v) == v);
    assert(!is_ws(d[0]));
    assert(trim_start(d) == d);
    assert(!is_ws(d.last()));
    assert(trim_end(d) == d);
    assert(seq![z[0], z[1], z[2], z[3]] =~= z);
}

/// Reading back what `set_zones` writes: parsing the `per_zone_mode` text
/// gives the four colours and the (capped) brightness.
pub proof fn lemma_zone_string_round_trip(z: Seq<Rgb>, brightness: u8)
    requires
        z.len() == 4,
    ensures
        spec_parse_zone_string(zones_value(z, brightness)) == Some((z, min_u8(brightness, 100))),
{
    lemma_zone_text_round_trip(z, min_u8(brightness, 100));
}

// ---------------------------------------------------------------------------
// Persisted keyboard state
// ---------------------------------------------------------------------------

/// A persisted keyboard-RGB configuration the daemon can re-apply on boot or
/// after resume, so a chosen colour survives a reboot instead of reverting to
/// the firmware default.
#[derive(Debug, Clone, PartialEq, Eq)]
pub enum RgbState {
    /// All zones off.
    Off,
    /// Static per-zone colours (hex "RRGGBB") plus overall brightness.
    Zones { colors: [String; 4], brightness: u8 },
    /// An animated effect.
    Effect { mode: u8, speed: u8, brightness: u8, direction: u8, color: String },
}

/// [`RgbState`] with its strings as character sequences.
pub enum RgbStateView {
    Off,
    Zones { colors: Seq<Seq<char>>, brightness: u8 },
    Effect { mode: u8, speed: u8, brightness: u8, direction: u8, color: Seq<char> },
}

impl View for RgbState {
    type V = RgbStateView;

    open spec fn view(&self) -> RgbStateView {
        match *self {
            RgbState::Off => RgbStateView::Off,
            RgbState::Zones { colors, brightness } => RgbStateView::Zones {
                colors: colors@.map_values(|c: String| c@),
                brightness,
            },
            RgbState::Effect { mode, speed, brightness, direction, color } => RgbStateView::Effect {
                mode,
                speed,
                brightness,
                direction,
                color: color@,
            },
        }
    }
}

/// `with_brightness`: the same state with brightness replaced (capped at 100).
pub open spec fn spec_with_brightness(st: RgbStateView, brightness: u8) -> RgbStateView {
    let b = min_u8(brightness, 100);
    match st {
        RgbStateView::Off => RgbStateView::Off,
        RgbStateView::Zones { colors, .. } => RgbStateView::Zones { colors, brightness: b },
        RgbStateView::Effect { mode, speed, direction, color, .. } => RgbStateView::Effect {
            mode,
            speed,
            brightness: b,
            direction,
            color,
        },
    }
}

/// `RgbState::apply`: the writes that put this state on the keyboard.
pub open spec fn spec_apply_state(fs: SysFs, st: RgbStateView) -> PlanView {
    match st {
        RgbStateView::Off => spec_set_zones(fs, off_zones(), 0),
        RgbStateView::Zones { colors, brightness } => match (
            parse_rgb(colors[0]),
            parse_rgb(colors[1]),
            parse_rgb(colors[2]),
            parse_rgb(colors[3]),
        ) {
            (Some(z0), Some(z1), Some(z2), Some(z3)) => spec_set_zones(fs, seq![z0, z1, z2, z3], brightness),
            _ => plan_fail(ErrorKind::InvalidInput, INVALID_COLOR@),
        },
        RgbStateView::Effect { mode, speed, brightness, direction, color } => match parse_rgb(color) {
            Some(c) => spec_set_effect(fs, mode, speed, brightness, direction, c),
            None => plan_fail(ErrorKind::InvalidInput, INVALID_COLOR@),
        },
    }
}

impl RgbState {
    /// The writes that apply this state to the hardware.
    pub fn apply(&self, fs: &SysFs) -> (p: Plan)
        ensures
            p@ == spec_apply_state(*fs, self@),
    {
        match self {
            RgbState::Off => off(fs),
            RgbState::Zones { colors, brightness } => {
                let z0 = Rgb::parse(colors[0].as_str());
                let z1 = Rgb::parse(colors[1].as_str());
                let z2 = Rgb::parse(colors[2].as_str());
                let z3 = Rgb::parse(colors[3].as_str());
                match (z0, z1, z2, z3) {
                    (Some(a), Some(b), Some(c), Some(d)) => {
                        let zones = [a, b, c, d];
                        assert(zones@ =~= seq![a, b, c, d]);
                        set_zones(fs, zones, *brightness)
                    },
                    _ => {
                        let p = Plan::fail(invalid_color());
                        assert(p@.0 =~= seq![]);
                        p
                    },
                }
            },
            RgbState::Effect { mode, speed, brightness, direction, color } => {
                match Rgb::parse(color.as_str()) {
                    Some(c) => set_effect(fs, *mode, *speed, *brightness, *direction, c),
                    None => {
                        let p = Plan::fail(invalid_color());
                        assert(p@.0 =~= seq![]);
                        p
                    },
                }
            },
        }
    }

    /// A copy of this state.
    pub fn duplicate(&self) -> (r: RgbState)
        ensures
            r@ == self@,
    {
        match self {
            RgbState::Off => RgbState::Off,
            RgbState::Zones { colors, brightness } => {
                let c = [colors[0].clone(), colors[1].clone(), colors[2].clone(), colors[3].clone()];
                assert(c@.map_values(|s: String| s@) =~= colors@.map_values(|s: String| s@));
                RgbState::Zones { colors: c, brightness: *brightness }
            },
            RgbState::Effect { mode, speed, brightness, direction, color } => RgbState::Effect {
                mode: *mode,
                speed: *speed,
                brightness: *brightness,
                direction: *direction,
                color: color.clone(),
            },
        }
    }

    /// Do the two states describe the same keyboard configuration?
    pub fn same_as(&self, other: &RgbState) -> (b: bool)
        ensures
            b == (self@ == other@),
    {
        match (self, other) {
            (RgbState::Off, RgbState::Off) => true,
            (RgbState::Zones { colors: c1, brightness: b1 }, RgbState::Zones { colors: c2, brightness: b2 }) => {
                let r = *b1 == *b2 && c1[0] == c2[0] && c1[1] == c2[1] && c1[2] == c2[2] && c1[3] == c2[3];
                let ghost v1 = c1@.map_values(|s: String| s@);
                let ghost v2 = c2@.map_values(|s: String| s@);
                proof {
                    if r {
                        assert(v1 =~= v2);
                    } else if *b1 == *b2 {
                        assert(v1[0] != v2[0] || v1[1] != v2[1] || v1[2] != v2[2] || v1[3] != v2[3]);
                    }
                }
                r
            },
            (
                RgbState::Effect { mode: m1, speed: s1, brightness: b1, direction: d1, color: k1 },
                RgbState::Effect { mode: m2, speed: s2, brightness: b2, direction: d2, color: k2 },
            ) => *m1 == *m2 && *s1 == *s2 && *b1 == *b2 && *d1 == *d2 && *k1 == *k2,
            _ => false,
        }
    }

    /// Return a copy with the brightness replaced (colours/effect preserved).
    pub fn with_brightness(&self, brightness: u8) -> (r: RgbState)
        ensures
            r@ == spec_with_brightness(self@, brightness),
    {
        let b = if brightness < 100 { brightness } else { 100 };
        match self {
            RgbState::Off => RgbState::Off,
            RgbState::Zones { colors, .. } => {
                let c = [colors[0].clone(), colors[1].clone(), colors[2].clone(), colors[3].clone()];
                let r = RgbState::Zones { colors: c, brightness: b };
                assert(c@.map_values(|s: String| s@) =~= colors@.map_values(|s: String| s@));
                r
            },
            RgbState::Effect { mode, speed, direction, color, .. } => RgbState::Effect {
                mode: *mode,
                speed: *speed,
                brightness: b,
                direction: *direction,
                color: color.clone(),
            },
        }
    }
}

/// Setting a brightness twice is the same as setting the second one.
pub proof fn lemma_with_brightness_last_wins(st: RgbStateView, b1: u8, b2: u8)
    ensures
        spec_with_brightness(spec_with_brightness(st, b1), b2) == spec_with_brightness(st, b2),
{
}

/// `with_brightness` never stores a brightness above 100 and keeps the colours.
pub proof fn lemma_with_brightness_capped(st: RgbStateView, b: u8)
    ensures
        match spec_with_brightness(st, b) {
            RgbStateView::Off => st is Off,
            RgbStateView::Zones { colors, brightness } => {
                &&& brightness <= 100
                &&& brightness == min_u8(b, 100)
                &&& st matches RgbStateView::Zones { colors: c0, .. }
                &&& c0 == colors
            },
            RgbStateView::Effect { mode, speed, brightness, direction, color } => {
                &&& brightness <= 100
                &&& brightness == min_u8(b, 100)
                &&& st matches RgbStateView::Effect { mode: m0, speed: s0, direction: d0, color: c0, .. }
                &&& m0 == mode && s0 == speed && d0 == direction && c0 == color
            },
        },
{
}


/// Applying a saved per-zone state with valid colours writes one
/// `per_zone_mode` text from which the zones read back in the saved order:
/// zone i is the colour saved at position i, and the brightness is the saved
/// one capped at 100.
pub proof fn lemma_zones_state_written_in_order(fs: SysFs, colors: Seq<Seq<char>>, brightness: u8)
    requires
        colors.len() == 4,
        forall|i: int| 0 <= i < 4 ==> parse_rgb(#[trigger] colors[i]) is Some,
        spec_kbd_dir(fs) is Some,
        fs.spec_exists(path_join(spec_kbd_dir(fs)->0, "per_zone_mode"@)),
    ensures
        ({
            let p = spec_apply_state(fs, RgbStateView::Zones { colors, brightness });
            &&& p.1 is Ok
            &&& p.0.len() == 1
            &&& p.0[0].0 == path_join(spec_kbd_dir(fs)->0, "per_zone_mode"@)
            &&& spec_parse_zone_string(p.0[0].1) matches Some((z, b)) && b == min_u8(brightness, 100) && z.len()
                == 4 && forall|i: int| 0 <= i < 4 ==> Some(#[trigger] z[i]) == parse_rgb(colors[i])
        }),
{
    assert(parse_rgb(colors[0]) is Some);
    assert(parse_rgb(colors[1]) is Some);
    assert(parse_rgb(colors[2]) is Some);
    assert(parse_rgb(colors[3]) is Some);
    let z = seq![
        parse_rgb(colors[0])->0,
        parse_rgb(colors[1])->0,
        parse_rgb(colors[2])->0,
        parse_rgb(colors[3])->0,
    ];
    lemma_zone_string_round_trip(z, brightness);
    assert(spec_apply_state(fs, RgbStateView::Zones { colors, brightness }) == spec_set_zones(fs, z, brightness));
}

} // verus!
