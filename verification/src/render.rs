//! The human-readable text of the discovery report.
//!
//! The report's figures are integers in kernel units; the two figures shown
//! with decimals (temperatures in °C and power in W) are handed in already
//! formatted, one text per channel, so every other character of the report is
//! decided here.

use vstd::prelude::*;
use crate::hwmon::{ChipView, FanView, PowerView, PwmView, TempView};
use crate::input::InputDeviceView;
use crate::leds::LedDeviceView;
use crate::pci::PciDeviceView;
use crate::power::PowerSupplyView;
use crate::probe::{CapabilitySummary, Report};
use crate::sysfs::opt_view;
use crate::text::{append_str, dec_string, join, lines, lines_vec, push_char, push_dec, string_views, views};
use crate::wmi::WmiDeviceView;

verus! {

// ---------------------------------------------------------------------------
// Text pieces
// ---------------------------------------------------------------------------

/// `pre` with the pieces for items `0..n` appended in order: `f(text, i)` is
/// `text` with the piece of item `i` appended.
pub open spec fn fold_upto(pre: Seq<char>, n: nat, f: spec_fn(Seq<char>, int) -> Seq<char>) -> Seq<char>
    decreases n,
{
    if n == 0 {
        pre
    } else {
        f(fold_upto(pre, (n - 1) as nat, f), n - 1)
    }
}

pub open spec fn yn(b: bool) -> Seq<char> {
    if b {
        "yes"@
    } else {
        "no"@
    }
}

pub open spec fn opt_or(o: Option<Seq<char>>, d: Seq<char>) -> Seq<char> {
    match o {
        Some(s) => s,
        None => d,
    }
}

pub open spec fn num_or(o: Option<u64>, d: Seq<char>) -> Seq<char> {
    match o {
        Some(v) => dec_string(v as nat),
        None => d,
    }
}

pub open spec fn spaces(n: nat) -> Seq<char> {
    Seq::new(n, |i: int| ' ')
}

/// `{:<w}`: left-aligned in a field of `w` characters.
pub open spec fn pad_right(s: Seq<char>, w: nat) -> Seq<char> {
    if s.len() < w {
        s + spaces((w - s.len()) as nat)
    } else {
        s
    }
}

/// `{:>w}`: right-aligned in a field of `w` characters.
pub open spec fn pad_left(s: Seq<char>, w: nat) -> Seq<char> {
    if s.len() < w {
        spaces((w - s.len()) as nat) + s
    } else {
        s
    }
}

fn push_yn(o: &mut String, b: bool)
    ensures
        final(o)@ == old(o)@ + yn(b),
{
    if b {
        append_str(o, "yes");
    } else {
        append_str(o, "no");
    }
}

fn push_opt(o: &mut String, v: &Option<String>, d: &str)
    ensures
        final(o)@ == old(o)@ + opt_or(opt_view(*v), d@),
{
    match v {
        Some(s) => append_str(o, s.as_str()),
        None => append_str(o, d),
    }
}

fn push_num_or(o: &mut String, v: Option<u64>, d: &str)
    ensures
        final(o)@ == old(o)@ + num_or(v, d@),
{
    match v {
        Some(n) => push_dec(o, n),
        None => append_str(o, d),
    }
}

fn push_spaces(o: &mut String, n: usize)
    ensures
        final(o)@ == old(o)@ + spaces(n as nat),
{
    let ghost start = o@;
    let mut k: usize = 0;
    while k < n
        invariant
            k <= n,
            o@ == start + spaces(k as nat),
        decreases n - k,
    {
        push_char(o, ' ');
        k = k + 1;
        assert(o@ =~= start + spaces(k as nat));
    }
}

fn char_count(s: &String) -> (n: usize)
    ensures
        n == s@.len(),
{
    s.as_str().unicode_len()
}

fn push_pad_right(o: &mut String, s: &String, w: usize)
    ensures
        final(o)@ == old(o)@ + pad_right(s@, w as nat),
{
    let n = char_count(s);
    append_str(o, s.as_str());
    if n < w {
        push_spaces(o, w - n);
    }
    assert(final(o)@ =~= old(o)@ + pad_right(s@, w as nat));
}

fn push_pad_left(o: &mut String, s: &String, w: usize)
    ensures
        final(o)@ == old(o)@ + pad_left(s@, w as nat),
{
    let n = char_count(s);
    if n < w {
        push_spaces(o, w - n);
    }
    append_str(o, s.as_str());
    assert(final(o)@ =~= old(o)@ + pad_left(s@, w as nat));
}

fn dec_of(n: u64) -> (s: String)
    ensures
        s@ == dec_string(n as nat),
{
    crate::text::dec_text(n)
}

// ---------------------------------------------------------------------------
// Sections. Each takes the text so far and appends its lines.
// ---------------------------------------------------------------------------

pub open spec fn sec_header(pre: Seq<char>, ts: u64, root: bool) -> Seq<char> {
    pre + "Nitro-Linux hardware discovery\n"@ + "generated: unix "@ + dec_string(ts as nat) + "   root: "@ + yn(root)
        + "\n\n"@
}

fn push_header(o: &mut String, ts: u64, root: bool)
    ensures
        final(o)@ == sec_header(old(o)@, ts, root),
{
    append_str(o, "Nitro-Linux hardware discovery\n");
    append_str(o, "generated: unix ");
    push_dec(o, ts);
    append_str(o, "   root: ");
    push_yn(o, root);
    append_str(o, "\n\n");
}

pub open spec fn sec_caps(pre: Seq<char>, c: CapabilitySummary) -> Seq<char> {
    pre + "== capability summary (read-only verified) ==\n"@
        + "  temperatures readable : "@ + yn(c.temperatures_readable) + "\n"@
        + "  fan rpm readable      : "@ + yn(c.fan_rpm_readable) + "\n"@
        + "  pwm channels present  : "@ + yn(c.pwm_present) + "\n"@
        + "  power readable        : "@ + yn(c.power_readable) + "\n"@
        + "  acer-wmi platform     : "@ + yn(c.acer_wmi_platform_present) + "\n"@
        + "  acer gaming WMI GUID  : "@ + yn(c.acer_gaming_wmi_guid_present) + "\n"@
        + "  EC debugfs readable   : "@ + yn(c.ec_debugfs_readable) + "\n"@
        + "  RGB led (multicolor)  : "@ + yn(c.rgb_led_present) + "\n"@
        + "  kbd backlight led     : "@ + yn(c.kbd_backlight_present) + "\n"@
        + "  battery charge limit  : "@ + yn(c.battery_charge_limit_supported) + "\n"@
        + "  hotkey candidates     : "@ + dec_string(c.hotkey_candidates as nat) + "\n"@
        + "  nvidia dGPU present    : "@ + yn(c.nvidia_dgpu_present) + "\n\n"@
}

fn push_caps(o: &mut String, c: &CapabilitySummary)
    ensures
        final(o)@ == sec_caps(old(o)@, *c),
{
    append_str(o, "== capability summary (read-only verified) ==\n");
    append_str(o, "  temperatures readable : ");
    push_yn(o, c.temperatures_readable);
    append_str(o, "\n");
    append_str(o, "  fan rpm readable      : ");
    push_yn(o, c.fan_rpm_readable);
    append_str(o, "\n");
    append_str(o, "  pwm channels present  : ");
    push_yn(o, c.pwm_present);
    append_str(o, "\n");
    append_str(o, "  power readable        : ");
    push_yn(o, c.power_readable);
    append_str(o, "\n");
    append_str(o, "  acer-wmi platform     : ");
    push_yn(o, c.acer_wmi_platform_present);
    append_str(o, "\n");
    append_str(o, "  acer gaming WMI GUID  : ");
    push_yn(o, c.acer_gaming_wmi_guid_present);
    append_str(o, "\n");
    append_str(o, "  EC debugfs readable   : ");
    push_yn(o, c.ec_debugfs_readable);
    append_str(o, "\n");
    append_str(o, "  RGB led (multicolor)  : ");
    push_yn(o, c.rgb_led_present);
    append_str(o, "\n");
    append_str(o, "  kbd backlight led     : ");
    push_yn(o, c.kbd_backlight_present);
    append_str(o, "\n");
    append_str(o, "  battery charge limit  : ");
    push_yn(o, c.battery_charge_limit_supported);
    append_str(o, "\n");
    append_str(o, "  hotkey candidates     : ");
    push_dec(o, c.hotkey_candidates as u64);
    append_str(o, "\n");
    append_str(o, "  nvidia dGPU present    : ");
    push_yn(o, c.nvidia_dgpu_present);
    append_str(o, "\n\n");
}

pub open spec fn sec_system(pre: Seq<char>, r: Report) -> Seq<char> {
    pre + "== system ==\n"@
        + "  vendor/model : "@ + opt_or(opt_view(r.dmi.sys_vendor), "?"@) + " / "@
        + opt_or(opt_view(r.dmi.product_name), "?"@) + "\n"@
        + "  family/board : "@ + opt_or(opt_view(r.dmi.product_family), "?"@) + " / "@
        + opt_or(opt_view(r.dmi.board_name), "?"@) + "\n"@
        + "  bios         : "@ + opt_or(opt_view(r.dmi.bios_vendor), "?"@) + " "@
        + opt_or(opt_view(r.dmi.bios_version), "?"@) + " ("@ + opt_or(opt_view(r.dmi.bios_date), "?"@) + ")\n"@
        + "  kernel       : "@ + opt_or(opt_view(r.kernel.release), "?"@) + "\n"@
        + "  cpu          : "@ + opt_or(opt_view(r.cpu.model), "?"@) + " ("@
        + dec_string(r.cpu.cores_logical as nat) + " threads)\n\n"@
}

fn push_system(o: &mut String, r: &Report)
    ensures
        final(o)@ == sec_system(old(o)@, *r),
{
    append_str(o, "== system ==\n");
    append_str(o, "  vendor/model : ");
    push_opt(o, &r.dmi.sys_vendor, "?");
    append_str(o, " / ");
    push_opt(o, &r.dmi.product_name, "?");
    append_str(o, "\n");
    append_str(o, "  family/board : ");
    push_opt(o, &r.dmi.product_family, "?");
    append_str(o, " / ");
    push_opt(o, &r.dmi.board_name, "?");
    append_str(o, "\n");
    append_str(o, "  bios         : ");
    push_opt(o, &r.dmi.bios_vendor, "?");
    append_str(o, " ");
    push_opt(o, &r.dmi.bios_version, "?");
    append_str(o, " (");
    push_opt(o, &r.dmi.bios_date, "?");
    append_str(o, ")\n");
    append_str(o, "  kernel       : ");
    push_opt(o, &r.kernel.release, "?");
    append_str(o, "\n");
    append_str(o, "  cpu          : ");
    push_opt(o, &r.cpu.model, "?");
    append_str(o, " (");
    push_dec(o, r.cpu.cores_logical as u64);
    append_str(o, " threads)\n\n");
}

pub open spec fn pci_line(pre: Seq<char>, g: PciDeviceView) -> Seq<char> {
    pre + "  "@ + g.slot + " ["@ + opt_or(g.vendor, "?"@) + ":"@ + opt_or(g.device, "?"@) + "] "@
        + opt_or(g.vendor_name, "?"@) + " driver="@ + opt_or(g.driver, "?"@) + "\n"@
}

pub open spec fn sec_display(pre: Seq<char>, ds: Seq<PciDeviceView>) -> Seq<char> {
    fold_upto(pre + "== display controllers ==\n"@, ds.len(), |t: Seq<char>, i: int| pci_line(t, ds[i]))
        + "\n"@
}

fn push_display(o: &mut String, ds: &Vec<crate::pci::PciDevice>)
    ensures
        final(o)@ == sec_display(old(o)@, crate::pci::pci_views(ds@)),
{
    let ghost dv = crate::pci::pci_views(ds@);
    let ghost f = |t: Seq<char>, i: int| pci_line(t, dv[i]);
    append_str(o, "== display controllers ==\n");
    let ghost mid = o@;
    let mut i: usize = 0;
    while i < ds.len()
        invariant
            i <= ds@.len(),
            dv == crate::pci::pci_views(ds@),
            f == (|t: Seq<char>, i: int| pci_line(t, dv[i])),
            o@ == fold_upto(mid, i as nat, f),
        decreases ds@.len() - i,
    {
        let g = &ds[i];
        assert(dv[i as int] == g@);
        append_str(o, "  ");
        append_str(o, g.slot.as_str());
        append_str(o, " [");
        push_opt(o, &g.vendor, "?");
        append_str(o, ":");
        push_opt(o, &g.device, "?");
        append_str(o, "] ");
        match g.vendor_name {
            Some(n) => append_str(o, n),
            None => append_str(o, "?"),
        }
        append_str(o, " driver=");
        push_opt(o, &g.driver, "?");
        append_str(o, "\n");
        i = i + 1;
    }
    append_str(o, "\n");
}

// ---------------------------------------------------------------------------
// hwmon
// ---------------------------------------------------------------------------

pub open spec fn temp_line(pre: Seq<char>, t: TempView, text: Seq<char>) -> Seq<char> {
    pre + "     temp"@ + pad_right(dec_string(t.0 as nat), 2) + " "@ + pad_left(
        if t.2 is Some {
            text
        } else {
            "?"@
        },
        7,
    ) + "  "@ + opt_or(t.1, ""@) + "\n"@
}

pub open spec fn fan_line(pre: Seq<char>, f: FanView) -> Seq<char> {
    pre + "     fan"@ + pad_right(dec_string(f.0 as nat), 3) + " "@ + pad_left(num_or(f.2, "?"@), 6) + " rpm  "@
        + opt_or(f.1, ""@) + "\n"@
}

pub open spec fn pwm_line(pre: Seq<char>, p: PwmView) -> Seq<char> {
    pre + "     pwm"@ + pad_right(dec_string(p.0 as nat), 3) + " raw="@ + num_or(p.1, "?"@) + " enable="@
        + num_or(p.2, "?"@) + "\n"@
}

pub open spec fn power_line(pre: Seq<char>, p: PowerView, watts: Seq<char>) -> Seq<char> {
    pre + "     power"@ + dec_string(p.0 as nat) + " "@ + watts + "W  "@ + opt_or(p.1, ""@) + "\n"@
}

/// One chip: its name and path, then its temperature, fan, PWM and power
/// lines. `temps[j]` is the text of temperature `j` (shown when it has a
/// reading), `watts[j]` the text of power channel `j`.
pub open spec fn chip_text(pre: Seq<char>, c: ChipView, temps: Seq<Seq<char>>, watts: Seq<Seq<char>>) -> Seq<char> {
    let head = pre + "  ["@ + opt_or(c.name, "?"@) + "] "@ + c.path + "\n"@;
    let t = fold_upto(head, c.temps.len(), |x: Seq<char>, j: int| temp_line(x, c.temps[j], temps[j]));
    let f = fold_upto(t, c.fans.len(), |x: Seq<char>, j: int| fan_line(x, c.fans[j]));
    let p = fold_upto(f, c.pwms.len(), |x: Seq<char>, j: int| pwm_line(x, c.pwms[j]));
    fold_upto(p, c.powers.len(), |x: Seq<char>, j: int| power_line(x, c.powers[j], watts[j]))
}

pub open spec fn sec_hwmon(
    pre: Seq<char>,
    cs: Seq<ChipView>,
    temps: Seq<Seq<Seq<char>>>,
    watts: Seq<Seq<Seq<char>>>,
) -> Seq<char> {
    fold_upto(pre + "== hwmon ==\n"@, cs.len(), |x: Seq<char>, i: int| chip_text(x, cs[i], temps[i], watts[i]))
        + "\n"@
}

fn push_chip(o: &mut String, c: &crate::hwmon::HwmonChip, temps: &Vec<String>, watts: &Vec<String>)
    requires
        temps@.len() == c.temps@.len(),
        watts@.len() == c.powers@.len(),
    ensures
        final(o)@ == chip_text(old(o)@, c@, string_views(temps@), string_views(watts@)),
{
    let ghost cv = c@;
    let ghost tv = string_views(temps@);
    let ghost wv = string_views(watts@);
    append_str(o, "  [");
    push_opt(o, &c.name, "?");
    append_str(o, "] ");
    append_str(o, c.path.as_str());
    append_str(o, "\n");
    let ghost s1 = o@;
    let ghost ft = |x: Seq<char>, j: int| temp_line(x, cv.temps[j], tv[j]);
    let mut j: usize = 0;
    while j < c.temps.len()
        invariant
            j <= c.temps@.len(),
            temps@.len() == c.temps@.len(),
            cv == c@,
            tv == string_views(temps@),
            ft == (|x: Seq<char>, j: int| temp_line(x, cv.temps[j], tv[j])),
            o@ == fold_upto(s1, j as nat, ft),
        decreases c.temps@.len() - j,
    {
        let t = &c.temps[j];
        assert(cv.temps[j as int] == crate::hwmon::temp_view(*t));
        assert(tv[j as int] == temps@[j as int]@);
        append_str(o, "     temp");
        push_pad_right(o, &dec_of(t.index as u64), 2);
        append_str(o, " ");
        if t.millidegrees.is_some() {
            push_pad_left(o, &temps[j], 7);
        } else {
            push_pad_left(o, &String::from_str("?"), 7);
        }
        append_str(o, "  ");
        push_opt(o, &t.label, "");
        append_str(o, "\n");
        j = j + 1;
    }
    let ghost s2 = o@;
    let ghost ff = |x: Seq<char>, j: int| fan_line(x, cv.fans[j]);
    let mut j: usize = 0;
    while j < c.fans.len()
        invariant
            j <= c.fans@.len(),
            cv == c@,
            ff == (|x: Seq<char>, j: int| fan_line(x, cv.fans[j])),
            o@ == fold_upto(s2, j as nat, ff),
        decreases c.fans@.len() - j,
    {
        let f = &c.fans[j];
        assert(cv.fans[j as int] == crate::hwmon::fan_view(*f));
        append_str(o, "     fan");
        push_pad_right(o, &dec_of(f.index as u64), 3);
        append_str(o, " ");
        let val = match f.rpm {
            Some(v) => dec_of(v),
            None => String::from_str("?"),
        };
        push_pad_left(o, &val, 6);
        append_str(o, " rpm  ");
        push_opt(o, &f.label, "");
        append_str(o, "\n");
        j = j + 1;
    }
    let ghost s3 = o@;
    let ghost fp = |x: Seq<char>, j: int| pwm_line(x, cv.pwms[j]);
    let mut j: usize = 0;
    while j < c.pwms.len()
        invariant
            j <= c.pwms@.len(),
            cv == c@,
            fp == (|x: Seq<char>, j: int| pwm_line(x, cv.pwms[j])),
            o@ == fold_upto(s3, j as nat, fp),
        decreases c.pwms@.len() - j,
    {
        let p = &c.pwms[j];
        assert(cv.pwms[j as int] == crate::hwmon::pwm_view(*p));
        append_str(o, "     pwm");
        push_pad_right(o, &dec_of(p.index as u64), 3);
        append_str(o, " raw=");
        push_num_or(o, p.raw, "?");
        append_str(o, " enable=");
        push_num_or(o, p.enable, "?");
        append_str(o, "\n");
        j = j + 1;
    }
    let ghost s4 = o@;
    let ghost fw = |x: Seq<char>, j: int| power_line(x, cv.powers[j], wv[j]);
    let mut j: usize = 0;
    while j < c.powers.len()
        invariant
            j <= c.powers@.len(),
            watts@.len() == c.powers@.len(),
            cv == c@,
            wv == string_views(watts@),
            fw == (|x: Seq<char>, j: int| power_line(x, cv.powers[j], wv[j])),
            o@ == fold_upto(s4, j as nat, fw),
        decreases c.powers@.len() - j,
    {
        let p = &c.powers[j];
        assert(cv.powers[j as int] == crate::hwmon::power_view(*p));
        assert(wv[j as int] == watts@[j as int]@);
        append_str(o, "     power");
        push_dec(o, p.index as u64);
        append_str(o, " ");
        append_str(o, watts[j].as_str());
        append_str(o, "W  ");
        push_opt(o, &p.label, "");
        append_str(o, "\n");
        j = j + 1;
    }
}

/// The figures handed in fit the chips: one text per temperature and per
/// power channel.
pub open spec fn figures_fit(
    chips: Seq<crate::hwmon::HwmonChip>,
    temps: Seq<Vec<String>>,
    watts: Seq<Vec<String>>,
) -> bool {
    &&& temps.len() == chips.len()
    &&& watts.len() == chips.len()
    &&& forall|i: int| 0 <= i < chips.len() ==> (#[trigger] temps[i])@.len() == chips[i].temps@.len()
    &&& forall|i: int| 0 <= i < chips.len() ==> (#[trigger] watts[i])@.len() == chips[i].powers@.len()
}

pub open spec fn nested_views(v: Seq<Vec<String>>) -> Seq<Seq<Seq<char>>> {
    v.map_values(|x: Vec<String>| string_views(x@))
}

fn push_hwmon(
    o: &mut String,
    chips: &Vec<crate::hwmon::HwmonChip>,
    temps: &Vec<Vec<String>>,
    watts: &Vec<Vec<String>>,
)
    requires
        figures_fit(chips@, temps@, watts@),
    ensures
        final(o)@ == sec_hwmon(
            old(o)@,
            crate::hwmon::chip_views(chips@),
            nested_views(temps@),
            nested_views(watts@),
        ),
{
    let ghost cv = crate::hwmon::chip_views(chips@);
    let ghost tv = nested_views(temps@);
    let ghost wv = nested_views(watts@);
    let ghost f = |x: Seq<char>, i: int| chip_text(x, cv[i], tv[i], wv[i]);
    append_str(o, "== hwmon ==\n");
    let ghost mid = o@;
    let mut i: usize = 0;
    while i < chips.len()
        invariant
            i <= chips@.len(),
            figures_fit(chips@, temps@, watts@),
            cv == crate::hwmon::chip_views(chips@),
            tv == nested_views(temps@),
            wv == nested_views(watts@),
            f == (|x: Seq<char>, i: int| chip_text(x, cv[i], tv[i], wv[i])),
            o@ == fold_upto(mid, i as nat, f),
        decreases chips@.len() - i,
    {
        assert(cv[i as int] == chips@[i as int]@);
        assert(tv[i as int] == string_views(temps@[i as int]@));
        assert(wv[i as int] == string_views(watts@[i as int]@));
        assert(temps@[i as int]@.len() == chips@[i as int].temps@.len());
        assert(watts@[i as int]@.len() == chips@[i as int].powers@.len());
        push_chip(o, &chips[i], &temps[i], &watts[i]);
        i = i + 1;
    }
    append_str(o, "\n");
}

// ---------------------------------------------------------------------------
// WMI, LEDs, power supplies, inputs
// ---------------------------------------------------------------------------

pub open spec fn wmi_line(pre: Seq<char>, w: WmiDeviceView) -> Seq<char> {
    pre + "  "@ + w.device + " guid="@ + opt_or(w.guid, "?"@) + " driver="@ + opt_or(w.driver, "?"@) + (match w.known {
        Some(k) => "  <= "@ + k,
        None => ""@,
    }) + "\n"@
}

pub open spec fn attr_line(pre: Seq<char>, a: (Seq<char>, Seq<char>)) -> Seq<char> {
    pre + "     "@ + a.0 + " = "@ + a.1 + "\n"@
}

pub open spec fn sec_wmi(
    pre: Seq<char>,
    ws: Seq<WmiDeviceView>,
    platform: Option<(Seq<char>, Seq<(Seq<char>, Seq<char>)>)>,
) -> Seq<char> {
    let devices = fold_upto(pre + "== wmi devices ==\n"@, ws.len(), |x: Seq<char>, i: int| wmi_line(x, ws[i]));
    let with_platform = match platform {
        Some((path, attrs)) => fold_upto(
            devices + "  acer-wmi platform: "@ + path + "\n"@,
            attrs.len(),
            |x: Seq<char>, i: int| attr_line(x, attrs[i]),
        ),
        None => devices,
    };
    with_platform + "\n"@
}

fn push_wmi(o: &mut String, ws: &Vec<crate::wmi::WmiDevice>, platform: &Option<crate::wmi::AcerPlatform>)
    ensures
        final(o)@ == sec_wmi(
            old(o)@,
            crate::wmi::wmi_views(ws@),
            match *platform {
                Some(a) => Some((a.path@, crate::wmi::attr_views(a.attributes@))),
                None => None,
            },
        ),
{
    let ghost wv = crate::wmi::wmi_views(ws@);
    let ghost f = |x: Seq<char>, i: int| wmi_line(x, wv[i]);
    append_str(o, "== wmi devices ==\n");
    let ghost mid = o@;
    let mut i: usize = 0;
    while i < ws.len()
        invariant
            i <= ws@.len(),
            wv == crate::wmi::wmi_views(ws@),
            f == (|x: Seq<char>, i: int| wmi_line(x, wv[i])),
            o@ == fold_upto(mid, i as nat, f),
        decreases ws@.len() - i,
    {
        let w = &ws[i];
        assert(wv[i as int] == w@);
        let ghost before = o@;
        append_str(o, "  ");
        append_str(o, w.device.as_str());
        append_str(o, " guid=");
        push_opt(o, &w.guid, "?");
        append_str(o, " driver=");
        push_opt(o, &w.driver, "?");
        let ghost b2 = o@;
        match w.known {
            Some(k) => {
                append_str(o, "  <= ");
                append_str(o, k);
                assert(o@ =~= b2 + ("  <= "@ + k@));
            },
            None => append_str(o, ""),
        }
        append_str(o, "\n");
        i = i + 1;
    }
    match platform {
        Some(a) => {
            let ghost av = crate::wmi::attr_views(a.attributes@);
            let ghost g = |x: Seq<char>, i: int| attr_line(x, av[i]);
            append_str(o, "  acer-wmi platform: ");
            append_str(o, a.path.as_str());
            append_str(o, "\n");
            let ghost m2 = o@;
            let mut k: usize = 0;
            while k < a.attributes.len()
                invariant
                    k <= a.attributes@.len(),
                    av == crate::wmi::attr_views(a.attributes@),
                    g == (|x: Seq<char>, i: int| attr_line(x, av[i])),
                    o@ == fold_upto(m2, k as nat, g),
                decreases a.attributes@.len() - k,
            {
                assert(av[k as int] == (a.attributes@[k as int].0@, a.attributes@[k as int].1@));
                append_str(o, "     ");
                append_str(o, a.attributes[k].0.as_str());
                append_str(o, " = ");
                append_str(o, a.attributes[k].1.as_str());
                append_str(o, "\n");
                k = k + 1;
            }
        },
        None => {},
    }
    append_str(o, "\n");
}

pub open spec fn led_line(pre: Seq<char>, l: LedDeviceView) -> Seq<char> {
    pre + "  "@ + l.name + (if l.is_keyboard_candidate {
        " *kbd"@
    } else {
        ""@
    }) + " bright="@ + num_or(l.brightness, "?"@) + "/"@ + num_or(l.max_brightness, "?"@) + " multi_index="@
        + opt_or(l.multi_index, "-"@) + " multi_intensity="@ + opt_or(l.multi_intensity, "-"@) + "\n"@
}

pub open spec fn sec_leds(pre: Seq<char>, ls: Seq<LedDeviceView>) -> Seq<char> {
    fold_upto(pre + "== leds ==\n"@, ls.len(), |x: Seq<char>, i: int| led_line(x, ls[i])) + "\n"@
}

fn push_leds(o: &mut String, ls: &Vec<crate::leds::LedDevice>)
    ensures
        final(o)@ == sec_leds(old(o)@, crate::leds::led_views(ls@)),
{
    let ghost lv = crate::leds::led_views(ls@);
    let ghost f = |x: Seq<char>, i: int| led_line(x, lv[i]);
    append_str(o, "== leds ==\n");
    let ghost mid = o@;
    let mut i: usize = 0;
    while i < ls.len()
        invariant
            i <= ls@.len(),
            lv == crate::leds::led_views(ls@),
            f == (|x: Seq<char>, i: int| led_line(x, lv[i])),
            o@ == fold_upto(mid, i as nat, f),
        decreases ls@.len() - i,
    {
        let l = &ls[i];
        assert(lv[i as int] == l@);
        append_str(o, "  ");
        append_str(o, l.name.as_str());
        if l.is_keyboard_candidate {
            append_str(o, " *kbd");
        } else {
            append_str(o, "");
        }
        append_str(o, " bright=");
        push_num_or(o, l.brightness, "?");
        append_str(o, "/");
        push_num_or(o, l.max_brightness, "?");
        append_str(o, " multi_index=");
        push_opt(o, &l.multi_index, "-");
        append_str(o, " multi_intensity=");
        push_opt(o, &l.multi_intensity, "-");
        append_str(o, "\n");
        i = i + 1;
    }
    append_str(o, "\n");
}

pub open spec fn supply_line(pre: Seq<char>, p: PowerSupplyView) -> Seq<char> {
    pre + "  "@ + p.name + " type="@ + opt_or(p.kind, "?"@) + " online="@ + (match p.online {
        Some(b) => yn(b),
        None => "-"@,
    }) + " status="@ + opt_or(p.status, "?"@) + " cap="@ + num_or(p.capacity, "-"@) + " charge_end="@ + num_or(
        p.charge_control_end_threshold,
        "-"@,
    ) + " limit_supported="@ + yn(p.charge_limit_supported) + "\n"@
}

pub open spec fn sec_power(pre: Seq<char>, ps: Seq<PowerSupplyView>) -> Seq<char> {
    fold_upto(pre + "== power supplies ==\n"@, ps.len(), |x: Seq<char>, i: int| supply_line(x, ps[i])) + "\n"@
}

fn push_power(o: &mut String, ps: &Vec<crate::power::PowerSupply>)
    ensures
        final(o)@ == sec_power(old(o)@, crate::power::supply_views(ps@)),
{
    let ghost pv = crate::power::supply_views(ps@);
    let ghost f = |x: Seq<char>, i: int| supply_line(x, pv[i]);
    append_str(o, "== power supplies ==\n");
    let ghost mid = o@;
    let mut i: usize = 0;
    while i < ps.len()
        invariant
            i <= ps@.len(),
            pv == crate::power::supply_views(ps@),
            f == (|x: Seq<char>, i: int| supply_line(x, pv[i])),
            o@ == fold_upto(mid, i as nat, f),
        decreases ps@.len() - i,
    {
        let p = &ps[i];
        assert(pv[i as int] == p@);
        append_str(o, "  ");
        append_str(o, p.name.as_str());
        append_str(o, " type=");
        push_opt(o, &p.kind, "?");
        append_str(o, " online=");
        match p.online {
            Some(b) => push_yn(o, b),
            None => append_str(o, "-"),
        }
        append_str(o, " status=");
        push_opt(o, &p.status, "?");
        append_str(o, " cap=");
        push_num_or(o, p.capacity, "-");
        append_str(o, " charge_end=");
        push_num_or(o, p.charge_control_end_threshold, "-");
        append_str(o, " limit_supported=");
        push_yn(o, p.charge_limit_supported);
        append_str(o, "\n");
        i = i + 1;
    }
    append_str(o, "\n");
}

pub open spec fn input_line(pre: Seq<char>, d: InputDeviceView) -> Seq<char> {
    pre + " "@ + (if d.hotkey_candidate {
        " *"@
    } else {
        "  "@
    }) + opt_or(d.name, "?"@) + " ["@ + join(d.handlers, ","@) + "] keys="@ + yn(d.ev_keys) + "\n"@
}

pub open spec fn sec_inputs(pre: Seq<char>, ds: Seq<InputDeviceView>) -> Seq<char> {
    fold_upto(
        pre + "== input devices (hotkey candidates marked *) ==\n"@,
        ds.len(),
        |x: Seq<char>, i: int| input_line(x, ds[i]),
    ) + "\n"@
}

fn push_inputs(o: &mut String, ds: &Vec<crate::input::InputDevice>)
    ensures
        final(o)@ == sec_inputs(old(o)@, crate::input::device_views(ds@)),
{
    let ghost dv = crate::input::device_views(ds@);
    let ghost f = |x: Seq<char>, i: int| input_line(x, dv[i]);
    append_str(o, "== input devices (hotkey candidates marked *) ==\n");
    let ghost mid = o@;
    let mut i: usize = 0;
    while i < ds.len()
        invariant
            i <= ds@.len(),
            dv == crate::input::device_views(ds@),
            f == (|x: Seq<char>, i: int| input_line(x, dv[i])),
            o@ == fold_upto(mid, i as nat, f),
        decreases ds@.len() - i,
    {
        let d = &ds[i];
        assert(dv[i as int] == d@);
        append_str(o, " ");
        if d.hotkey_candidate {
            append_str(o, " *");
        } else {
            append_str(o, "  ");
        }
        push_opt(o, &d.name, "?");
        append_str(o, " [");
        let hs = crate::text::join_strings(d.handlers.as_slice(), ",");
        append_str(o, hs.as_str());
        append_str(o, "] keys=");
        push_yn(o, d.ev_keys);
        append_str(o, "\n");
        i = i + 1;
    }
    append_str(o, "\n");
}

// ---------------------------------------------------------------------------
// ACPI, EC, notes, next steps
// ---------------------------------------------------------------------------

pub open spec fn sec_acpi(pre: Seq<char>, tables: Seq<Seq<char>>) -> Seq<char> {
    pre + "== acpi tables ==\n"@ + "  "@ + (if tables.len() == 0 {
        "(none / need root)"@
    } else {
        join(tables, " "@)
    }) + "\n\n"@
}

fn push_acpi(o: &mut String, tables: &Vec<String>)
    ensures
        final(o)@ == sec_acpi(old(o)@, string_views(tables@)),
{
    append_str(o, "== acpi tables ==\n");
    append_str(o, "  ");
    let ghost before = o@;
    if tables.len() == 0 {
        append_str(o, "(none / need root)");
    } else {
        let t = crate::text::join_strings(tables.as_slice(), " ");
        append_str(o, t.as_str());
    }
    append_str(o, "\n\n");
}

pub open spec fn hex_line(pre: Seq<char>, l: Seq<char>) -> Seq<char> {
    pre + "    "@ + l + "\n"@
}

pub open spec fn sec_ec(pre: Seq<char>, ec: crate::ec::EcInfoView) -> Seq<char> {
    let head = pre + "== embedded controller ==\n"@ + "  debugfs_present="@ + yn(ec.debugfs_present) + " readable="@
        + yn(ec.readable) + " write_support="@ + (match ec.write_support {
        Some(b) => yn(b),
        None => "?"@,
    }) + "  "@ + opt_or(ec.note, ""@) + "\n"@;
    let dump = match ec.dump_hex {
        Some(hex) => fold_upto(
            head + "  EC 256-byte map:\n"@,
            lines(hex).len(),
            |x: Seq<char>, i: int| hex_line(x, lines(hex)[i]),
        ),
        None => head,
    };
    dump + "\n"@
}

fn push_ec(o: &mut String, ec: &crate::ec::EcInfo)
    ensures
        final(o)@ == sec_ec(old(o)@, ec@),
{
    append_str(o, "== embedded controller ==\n");
    append_str(o, "  debugfs_present=");
    push_yn(o, ec.debugfs_present);
    append_str(o, " readable=");
    push_yn(o, ec.readable);
    append_str(o, " write_support=");
    match ec.write_support {
        Some(b) => push_yn(o, b),
        None => append_str(o, "?"),
    }
    append_str(o, "  ");
    push_opt(o, &ec.note, "");
    append_str(o, "\n");
    match &ec.dump_hex {
        Some(hex) => {
            append_str(o, "  EC 256-byte map:\n");
            let ls = lines_vec(&crate::text::chars_of(hex.as_str()));
            let ghost lv = views(ls@);
            let ghost f = |x: Seq<char>, i: int| hex_line(x, lines(hex@)[i]);
            let ghost mid = o@;
            let mut i: usize = 0;
            while i < ls.len()
                invariant
                    i <= ls@.len(),
                    lv == views(ls@),
                    lv == lines(hex@),
                    f == (|x: Seq<char>, i: int| hex_line(x, lines(hex@)[i])),
                    o@ == fold_upto(mid, i as nat, f),
                decreases ls@.len() - i,
            {
                assert(lv[i as int] == ls@[i as int]@);
                append_str(o, "    ");
                let line = crate::text::string_of(ls[i].as_slice());
                append_str(o, line.as_str());
                append_str(o, "\n");
                i = i + 1;
            }
        },
        None => {},
    }
    append_str(o, "\n");
}

pub open spec fn note_line(pre: Seq<char>, n: Seq<char>) -> Seq<char> {
    pre + "  - "@ + n + "\n"@
}

pub open spec fn sec_notes(pre: Seq<char>, notes: Seq<Seq<char>>) -> Seq<char> {
    if notes.len() == 0 {
        pre
    } else {
        fold_upto(pre + "== notes ==\n"@, notes.len(), |x: Seq<char>, i: int| note_line(x, notes[i])) + "\n"@
    }
}

fn push_notes(o: &mut String, notes: &Vec<String>)
    ensures
        final(o)@ == sec_notes(old(o)@, string_views(notes@)),
{
    if notes.len() == 0 {
        return;
    }
    let ghost nv = string_views(notes@);
    let ghost f = |x: Seq<char>, i: int| note_line(x, nv[i]);
    append_str(o, "== notes ==\n");
    let ghost mid = o@;
    let mut i: usize = 0;
    while i < notes.len()
        invariant
            i <= notes@.len(),
            nv == string_views(notes@),
            f == (|x: Seq<char>, i: int| note_line(x, nv[i])),
            o@ == fold_upto(mid, i as nat, f),
        decreases notes@.len() - i,
    {
        assert(nv[i as int] == notes@[i as int]@);
        append_str(o, "  - ");
        append_str(o, notes[i].as_str());
        append_str(o, "\n");
        i = i + 1;
    }
    append_str(o, "\n");
}

pub open spec fn sec_next(pre: Seq<char>) -> Seq<char> {
    pre + "== next steps ==\n"@ + "  1. If EC/ACPI show 'need root', re-run: sudo nitro-discover\n"@
        + "  2. Capture the NitroSense key (interactive, live keypress):\n"@
        + "       sudo acpi_listen      # press the key 3-4x\n"@
        + "       sudo evtest           # choose a *-marked device, press the key\n"@
        + "  3. Paste this report plus the key-capture output for analysis.\n"@
}

fn push_next(o: &mut String)
    ensures
        final(o)@ == sec_next(old(o)@),
{
    append_str(o, "== next steps ==\n");
    append_str(o, "  1. If EC/ACPI show 'need root', re-run: sudo nitro-discover\n");
    append_str(o, "  2. Capture the NitroSense key (interactive, live keypress):\n");
    append_str(o, "       sudo acpi_listen      # press the key 3-4x\n");
    append_str(o, "       sudo evtest           # choose a *-marked device, press the key\n");
    append_str(o, "  3. Paste this report plus the key-capture output for analysis.\n");
}

// ---------------------------------------------------------------------------
// The whole report
// ---------------------------------------------------------------------------

/// `render_text`: every section of the report in order. `temps` and `watts`
/// hold, per chip, the displayed text of each temperature ("63.0C") and of
/// each power channel's watts ("12.34").
pub open spec fn spec_render_text(r: Report, temps: Seq<Seq<Seq<char>>>, watts: Seq<Seq<Seq<char>>>) -> Seq<char> {
    let s = sec_header(seq![], r.timestamp_unix, r.running_as_root);
    let s = sec_caps(s, r.capabilities);
    let s = sec_system(s, r);
    let s = sec_display(s, crate::pci::pci_views(r.pci_display@));
    let s = sec_hwmon(s, crate::hwmon::chip_views(r.hwmon@), temps, watts);
    let s = sec_wmi(
        s,
        crate::wmi::wmi_views(r.wmi@),
        match r.acer_platform {
            Some(a) => Some((a.path@, crate::wmi::attr_views(a.attributes@))),
            None => None,
        },
    );
    let s = sec_leds(s, crate::leds::led_views(r.leds@));
    let s = sec_power(s, crate::power::supply_views(r.power@));
    let s = sec_inputs(s, crate::input::device_views(r.inputs@));
    let s = sec_acpi(s, string_views(r.acpi_tables@));
    let s = sec_ec(s, r.ec@);
    let s = sec_notes(s, string_views(r.notes@));
    sec_next(s)
}

/// The human-readable discovery report.
pub fn render_text(r: &Report, temps: &Vec<Vec<String>>, watts: &Vec<Vec<String>>) -> (o: String)
    requires
        figures_fit(r.hwmon@, temps@, watts@),
    ensures
        o@ == spec_render_text(*r, nested_views(temps@), nested_views(watts@)),
{
    let mut o = String::new();
    push_header(&mut o, r.timestamp_unix, r.running_as_root);
    push_caps(&mut o, &r.capabilities);
    push_system(&mut o, r);
    push_display(&mut o, &r.pci_display);
    push_hwmon(&mut o, &r.hwmon, temps, watts);
    push_wmi(&mut o, &r.wmi, &r.acer_platform);
    push_leds(&mut o, &r.leds);
    push_power(&mut o, &r.power);
    push_inputs(&mut o, &r.inputs);
    push_acpi(&mut o, &r.acpi_tables);
    push_ec(&mut o, &r.ec);
    push_notes(&mut o, &r.notes);
    push_next(&mut o);
    o
}

// ---------------------------------------------------------------------------
// Live telemetry
// ---------------------------------------------------------------------------

/// CPU figures, each already formatted as a number ("63.0", "12"), none when
/// not measured.
#[derive(Debug)]
pub struct CpuFigures {
    pub temp_c: Option<String>,
    pub utilization_pct: Option<String>,
    pub avg_freq_mhz: Option<String>,
    pub max_freq_mhz: Option<String>,
    pub power_w: Option<String>,
}

/// GPU figures, formatted like [`CpuFigures`].
#[derive(Debug)]
pub struct GpuFigures {
    pub name: String,
    pub temp_c: Option<String>,
    pub utilization_pct: Option<String>,
    pub clock_mhz: Option<String>,
    pub power_w: Option<String>,
}

/// Battery figures; only the power is formatted by the caller.
#[derive(Debug)]
pub struct BatteryFigures {
    pub capacity_pct: Option<u64>,
    pub status: Option<String>,
    pub power_w: Option<String>,
    pub ac_online: Option<bool>,
}

/// One telemetry snapshot, ready to print.
#[derive(Debug)]
pub struct TelemetryFigures {
    pub cpu: CpuFigures,
    pub gpu: Option<GpuFigures>,
    pub battery: Option<BatteryFigures>,
    pub fans: Vec<crate::telemetry::FanReading>,
}

/// A figure with its unit, or "-" when missing.
pub open spec fn fig(v: Option<String>, unit: Seq<char>) -> Seq<char> {
    match v {
        Some(x) => x@ + unit,
        None => "-"@,
    }
}

fn push_fig(o: &mut String, v: &Option<String>, unit: &str)
    ensures
        final(o)@ == old(o)@ + fig(*v, unit@),
{
    let ghost start = o@;
    match v {
        Some(x) => {
            append_str(o, x.as_str());
            append_str(o, unit);
            assert(o@ =~= start + (x@ + unit@));
        },
        None => append_str(o, "-"),
    }
}

pub open spec fn fan_reading_line(pre: Seq<char>, f: crate::telemetry::FanReading) -> Seq<char> {
    pre + "fan   "@ + f.name@ + " "@ + dec_string(f.rpm as nat) + " rpm\n"@
}

/// `render_telemetry`: the cpu, gpu, battery and fan lines and a separator.
pub open spec fn spec_render_telemetry(t: TelemetryFigures) -> Seq<char> {
    let c = t.cpu;
    let s = seq![] + "cpu   temp "@ + fig(c.temp_c, "C"@) + "  util "@ + fig(c.utilization_pct, "%"@) + "  freq "@
        + fig(c.avg_freq_mhz, ""@) + "/"@ + fig(c.max_freq_mhz, ""@) + " MHz  power "@ + fig(c.power_w, "W"@)
        + "\n"@;
    let s = match t.gpu {
        Some(g) => s + "gpu   "@ + g.name@ + " temp "@ + fig(g.temp_c, "C"@) + " util "@ + fig(g.utilization_pct, "%"@)
            + " clock "@ + fig(g.clock_mhz, "MHz"@) + " power "@ + fig(g.power_w, "W"@) + "\n"@,
        None => s + "gpu   n/a\n"@,
    };
    let s = match t.battery {
        Some(b) => s + "batt  "@ + num_or(b.capacity_pct, "-"@) + "%  "@ + opt_or(opt_view(b.status), "-"@) + "  "@
            + fig(b.power_w, "W"@) + "  ac="@ + (match b.ac_online {
            Some(true) => "yes"@,
            Some(false) => "no"@,
            None => "-"@,
        }) + "\n"@,
        None => s + "batt  n/a\n"@,
    };
    let s = if t.fans@.len() == 0 {
        s + "fans  (RPM interface not yet verified on this hardware)\n"@
    } else {
        fold_upto(s, t.fans@.len(), |x: Seq<char>, i: int| fan_reading_line(x, t.fans@[i]))
    };
    s + "----\n"@
}

/// The text of one telemetry snapshot.
pub fn render_telemetry(t: &TelemetryFigures) -> (o: String)
    ensures
        o@ == spec_render_telemetry(*t),
{
    let mut o = String::new();
    let c = &t.cpu;
    append_str(&mut o, "cpu   temp ");
    push_fig(&mut o, &c.temp_c, "C");
    append_str(&mut o, "  util ");
    push_fig(&mut o, &c.utilization_pct, "%");
    append_str(&mut o, "  freq ");
    push_fig(&mut o, &c.avg_freq_mhz, "");
    append_str(&mut o, "/");
    push_fig(&mut o, &c.max_freq_mhz, "");
    append_str(&mut o, " MHz  power ");
    push_fig(&mut o, &c.power_w, "W");
    append_str(&mut o, "\n");
    match &t.gpu {
        Some(g) => {
            append_str(&mut o, "gpu   ");
            append_str(&mut o, g.name.as_str());
            append_str(&mut o, " temp ");
            push_fig(&mut o, &g.temp_c, "C");
            append_str(&mut o, " util ");
            push_fig(&mut o, &g.utilization_pct, "%");
            append_str(&mut o, " clock ");
            push_fig(&mut o, &g.clock_mhz, "MHz");
            append_str(&mut o, " power ");
            push_fig(&mut o, &g.power_w, "W");
            append_str(&mut o, "\n");
        },
        None => append_str(&mut o, "gpu   n/a\n"),
    }
    match &t.battery {
        Some(b) => {
            append_str(&mut o, "batt  ");
            push_num_or(&mut o, b.capacity_pct, "-");
            append_str(&mut o, "%  ");
            push_opt(&mut o, &b.status, "-");
            append_str(&mut o, "  ");
            push_fig(&mut o, &b.power_w, "W");
            append_str(&mut o, "  ac=");
            match b.ac_online {
                Some(true) => append_str(&mut o, "yes"),
                Some(false) => append_str(&mut o, "no"),
                None => append_str(&mut o, "-"),
            }
            append_str(&mut o, "\n");
        },
        None => append_str(&mut o, "batt  n/a\n"),
    }
    if t.fans.len() == 0 {
        append_str(&mut o, "fans  (RPM interface not yet verified on this hardware)\n");
    } else {
        let ghost f = |x: Seq<char>, i: int| fan_reading_line(x, t.fans@[i]);
        let ghost mid = o@;
        let mut i: usize = 0;
        while i < t.fans.len()
            invariant
                i <= t.fans@.len(),
                f == (|x: Seq<char>, i: int| fan_reading_line(x, t.fans@[i])),
                o@ == fold_upto(mid, i as nat, f),
            decreases t.fans@.len() - i,
        {
            append_str(&mut o, "fan   ");
            append_str(&mut o, t.fans[i].name.as_str());
            append_str(&mut o, " ");
            push_dec(&mut o, t.fans[i].rpm);
            append_str(&mut o, " rpm\n");
            i = i + 1;
        }
    }
    append_str(&mut o, "----\n");
    o
}


/// The snapshot `t` with the battery's mains reading replaced by `v`.
pub open spec fn with_ac(t: TelemetryFigures, v: Option<bool>) -> TelemetryFigures {
    TelemetryFigures {
        cpu: t.cpu,
        gpu: t.gpu,
        battery: Some(
            BatteryFigures {
                capacity_pct: t.battery->0.capacity_pct,
                status: t.battery->0.status,
                power_w: t.battery->0.power_w,
                ac_online: v,
            },
        ),
        fans: t.fans,
    }
}

proof fn lemma_fold_prefix(a: Seq<char>, b: Seq<char>, fans: Seq<crate::telemetry::FanReading>, n: nat)
    ensures
        fold_upto(a + b, n, |x: Seq<char>, i: int| fan_reading_line(x, fans[i])) == a + fold_upto(
            b,
            n,
            |x: Seq<char>, i: int| fan_reading_line(x, fans[i]),
        ),
    decreases n,
{
    let f = |x: Seq<char>, i: int| fan_reading_line(x, fans[i]);
    if n > 0 {
        lemma_fold_prefix(a, b, fans, (n - 1) as nat);
        let r = fold_upto(b, (n - 1) as nat, f);
        assert(fold_upto(a + b, n, f) == f(a + r, n - 1));
        assert(f(a + r, n - 1) =~= a + f(r, n - 1));
    }
}

/// The battery line reports the mains reading itself: snapshots that differ
/// only in it render the same text around "  ac=yes" on mains power,
/// "  ac=no" on battery and "  ac=-" when unknown.
pub proof fn lemma_ac_field_reports_reading(t: TelemetryFigures)
    requires
        t.battery is Some,
    ensures
        exists|x: Seq<char>, y: Seq<char>|
            {
                &&& spec_render_telemetry(with_ac(t, Some(true))) == x + "  ac=yes\n"@ + y
                &&& spec_render_telemetry(with_ac(t, Some(false))) == x + "  ac=no\n"@ + y
                &&& spec_render_telemetry(with_ac(t, None)) == x + "  ac=-\n"@ + y
            },
{
    reveal_strlit("  ac=yes\n");
    reveal_strlit("  ac=no\n");
    reveal_strlit("  ac=-\n");
    reveal_strlit("  ac=");
    reveal_strlit("yes");
    reveal_strlit("no");
    reveal_strlit("-");
    reveal_strlit("\n");
    let b = t.battery->0;
    let c = t.cpu;
    let s0 = seq![] + "cpu   temp "@ + fig(c.temp_c, "C"@) + "  util "@ + fig(c.utilization_pct, "%"@) + "  freq "@
        + fig(c.avg_freq_mhz, ""@) + "/"@ + fig(c.max_freq_mhz, ""@) + " MHz  power "@ + fig(c.power_w, "W"@)
        + "\n"@;
    let s1 = match t.gpu {
        Some(g) => s0 + "gpu   "@ + g.name@ + " temp "@ + fig(g.temp_c, "C"@) + " util "@ + fig(
            g.utilization_pct,
            "%"@,
        ) + " clock "@ + fig(g.clock_mhz, "MHz"@) + " power "@ + fig(g.power_w, "W"@) + "\n"@,
        None => s0 + "gpu   n/a\n"@,
    };
    let x = s1 + "batt  "@ + num_or(b.capacity_pct, "-"@) + "%  "@ + opt_or(opt_view(b.status), "-"@) + "  "@ + fig(
        b.power_w,
        "W"@,
    );
    let n = t.fans@.len();
    let f = |q: Seq<char>, i: int| fan_reading_line(q, t.fans@[i]);
    let y = if n == 0 {
        "fans  (RPM interface not yet verified on this hardware)\n"@ + "----\n"@
    } else {
        fold_upto(seq![], n, f) + "----\n"@
    };
    let ty = with_ac(t, Some(true));
    let tn = with_ac(t, Some(false));
    let tu = with_ac(t, None);
    assert(spec_render_telemetry(ty) =~= x + "  ac=yes\n"@ + y) by {
        if n > 0 {
            lemma_fold_prefix(x + "  ac=yes\n"@, seq![], t.fans@, n);
            assert((x + "  ac=yes\n"@) + seq![] =~= x + "  ac=yes\n"@);
        }
        assert(x + "  ac="@ + "yes"@ + "\n"@ =~= x + "  ac=yes\n"@);
    }
    assert(spec_render_telemetry(tn) =~= x + "  ac=no\n"@ + y) by {
        if n > 0 {
            lemma_fold_prefix(x + "  ac=no\n"@, seq![], t.fans@, n);
            assert((x + "  ac=no\n"@) + seq![] =~= x + "  ac=no\n"@);
        }
        assert(x + "  ac="@ + "no"@ + "\n"@ =~= x + "  ac=no\n"@);
    }
    assert(spec_render_telemetry(tu) =~= x + "  ac=-\n"@ + y) by {
        if n > 0 {
            lemma_fold_prefix(x + "  ac=-\n"@, seq![], t.fans@, n);
            assert((x + "  ac=-\n"@) + seq![] =~= x + "  ac=-\n"@);
        }
        assert(x + "  ac="@ + "-"@ + "\n"@ =~= x + "  ac=-\n"@);
    }
}

} // verus!
