use nitro_hal::battery::{get_limit, limit_kind, set_limit, LimitKind};
use nitro_hal::control::{apply, apply_balanced, apply_performance, capture, restore, status};
use nitro_hal::error::ErrorKind;
use nitro_hal::evdev::{find_hotkey_device, is_key_press, parse};
use nitro_hal::fan::{self, FanMode};
use nitro_hal::input::{parse_block, read as read_inputs};
use nitro_hal::plan::{first_step, next_step, Plan, Step, Write};
use nitro_hal::platform_profile;
use nitro_hal::profile::{self, Profile};
use nitro_hal::rgb::{self, Rgb, RgbState};
use nitro_hal::sysfs::SysFs;

fn s(v: &str) -> String {
    v.to_string()
}

fn names(v: &[&str]) -> Vec<String> {
    v.iter().map(|x| x.to_string()).collect()
}

fn writes(p: &Plan) -> Vec<(String, String, bool)> {
    p.writes.iter().map(|w| (w.path.clone(), w.value.clone(), w.required)).collect()
}

const BASE: &str = "/sys/devices/system/cpu";

fn cpu_fs() -> SysFs {
    let mut fs = SysFs::new();
    fs.add_dir(s(BASE), names(&["cpu1", "cpufreq", "cpu0", "cpuidle", "cpux"]));
    for c in ["cpu0", "cpu1"] {
        let d = format!("{BASE}/{c}/cpufreq");
        fs.add_dir(d.clone(), names(&["scaling_governor"]));
        fs.add_file(format!("{d}/scaling_governor"), Some(s("powersave\n")));
        fs.add_file(format!("{d}/energy_performance_preference"), Some(s("balance_power\n")));
    }
    fs.add_file(format!("{BASE}/cpu0/cpufreq/scaling_available_governors"), Some(s("performance powersave\n")));
    fs.add_file(
        format!("{BASE}/cpu0/cpufreq/energy_performance_available_preferences"),
        Some(s("default performance balance_performance balance_power power\n")),
    );
    fs.add_file(format!("{BASE}/cpu0/cpufreq/scaling_driver"), Some(s("intel_pstate\n")));
    fs.add_file(format!("{BASE}/intel_pstate/no_turbo"), Some(s("1\n")));
    fs
}

#[test]
fn cpu_status_reads_cpu0() {
    let st = status(&cpu_fs());
    assert_eq!(st.driver.as_deref(), Some("intel_pstate"));
    assert_eq!(st.governor.as_deref(), Some("powersave"));
    assert_eq!(st.epp.as_deref(), Some("balance_power"));
    assert_eq!(st.turbo_enabled, Some(false));
    assert_eq!(st.available_governors, names(&["performance", "powersave"]));
}

#[test]
fn balanced_levers_on_every_policy() {
    let fs = cpu_fs();
    let p = apply_balanced(&fs);
    assert!(p.outcome.is_ok());
    assert_eq!(
        writes(&p),
        vec![
            (format!("{BASE}/cpu0/cpufreq/scaling_governor"), s("powersave"), true),
            (format!("{BASE}/cpu0/cpufreq/energy_performance_preference"), s("balance_performance"), false),
            (format!("{BASE}/cpu1/cpufreq/scaling_governor"), s("powersave"), true),
            (format!("{BASE}/cpu1/cpufreq/energy_performance_preference"), s("balance_performance"), false),
            (format!("{BASE}/intel_pstate/no_turbo"), s("0"), true),
        ]
    );
    let p = apply_performance(&fs);
    assert_eq!(writes(&p).len(), 3);
}

#[test]
fn unadvertised_governor_writes_nothing() {
    let fs = cpu_fs();
    let p = apply(&fs, "schedutil", None, true);
    assert!(p.writes.is_empty());
    let e = p.outcome.unwrap_err();
    assert_eq!(e.kind(), ErrorKind::InvalidInput);
    assert_eq!(e.message(), "governor 'schedutil' not available; options: performance, powersave");
}

#[test]
fn unadvertised_epp_is_skipped() {
    let fs = cpu_fs();
    let p = apply(&fs, "powersave", Some("ludicrous"), false);
    assert_eq!(writes(&p).len(), 3);
    assert_eq!(writes(&p)[2], (format!("{BASE}/intel_pstate/no_turbo"), s("1"), true));
}

#[test]
fn capture_then_restore_puts_levers_back() {
    let fs = cpu_fs();
    let backup = capture(&fs);
    assert_eq!(backup.policies.len(), 2);
    assert_eq!(backup.policies[0].cpu, "cpu0");
    assert_eq!(backup.no_turbo.as_deref(), Some("1"));
    let p = restore(&fs, &backup);
    assert!(p.outcome.is_ok());
    assert_eq!(
        writes(&p),
        vec![
            (format!("{BASE}/cpu0/cpufreq/scaling_governor"), s("powersave"), false),
            (format!("{BASE}/cpu0/cpufreq/energy_performance_preference"), s("balance_power"), false),
            (format!("{BASE}/cpu1/cpufreq/scaling_governor"), s("powersave"), false),
            (format!("{BASE}/cpu1/cpufreq/energy_performance_preference"), s("balance_power"), false),
            (format!("{BASE}/intel_pstate/no_turbo"), s("1"), false),
        ]
    );
}

const SENSE: &str = "/sys/devices/platform/acer-wmi/nitro_sense";

#[test]
fn fan_modes_and_absence() {
    let mut fs = SysFs::new();
    assert!(!fan::supported(&fs));
    let e = fan::set(&fs, FanMode::Max).outcome.unwrap_err();
    assert_eq!(e.kind(), ErrorKind::Unsupported);
    fs.add_file(format!("{SENSE}/fan_speed"), Some(s("0,0\n")));
    assert!(fan::supported(&fs));
    assert_eq!(fan::get(&fs).as_deref(), Some("0,0"));
    let p = fan::set(&fs, FanMode::Manual { cpu: 150, gpu: 40 });
    assert_eq!(writes(&p), vec![(format!("{SENSE}/fan_speed"), s("100,40"), true)]);
    let p = fan::set(&fs, FanMode::Max);
    assert_eq!(p.writes[0].value, "100,100");
}

#[test]
fn platform_profile_pick_and_set() {
    let mut fs = SysFs::new();
    fs.add_file(s("/sys/firmware/acpi/platform_profile"), Some(s("balanced\n")));
    fs.add_file(s("/sys/firmware/acpi/platform_profile_choices"), Some(s("low-power balanced performance\n")));
    assert!(platform_profile::supported(&fs));
    assert_eq!(platform_profile::pick(&fs, &["quiet", "low-power", "cool"]).as_deref(), Some("low-power"));
    assert_eq!(platform_profile::pick(&fs, &["turbo"]), None);
    assert_eq!(platform_profile::pick(&fs, &["PERFORMANCE"]).as_deref(), Some("performance"));
    let p = platform_profile::set(&fs, "performance");
    assert_eq!(writes(&p), vec![(s("/sys/firmware/acpi/platform_profile"), s("performance"), true)]);
    let p = platform_profile::set(&fs, "turbo");
    assert!(p.writes.is_empty());
    assert_eq!(p.outcome.unwrap_err().kind(), ErrorKind::InvalidInput);
}

#[test]
fn profile_layers_best_effort_first() {
    let mut fs = cpu_fs();
    fs.add_file(s("/sys/firmware/acpi/platform_profile"), Some(s("balanced\n")));
    fs.add_file(s("/sys/firmware/acpi/platform_profile_choices"), Some(s("quiet balanced performance\n")));
    fs.add_file(format!("{SENSE}/fan_speed"), Some(s("0,0\n")));
    let p = profile::apply(&fs, Profile::Turbo);
    let w = writes(&p);
    assert_eq!(w[0], (s("/sys/firmware/acpi/platform_profile"), s("performance"), false));
    assert_eq!(w[1], (format!("{SENSE}/fan_speed"), s("100,100"), false));
    assert_eq!(w[2], (format!("{BASE}/cpu0/cpufreq/scaling_governor"), s("performance"), true));
    assert_eq!(w.last().unwrap(), &(format!("{BASE}/intel_pstate/no_turbo"), s("0"), true));
    let q = profile::apply(&fs, Profile::Quiet);
    assert_eq!(writes(&q)[0].1, "quiet");
    assert_eq!(writes(&q).last().unwrap().1, "1");
}

#[test]
fn profile_descriptions_and_levers() {
    assert_eq!(Profile::Balanced.describe(), "balanced: powersave governor, balanced EPP, turbo on");
    assert_eq!(Profile::Turbo.levers(), ("performance", None, true));
    assert_eq!(Profile::Quiet.platform_prefs(), vec!["quiet", "low-power", "cool"]);
    assert_eq!(Profile::Turbo.fan_mode(), FanMode::Max);
    assert_eq!(Profile::Performance.fan_mode(), FanMode::Auto);
    assert_eq!(Profile::parse("  PERF "), Some(Profile::Performance));
    assert_eq!(Profile::parse("max"), Some(Profile::Turbo));
}

const PS: &str = "/sys/class/power_supply";

#[test]
fn charge_threshold_interface() {
    let mut fs = SysFs::new();
    assert_eq!(limit_kind(&fs), None);
    let e = set_limit(&fs, 80).outcome.unwrap_err();
    assert_eq!(e.kind(), ErrorKind::Unsupported);
    assert_eq!(e.message(), "no battery charge-limit interface exposed by this kernel/firmware");
    fs.add_dir(s(PS), names(&["AC", "BAT1"]));
    fs.add_file(format!("{PS}/AC/type"), Some(s("Mains\n")));
    fs.add_file(format!("{PS}/BAT1/type"), Some(s("Battery\n")));
    fs.add_file(format!("{PS}/BAT1/charge_control_end_threshold"), Some(s("100\n")));
    fs.add_file(format!("{PS}/BAT1/charge_control_start_threshold"), Some(s("95\n")));
    assert_eq!(limit_kind(&fs), Some(LimitKind::Threshold));
    assert_eq!(get_limit(&fs), Some(100));
    let p = set_limit(&fs, 80);
    assert!(p.outcome.is_ok());
    assert_eq!(
        writes(&p),
        vec![
            (format!("{PS}/BAT1/charge_control_start_threshold"), s("75"), false),
            (format!("{PS}/BAT1/charge_control_end_threshold"), s("80"), true),
        ]
    );
    let e = set_limit(&fs, 19).outcome.unwrap_err();
    assert_eq!(e.kind(), ErrorKind::InvalidInput);
    assert_eq!(e.message(), "charge limit must be 20..=100, got 19");
}

#[test]
fn charge_start_threshold_compared_in_full() {
    let battery = |start: &str| {
        let mut fs = SysFs::new();
        fs.add_dir(s(PS), names(&["BAT0"]));
        fs.add_file(format!("{PS}/BAT0/type"), Some(s("Battery\n")));
        fs.add_file(format!("{PS}/BAT0/charge_control_end_threshold"), Some(s("100\n")));
        fs.add_file(format!("{PS}/BAT0/charge_control_start_threshold"), Some(s(start)));
        fs
    };
    assert_eq!(
        writes(&set_limit(&battery("300\n"), 50)),
        vec![
            (format!("{PS}/BAT0/charge_control_start_threshold"), s("45"), false),
            (format!("{PS}/BAT0/charge_control_end_threshold"), s("50"), true),
        ]
    );
    assert_eq!(
        writes(&set_limit(&battery("40\n"), 50)),
        vec![(format!("{PS}/BAT0/charge_control_end_threshold"), s("50"), true)]
    );
}

#[test]
fn charge_fixed_toggle_interface() {
    let mut fs = SysFs::new();
    fs.add_file(format!("{SENSE}/fan_speed"), Some(s("0,0")));
    fs.add_file(format!("{SENSE}/battery_limiter"), Some(s("1\n")));
    assert_eq!(limit_kind(&fs), Some(LimitKind::FixedToggle));
    assert_eq!(get_limit(&fs), Some(80));
    assert_eq!(writes(&set_limit(&fs, 60)), vec![(format!("{SENSE}/battery_limiter"), s("1"), true)]);
    assert_eq!(writes(&set_limit(&fs, 100)), vec![(format!("{SENSE}/battery_limiter"), s("0"), true)]);
}

const KBD: &str = "/sys/devices/platform/acer-wmi/four_zoned_kb";

#[test]
fn keyboard_writes() {
    let mut fs = SysFs::new();
    assert_eq!(rgb::off(&fs).outcome.unwrap_err().kind(), ErrorKind::Unsupported);
    fs.add_file(format!("{KBD}/per_zone_mode"), Some(s("ff0000,00ff00,0000ff,ffffff,80\n")));
    fs.add_file(format!("{KBD}/four_zone_mode"), Some(s("4,3,100,1,0,255,0\n")));
    assert!(rgb::supported(&fs));
    assert_eq!(rgb::get(&fs).as_deref(), Some("ff0000,00ff00,0000ff,ffffff,80"));
    assert_eq!(rgb::get_four_zone(&fs).as_deref(), Some("4,3,100,1,0,255,0"));
    let red = Rgb { r: 255, g: 0, b: 0 };
    assert_eq!(rgb::set_all(&fs, red, 250).writes[0].value, "ff0000,ff0000,ff0000,ff0000,100");
    assert_eq!(rgb::off(&fs).writes[0].value, "000000,000000,000000,000000,0");
    let p = rgb::set_effect(&fs, 3, 12, 50, 9, Rgb { r: 1, g: 2, b: 3 });
    assert_eq!(writes(&p), vec![(format!("{KBD}/four_zone_mode"), s("3,9,50,2,1,2,3"), true)]);
    let st = RgbState::Effect { mode: 4, speed: 3, brightness: 100, direction: 1, color: s("00ff00") };
    assert_eq!(st.apply(&fs).writes[0].value, "4,3,100,1,0,255,0");
    let bad = RgbState::Effect { mode: 4, speed: 3, brightness: 100, direction: 1, color: s("green") };
    let e = bad.apply(&fs).outcome.unwrap_err();
    assert_eq!(e.kind(), ErrorKind::InvalidInput);
}

#[test]
fn effect_needs_four_zone_mode() {
    let mut fs = SysFs::new();
    fs.add_file(format!("{KBD}/per_zone_mode"), Some(s("ff0000,00ff00,0000ff,ffffff,80\n")));
    let p = rgb::set_effect(&fs, 4, 3, 100, 1, Rgb { r: 0, g: 255, b: 0 });
    assert!(p.writes.is_empty());
    let e = p.outcome.unwrap_err();
    assert_eq!(e.kind(), ErrorKind::Unsupported);
    assert_eq!(e.message(), "four_zone_mode not available (is the linuwu-sense module loaded?)");
}

#[test]
fn effect_names_table() {
    assert_eq!(
        rgb::effect_names(),
        vec!["static", "breathing", "neon", "wave", "shifting", "zoom", "meteor", "twinkling"]
    );
    assert_eq!(rgb::effect_name(8), "custom");
    assert_eq!(rgb::effect_mode(" Zoom "), Some(5));
}

const DEVICES: &str = "I: Bus=0011 Vendor=0001 Product=0001 Version=ab83\nN: Name=\"AT Translated Set 2 keyboard\"\nP: Phys=isa0060/serio0/input0\nH: Handlers=sysrq kbd leds event3\nB: EV=120013\n\nI: Bus=0019 Vendor=0000 Product=0000 Version=0000\nN: Name=\"Acer WMI hotkeys\"\nP: Phys=wmi/input0\nS: Sysfs=/devices/virtual/input/input9\nH: Handlers=kbd event7\nB: EV=13\n";

#[test]
fn input_devices_and_hotkey_search() {
    let ds = read_inputs(DEVICES);
    assert_eq!(ds.len(), 2);
    assert_eq!(ds[0].name.as_deref(), Some("AT Translated Set 2 keyboard"));
    assert!(ds[0].ev_keys);
    assert_eq!(ds[1].handlers, names(&["kbd", "event7"]));
    assert!(ds[1].hotkey_candidate);
    assert_eq!(find_hotkey_device(&ds).as_deref(), Some("/dev/input/event7"));
    let d = parse_block("N: Name=\"Power Button\"\nH: Handlers=kbd event1\nB: EV=3\n");
    assert!(d.ev_keys);
    assert_eq!(find_hotkey_device(&[]), None);
}

#[test]
fn key_event_decoding() {
    let mut buf = [0u8; 24];
    let kind = 1u16.to_ne_bytes();
    let code = 425u16.to_ne_bytes();
    let value = 1i32.to_ne_bytes();
    buf[16..18].copy_from_slice(&kind);
    buf[18..20].copy_from_slice(&code);
    buf[20..24].copy_from_slice(&value);
    let ev = parse(&buf);
    assert_eq!((ev.kind, ev.code, ev.value), (1, 425, 1));
    assert!(is_key_press(&ev));
    buf[20..24].copy_from_slice(&(-2i32).to_ne_bytes());
    let ev = parse(&buf);
    assert_eq!(ev.value, -2);
    assert!(!is_key_press(&ev));
}

#[test]
fn plan_steps_stop_only_on_required_failures() {
    let w = |p: &str, req: bool| Write { path: s(p), value: s("1"), required: req };
    let p = Plan { writes: vec![w("/a", false), w("/b", true)], outcome: Ok(()) };
    assert_eq!(first_step(&p), Step::Write(0));
    assert_eq!(next_step(&p, 0, false), Step::Write(1));
    assert_eq!(next_step(&p, 0, true), Step::Write(1));
    assert_eq!(next_step(&p, 1, false), Step::Stop);
    assert_eq!(next_step(&p, 1, true), Step::Finish);
    let empty = Plan { writes: vec![], outcome: Ok(()) };
    assert_eq!(first_step(&empty), Step::Finish);
}

#[test]
fn colour_and_effect_round_trips() {
    let c = Rgb { r: 0xab, g: 0x0c, b: 0xff };
    assert_eq!(Rgb::parse(&format!("#{}", c.hex().to_ascii_uppercase())), Some(c));
    for m in 0u8..8 {
        let name = rgb::effect_name(m);
        assert_eq!(rgb::effect_mode(&name.to_ascii_uppercase()), Some(m));
        assert_eq!(rgb::effect_mode(&m.to_string()), Some(m));
    }
    assert_eq!(rgb::effect_mode("8"), None);
    let z = [c, Rgb { r: 1, g: 2, b: 3 }, c, Rgb { r: 0, g: 0, b: 0 }];
    let text = format!("{},{},{},{},{}", z[0].hex(), z[1].hex(), z[2].hex(), z[3].hex(), 200);
    assert_eq!(rgb::parse_zone_string(&text), Some((z, 200)));
}

/// The snapshot once every write of `plan` was stored: the last write to a
/// path wins, and everything else is as in `before`.
fn stored(plan: &Plan, before: SysFs) -> SysFs {
    let mut after = SysFs::new();
    for w in plan.writes.iter().rev() {
        after.add_file(w.path.clone(), Some(w.value.clone()));
    }
    for e in before.entries {
        after.entries.push(e);
    }
    after
}

#[test]
fn restore_after_apply_brings_the_capture_back() {
    let backup = capture(&cpu_fs());
    let mid = stored(&apply_performance(&cpu_fs()), cpu_fs());
    assert_eq!(status(&mid).governor.as_deref(), Some("performance"));
    assert_eq!(status(&mid).turbo_enabled, Some(true));
    let p = restore(&mid, &backup);
    assert!(p.outcome.is_ok());
    let after = stored(&p, mid);
    let again = capture(&after);
    assert_eq!(again.policies.len(), backup.policies.len());
    for (a, b) in again.policies.iter().zip(backup.policies.iter()) {
        assert_eq!(a.cpu, b.cpu);
        assert_eq!(a.governor, b.governor);
        assert_eq!(a.epp, b.epp);
    }
    assert_eq!(again.no_turbo, backup.no_turbo);
}

#[test]
fn charge_limit_reads_back() {
    let threshold = || {
        let mut fs = SysFs::new();
        fs.add_dir(s(PS), names(&["BAT1"]));
        fs.add_file(format!("{PS}/BAT1/type"), Some(s("Battery\n")));
        fs.add_file(format!("{PS}/BAT1/charge_control_end_threshold"), Some(s("100\n")));
        fs.add_file(format!("{PS}/BAT1/charge_control_start_threshold"), Some(s("95\n")));
        fs
    };
    let after = stored(&set_limit(&threshold(), 60), threshold());
    assert_eq!(get_limit(&after), Some(60));
    let toggle = || {
        let mut fs = SysFs::new();
        fs.add_file(format!("{SENSE}/fan_speed"), Some(s("0,0")));
        fs.add_file(format!("{SENSE}/battery_limiter"), Some(s("0\n")));
        fs
    };
    assert_eq!(get_limit(&toggle()), None);
    assert_eq!(get_limit(&stored(&set_limit(&toggle(), 60), toggle())), Some(80));
    assert_eq!(get_limit(&stored(&set_limit(&toggle(), 100), toggle())), None);
}
