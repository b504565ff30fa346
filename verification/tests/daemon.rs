use nitro_hal::config::Config;
use nitro_hal::daemon::{
    decide, hotkey_slot, listener, profile_of_slot, published, restore_defaults, settle, ChargeStep, Listener,
    Memory, Outcome, Readings, RgbStep,
};
use nitro_hal::input::read as read_inputs;
use nitro_hal::profile::Profile;
use nitro_hal::rgb::RgbState;
use nitro_hal::sysfs::SysFs;

fn readings(now: u64) -> Readings {
    Readings {
        now_unix: now,
        hotkey: 0,
        ac_online: Some(false),
        temp_mc: Some(50_000),
        battery_supported: true,
        rgb_supported: true,
    }
}

fn all_ok() -> Outcome {
    Outcome { profile_ok: true, charge_ok: true, rgb_ok: true }
}

fn cfg_with_profile(name: &str) -> Config {
    let mut c = Config::default();
    c.profile = name.into();
    c
}

#[test]
fn default_config_values() {
    let c = Config::default();
    assert_eq!(c.profile, "balanced");
    assert!(!c.auto_switch);
    assert_eq!(c.charge_limit, None);
    assert_eq!(c.thermal_guard_mc, 95_000);
    assert_eq!(c.poll_secs, 5);
    assert!(c.rgb.is_none());
}

#[test]
fn poll_period_is_clamped() {
    let mut c = Config::default();
    c.poll_secs = 0;
    assert_eq!(c.poll_period(), 1);
    c.poll_secs = 600;
    assert_eq!(c.poll_period(), 60);
    c.poll_secs = 7;
    assert_eq!(c.poll_period(), 7);
}

#[test]
fn first_iteration_applies_configured_profile() {
    let mem = Memory::new(1000);
    let t = decide(&mem, cfg_with_profile("performance"), &readings(1005));
    assert_eq!(t.desired, Profile::Performance);
    assert!(t.apply_profile);
    assert!(!t.save_config);
    assert!(!t.guard_active);
    assert!(!t.resumed);
}

#[test]
fn unknown_profile_name_holds_balanced() {
    let mem = Memory::new(0);
    let t = decide(&mem, cfg_with_profile("ludicrous"), &readings(1));
    assert_eq!(t.desired, Profile::Balanced);
}

#[test]
fn settled_iteration_reapplies_nothing() {
    let mut cfg = cfg_with_profile("quiet");
    cfg.charge_limit = Some(80);
    cfg.rgb = Some(RgbState::Off);
    let mem = Memory::new(1000);
    let t = decide(&mem, cfg, &readings(1005));
    assert!(t.apply_profile);
    assert_eq!(t.charge, ChargeStep::Apply(80));
    assert!(matches!(t.rgb, RgbStep::Apply { announce: true, .. }));
    let mem = settle(mem, &t, all_ok());
    assert_eq!(mem.last_profile, Some(Profile::Quiet));
    assert_eq!(mem.last_charge, Some(80));
    assert_eq!(mem.last_unix, 1005);
    let t2 = decide(&mem, t.cfg, &readings(1010));
    assert!(!t2.apply_profile);
    assert_eq!(t2.charge, ChargeStep::Keep);
    assert!(matches!(t2.rgb, RgbStep::Keep));
}

#[test]
fn failed_profile_is_retried() {
    let mem = Memory::new(0);
    let t = decide(&mem, cfg_with_profile("turbo"), &readings(5));
    let mem = settle(mem, &t, Outcome { profile_ok: false, charge_ok: true, rgb_ok: true });
    assert_eq!(mem.last_profile, None);
    let t2 = decide(&mem, t.cfg, &readings(10));
    assert!(t2.apply_profile);
    assert_eq!(t2.desired, Profile::Turbo);
}

#[test]
fn thermal_guard_overrides_config_and_hotkey() {
    let mem = Memory::new(0);
    let mut r = readings(5);
    r.temp_mc = Some(95_000);
    r.hotkey = 4;
    let t = decide(&mem, cfg_with_profile("turbo"), &r);
    assert!(t.guard_active);
    assert_eq!(t.desired, Profile::Quiet);
    assert!(t.save_config);
    assert_eq!(t.cfg.profile, "turbo");
}

#[test]
fn hotkey_pins_profile_and_disables_auto() {
    let mem = Memory::new(0);
    let mut cfg = cfg_with_profile("balanced");
    cfg.auto_switch = true;
    let mut r = readings(5);
    r.hotkey = 3;
    let t = decide(&mem, cfg, &r);
    assert!(t.save_config);
    assert!(!t.cfg.auto_switch);
    assert_eq!(t.cfg.profile, "performance");
    assert_eq!(t.desired, Profile::Performance);
}

#[test]
fn out_of_range_slot_is_ignored() {
    let mem = Memory::new(0);
    let mut r = readings(5);
    r.hotkey = 9;
    let t = decide(&mem, cfg_with_profile("quiet"), &r);
    assert!(!t.save_config);
    assert_eq!(t.desired, Profile::Quiet);
}

#[test]
fn auto_switch_follows_mains() {
    let mem = Memory::new(0);
    let mut cfg = cfg_with_profile("quiet");
    cfg.auto_switch = true;
    let mut r = readings(5);
    r.ac_online = Some(true);
    let t = decide(&mem, cfg.duplicate(), &r);
    assert_eq!(t.desired, Profile::Performance);
    r.ac_online = None;
    let t = decide(&mem, cfg, &r);
    assert_eq!(t.desired, Profile::Balanced);
}

#[test]
fn charge_limit_steps() {
    let mem = Memory::new(0);
    let mut cfg = Config::default();
    cfg.charge_limit = Some(70);
    let mut r = readings(1);
    r.battery_supported = false;
    let t = decide(&mem, cfg, &r);
    assert_eq!(t.charge, ChargeStep::Record(Some(70)));
    let mem = settle(mem, &t, Outcome { profile_ok: true, charge_ok: false, rgb_ok: true });
    assert_eq!(mem.last_charge, Some(70));
    let mut cfg = Config::default();
    cfg.charge_limit = None;
    let t = decide(&mem, cfg, &r);
    assert_eq!(t.charge, ChargeStep::Record(None));
}

#[test]
fn failed_charge_limit_is_retried() {
    let mem = Memory::new(0);
    let mut cfg = Config::default();
    cfg.charge_limit = Some(60);
    let t = decide(&mem, cfg, &readings(1));
    assert_eq!(t.charge, ChargeStep::Apply(60));
    let mem = settle(mem, &t, Outcome { profile_ok: true, charge_ok: false, rgb_ok: true });
    assert_eq!(mem.last_charge, None);
    let t2 = decide(&mem, t.cfg, &readings(2));
    assert_eq!(t2.charge, ChargeStep::Apply(60));
}

#[test]
fn keyboard_reapplied_after_resume() {
    let mut cfg = Config::default();
    cfg.rgb = Some(RgbState::Effect { mode: 4, speed: 3, brightness: 100, direction: 1, color: "00ff00".into() });
    let mem = Memory::new(1000);
    let t = decide(&mem, cfg, &readings(1005));
    let mem = settle(mem, &t, all_ok());
    // poll 5 s: a jump of more than 5 * 3 + 20 = 35 s is a resume.
    let t2 = decide(&mem, t.cfg.duplicate(), &readings(1040));
    assert!(!t2.resumed);
    assert!(matches!(t2.rgb, RgbStep::Keep));
    let t3 = decide(&mem, t.cfg, &readings(1041));
    assert!(t3.resumed);
    assert!(matches!(t3.rgb, RgbStep::Apply { announce: false, .. }));
}

#[test]
fn keyboard_untouched_without_interface() {
    let mut cfg = Config::default();
    cfg.rgb = Some(RgbState::Off);
    let mem = Memory::new(0);
    let mut r = readings(1);
    r.rgb_supported = false;
    let t = decide(&mem, cfg, &r);
    assert!(matches!(t.rgb, RgbStep::Keep));
}

#[test]
fn dropped_keyboard_state_is_forgotten() {
    let mut cfg = Config::default();
    cfg.rgb = Some(RgbState::Off);
    let mem = Memory::new(0);
    let t = decide(&mem, cfg, &readings(1));
    let mem = settle(mem, &t, all_ok());
    assert!(mem.last_rgb.is_some());
    let t2 = decide(&mem, Config::default(), &readings(2));
    assert!(matches!(t2.rgb, RgbStep::Forget));
    let mem = settle(mem, &t2, all_ok());
    assert!(mem.last_rgb.is_none());
}

#[test]
fn hotkey_slot_cycles_from_configured_profile() {
    assert_eq!(hotkey_slot("quiet"), 2);
    assert_eq!(hotkey_slot("balanced"), 3);
    assert_eq!(hotkey_slot("performance"), 4);
    assert_eq!(hotkey_slot("turbo"), 1);
    assert_eq!(hotkey_slot("nonsense"), 3);
    assert_eq!(profile_of_slot(hotkey_slot("turbo")), Some(Profile::Quiet));
    assert_eq!(profile_of_slot(0), None);
    assert_eq!(profile_of_slot(5), None);
}

const DEVICES: &str = "I: Bus=0019 Vendor=0000 Product=0000 Version=0000\nN: Name=\"Acer WMI hotkeys\"\nP: Phys=wmi/input0\nS: Sysfs=/devices/virtual/input/input9\nH: Handlers=kbd event7\nB: EV=13\n\n";

#[test]
fn listener_prefers_configured_device() {
    let devices = read_inputs(DEVICES);
    let mut cfg = Config::default();
    assert!(matches!(listener(&cfg, &devices), Listener::Disabled));
    cfg.hotkey_code = Some(425);
    match listener(&cfg, &devices) {
        Listener::Watch { code, device } => {
            assert_eq!(code, 425);
            assert_eq!(device, "/dev/input/event7");
        },
        other => panic!("unexpected {other:?}"),
    }
    cfg.hotkey_device = Some("/dev/input/event3".into());
    match listener(&cfg, &devices) {
        Listener::Watch { device, .. } => assert_eq!(device, "/dev/input/event3"),
        other => panic!("unexpected {other:?}"),
    }
    cfg.hotkey_device = None;
    assert!(matches!(listener(&cfg, &[]), Listener::NoDevice));
}

#[test]
fn restore_hands_fans_back_first() {
    let mut fs = SysFs::new();
    fs.add_file(
        "/sys/module/linuwu_sense/drivers/platform:acer-wmi/acer-wmi/nitro_sense/fan_speed".into(),
        Some("100,100\n".into()),
    );
    let p = restore_defaults(&fs);
    assert_eq!(p.writes.len(), 1);
    assert_eq!(p.writes[0].path, "/sys/module/linuwu_sense/drivers/platform:acer-wmi/acer-wmi/nitro_sense/fan_speed");
    assert_eq!(p.writes[0].value, "0,0");
    assert!(!p.writes[0].required);
    assert!(p.outcome.is_ok());
}

#[test]
fn published_state_reports_tick() {
    let mem = Memory::new(0);
    let mut cfg = cfg_with_profile("turbo");
    cfg.hotkey_code = Some(1);
    let r = readings(9);
    let t = decide(&mem, cfg, &r);
    let fs = SysFs::new();
    let s = published(&t, &r, &fs, 11, 4242);
    assert_eq!(s.profile, "turbo");
    assert!(!s.auto_switch);
    assert_eq!(s.cpu_temp_mc, Some(50_000));
    assert_eq!(s.ac_online, Some(false));
    assert!(!s.thermal_guard_active);
    assert_eq!(s.charge_limit, None);
    assert!(s.hotkey_bound);
    assert_eq!(s.updated_unix, 11);
    assert_eq!(s.daemon_pid, 4242);
}
