use nitro_hal::config::Config;
use nitro_hal::panel::{
    action_args, action_message, cap, effect_index_of, effect_label, hex_to_rgb, initial_controls,
    panel_status, profile_selected, rgb_to_hex, seed_controls, PanelAction, RgbMode,
};
use nitro_hal::state::State;
use nitro_hal::profile::Profile;
use nitro_hal::rgb::{Rgb, RgbState};

#[test]
fn effect_index_maps_modes() {
    assert_eq!(effect_index_of(4), 4);
    assert_eq!(effect_index_of(0), 0);
    assert_eq!(effect_index_of(7), 7);
    assert_eq!(effect_index_of(42), 0);
}

#[test]
fn effect_labels_warn_about_dark_modes() {
    assert_eq!(effect_label(0), "static (may stay dark)");
    assert_eq!(effect_label(1), "breathing (may stay dark)");
    assert_eq!(effect_label(4), "shifting");
    assert_eq!(effect_label(7), "twinkling (may stay dark)");
}

#[test]
fn hex_bytes_round_trip() {
    assert_eq!(hex_to_rgb("#12ABef"), Some([0x12, 0xab, 0xef]));
    assert_eq!(hex_to_rgb(" 000000 "), Some([0, 0, 0]));
    assert_eq!(hex_to_rgb("12345"), None);
    assert_eq!(hex_to_rgb("ééé"), None);
    assert_eq!(rgb_to_hex([0x12, 0xab, 0xef]), "12abef");
    assert_eq!(hex_to_rgb(&rgb_to_hex([1, 2, 3])), Some([1, 2, 3]));
}

#[test]
fn cap_upper_cases_first_character() {
    assert_eq!(cap("balanced"), "Balanced");
    assert_eq!(cap(""), "");
    assert_eq!(cap("1st"), "1st");
    assert_eq!(cap("ärger"), "Ärger");
    assert_eq!(cap("ßx"), "SSx");
}

#[test]
fn fresh_controls() {
    let c = initial_controls();
    assert_eq!((c.fan_cpu, c.fan_gpu), (60, 60));
    assert!(!c.charge_on);
    assert_eq!(c.charge_pct, 80);
    assert_eq!(c.rgb_mode, RgbMode::Solid);
    assert_eq!(c.color, Rgb { r: 0, g: 255, b: 0 });
    assert_eq!(c.effect_sel, 4);
}

#[test]
fn controls_seeded_from_effect() {
    let mut cfg = Config::default();
    cfg.charge_limit = Some(10);
    cfg.rgb = Some(RgbState::Effect { mode: 5, speed: 12, brightness: 250, direction: 7, color: "102030".into() });
    let c = seed_controls(initial_controls(), &cfg);
    assert!(c.charge_on);
    assert_eq!(c.charge_pct, 20);
    assert_eq!(c.rgb_mode, RgbMode::Effect);
    assert_eq!(c.effect_sel, 5);
    assert_eq!(c.effect_speed, 9);
    assert_eq!(c.effect_dir, 2);
    assert_eq!(c.brightness, 100);
    assert_eq!(c.color, Rgb { r: 0x10, g: 0x20, b: 0x30 });
}

#[test]
fn controls_seeded_from_zones() {
    let mut cfg = Config::default();
    cfg.rgb = Some(RgbState::Zones {
        colors: ["ff0000".into(), "bad".into(), "0000ff".into(), "ffffff".into()],
        brightness: 40,
    });
    let c = seed_controls(initial_controls(), &cfg);
    assert!(!c.charge_on);
    assert_eq!(c.charge_pct, 80);
    assert_eq!(c.rgb_mode, RgbMode::Zones);
    assert_eq!(c.zone_brightness, 40);
    assert_eq!(c.zones[0], Rgb { r: 255, g: 0, b: 0 });
    assert_eq!(c.zones[1], Rgb { r: 0, g: 255, b: 0 });
    assert_eq!(c.color, Rgb { r: 255, g: 0, b: 0 });
}

#[test]
fn success_reports_last_output_line() {
    assert_eq!(action_message(true, Some(0), "nitro: fan -> 0,0\n  extra line \n\n", ""), "extra line");
    assert_eq!(action_message(true, Some(0), "  \n", "note\n"), "note");
    assert_eq!(action_message(true, Some(0), "", ""), "done");
}

#[test]
fn failure_reports_code_and_detail() {
    assert_eq!(
        action_message(false, Some(126), "out", ""),
        "nitro failed (exit 126) (authentication dismissed): out"
    );
    assert_eq!(action_message(false, Some(127), "", " denied \n"), "nitro failed (exit 127) (not authorised): denied");
    assert_eq!(action_message(false, None, "", "boom"), "nitro failed (exit -1): boom");
    assert_eq!(action_message(false, Some(2), "", ""), "nitro failed (exit 2): ");
}

#[test]
fn panel_actions_build_nitro_arguments() {
    let mut c = initial_controls();
    assert_eq!(action_args(PanelAction::SetProfile(Profile::Turbo), &c), vec!["profile", "turbo"]);
    assert_eq!(action_args(PanelAction::AutoSwitch(true), &c), vec!["auto", "on"]);
    assert_eq!(action_args(PanelAction::AutoSwitch(false), &c), vec!["auto", "off"]);
    assert_eq!(action_args(PanelAction::ChargeLimit, &c), vec!["charge-limit", "off"]);
    c.charge_on = true;
    c.charge_pct = 75;
    assert_eq!(action_args(PanelAction::ChargeLimit, &c), vec!["charge-limit", "75"]);
    assert_eq!(action_args(PanelAction::FanAuto, &c), vec!["fan", "auto"]);
    assert_eq!(action_args(PanelAction::FanMax, &c), vec!["fan", "max"]);
    c.fan_cpu = 0;
    c.fan_gpu = 100;
    assert_eq!(action_args(PanelAction::FanManual, &c), vec!["fan", "0,100"]);
    c.color = Rgb { r: 0x12, g: 0xab, b: 0xef };
    c.brightness = 40;
    assert_eq!(action_args(PanelAction::RgbSolid, &c), vec!["rgb", "12abef", "40"]);
    c.effect_sel = 6;
    c.effect_speed = 9;
    c.effect_dir = 2;
    assert_eq!(
        action_args(PanelAction::RgbEffect, &c),
        vec!["rgb", "effect", "meteor", "9", "40", "2", "12abef"]
    );
    c.zones = [
        Rgb { r: 255, g: 0, b: 0 },
        Rgb { r: 0, g: 255, b: 0 },
        Rgb { r: 0, g: 0, b: 255 },
        Rgb { r: 1, g: 2, b: 3 },
    ];
    c.zone_brightness = 0;
    assert_eq!(
        action_args(PanelAction::RgbZones, &c),
        vec!["rgb", "zones", "ff0000", "00ff00", "0000ff", "010203", "0"]
    );
    assert_eq!(action_args(PanelAction::RgbOff, &c), vec!["rgb", "off"]);
}

#[test]
fn profile_button_selection() {
    assert!(profile_selected(false, "Balanced", Profile::Balanced));
    assert!(profile_selected(false, "turbo", Profile::Turbo));
    assert!(!profile_selected(true, "turbo", Profile::Turbo));
    assert!(!profile_selected(false, "turbo", Profile::Quiet));
    assert!(!profile_selected(false, "", Profile::Quiet));
}

#[test]
fn panel_status_prefers_the_daemon_state() {
    let empty = panel_status(None, None);
    assert_eq!(empty.profile, "");
    assert_eq!(empty.rgb_desc, "");
    assert!(!empty.auto && !empty.thermal_guard && empty.charge_limit.is_none());

    let mut cfg = Config::default();
    cfg.profile = "performance".to_string();
    cfg.auto_switch = true;
    cfg.charge_limit = Some(70);
    let v = panel_status(Some(&cfg), None);
    assert_eq!(v.profile, "performance");
    assert!(v.auto);
    assert_eq!(v.charge_limit, Some(70));
    assert_eq!(v.rgb_desc, "none saved");

    let st = State {
        profile: "quiet".to_string(),
        auto_switch: false,
        cpu_temp_mc: Some(99_000),
        ac_online: Some(true),
        thermal_guard_active: true,
        charge_limit: None,
        hotkey_bound: false,
        updated_unix: 0,
        daemon_pid: 1,
    };
    let v = panel_status(Some(&cfg), Some(&st));
    assert_eq!(v.profile, "quiet");
    assert!(!v.auto && v.thermal_guard);
    assert_eq!(v.charge_limit, Some(70));
    let st = State { charge_limit: Some(60), ..st };
    assert_eq!(panel_status(Some(&cfg), Some(&st)).charge_limit, Some(60));
}
