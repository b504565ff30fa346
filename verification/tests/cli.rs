use nitro_hal::cli::{
    brightness_base, charge_arg, describe_rgb, fan_arg, parse_pair, parse_switch, rgb_request, status_text,
    turbo_str, ChargeArg, FanArg, RgbRequest, RgbUsage,
};
use nitro_hal::config::Config;
use nitro_hal::control::CpuStatus;
use nitro_hal::fan::FanMode;
use nitro_hal::rgb::RgbState;
use nitro_hal::state::State;

fn args(v: &[&str]) -> Vec<String> {
    v.iter().map(|s| s.to_string()).collect()
}

#[test]
fn pair_parses_cpu_and_gpu() {
    assert_eq!(parse_pair("60,80"), Some((60, 80)));
    assert_eq!(parse_pair(" 0 , 100 "), Some((0, 100)));
    assert_eq!(parse_pair("+5,7"), Some((5, 7)));
    assert_eq!(parse_pair("60"), None);
    assert_eq!(parse_pair("60,"), None);
    assert_eq!(parse_pair("256,1"), None);
    assert_eq!(parse_pair("1,2,3"), None);
}

#[test]
fn turbo_words() {
    assert_eq!(turbo_str(Some(true)), "on");
    assert_eq!(turbo_str(Some(false)), "off");
    assert_eq!(turbo_str(None), "?");
}

#[test]
fn switch_words() {
    assert_eq!(parse_switch(Some("on")), Some(true));
    assert_eq!(parse_switch(Some("1")), Some(true));
    assert_eq!(parse_switch(Some("false")), Some(false));
    assert_eq!(parse_switch(Some("ON")), None);
    assert_eq!(parse_switch(None), None);
}

#[test]
fn charge_arguments() {
    assert_eq!(charge_arg(None), ChargeArg::Show);
    assert_eq!(charge_arg(Some("off")), ChargeArg::Clear);
    assert_eq!(charge_arg(Some("none")), ChargeArg::Clear);
    assert_eq!(charge_arg(Some("80")), ChargeArg::Limit(80));
    assert_eq!(charge_arg(Some("300")), ChargeArg::Invalid);
    assert_eq!(charge_arg(Some("full")), ChargeArg::Invalid);
}

#[test]
fn fan_arguments() {
    assert_eq!(fan_arg(None), FanArg::Show);
    assert_eq!(fan_arg(Some("auto")), FanArg::Mode(FanMode::Auto));
    assert_eq!(fan_arg(Some("max")), FanArg::Mode(FanMode::Max));
    assert_eq!(fan_arg(Some("40,50")), FanArg::Mode(FanMode::Manual { cpu: 40, gpu: 50 }));
    assert_eq!(fan_arg(Some("loud")), FanArg::Invalid);
}

#[test]
fn rgb_off_and_show() {
    assert!(matches!(rgb_request(&args(&[])), RgbRequest::Show));
    assert!(matches!(rgb_request(&args(&["off"])), RgbRequest::Apply(RgbState::Off)));
}

#[test]
fn rgb_solid_colour_becomes_shifting_effect() {
    match rgb_request(&args(&["#FF8000", "40"])) {
        RgbRequest::Solid(RgbState::Effect { mode, speed, brightness, direction, color }) => {
            assert_eq!((mode, speed, brightness, direction), (4, 3, 40, 1));
            assert_eq!(color, "ff8000");
        },
        other => panic!("unexpected {other:?}"),
    }
    match rgb_request(&args(&["00ff00", "bright"])) {
        RgbRequest::Solid(RgbState::Effect { brightness, .. }) => assert_eq!(brightness, 100),
        other => panic!("unexpected {other:?}"),
    }
    assert!(matches!(rgb_request(&args(&["purple"])), RgbRequest::Invalid(RgbUsage::Colour(c)) if c == "purple"));
}

#[test]
fn rgb_brightness_is_capped() {
    assert!(matches!(rgb_request(&args(&["brightness", "150"])), RgbRequest::Brightness(100)));
    assert!(matches!(rgb_request(&args(&["brightness", "30"])), RgbRequest::Brightness(30)));
    assert!(matches!(rgb_request(&args(&["brightness"])), RgbRequest::Invalid(RgbUsage::Brightness)));
    assert!(matches!(rgb_request(&args(&["brightness", "x"])), RgbRequest::Invalid(RgbUsage::Brightness)));
}

#[test]
fn rgb_zones() {
    match rgb_request(&args(&["zones", "FF0000", "00ff00", "#0000ff", "ffffff", "70"])) {
        RgbRequest::Apply(RgbState::Zones { colors, brightness }) => {
            assert_eq!(colors, ["ff0000".to_string(), "00ff00".into(), "0000ff".into(), "ffffff".into()]);
            assert_eq!(brightness, 70);
        },
        other => panic!("unexpected {other:?}"),
    }
    assert!(matches!(rgb_request(&args(&["zones", "ff0000"])), RgbRequest::Invalid(RgbUsage::Zones)));
    assert!(matches!(
        rgb_request(&args(&["zones", "ff0000", "nope", "alsobad", "ffffff"])),
        RgbRequest::Invalid(RgbUsage::ZoneColour(c)) if c == "nope"
    ));
}

#[test]
fn rgb_effect() {
    match rgb_request(&args(&["effect", "wave", "5", "60", "2", "112233"])) {
        RgbRequest::Apply(RgbState::Effect { mode, speed, brightness, direction, color }) => {
            assert_eq!((mode, speed, brightness, direction), (3, 5, 60, 2));
            assert_eq!(color, "112233");
        },
        other => panic!("unexpected {other:?}"),
    }
    match rgb_request(&args(&["effect", "6", "x", "y", "z", "112233"])) {
        RgbRequest::Apply(RgbState::Effect { mode, speed, brightness, direction, .. }) => {
            assert_eq!((mode, speed, brightness, direction), (6, 0, 100, 1));
        },
        other => panic!("unexpected {other:?}"),
    }
    assert!(matches!(rgb_request(&args(&["effect", "wave"])), RgbRequest::Invalid(RgbUsage::Effect)));
    assert!(matches!(
        rgb_request(&args(&["effect", "disco", "1", "1", "1", "112233"])),
        RgbRequest::Invalid(RgbUsage::UnknownEffect(e)) if e == "disco"
    ));
    assert!(matches!(
        rgb_request(&args(&["effect", "wave", "1", "1", "1", "zzz"])),
        RgbRequest::Invalid(RgbUsage::EffectColour(c)) if c == "zzz"
    ));
}

#[test]
fn rgb_descriptions() {
    assert_eq!(describe_rgb(&RgbState::Off), "off");
    let solid = RgbState::Zones {
        colors: ["ff0000".into(), "ff0000".into(), "ff0000".into(), "ff0000".into()],
        brightness: 80,
    };
    assert_eq!(describe_rgb(&solid), "solid #ff0000 @ 80%");
    let zones = RgbState::Zones {
        colors: ["ff0000".into(), "00ff00".into(), "0000ff".into(), "ffffff".into()],
        brightness: 5,
    };
    assert_eq!(describe_rgb(&zones), "zones ff0000/00ff00/0000ff/ffffff @ 5%");
    let effect = RgbState::Effect { mode: 6, speed: 1, brightness: 100, direction: 1, color: "abcdef".into() };
    assert_eq!(describe_rgb(&effect), "effect meteor #abcdef @ 100%");
    let custom = RgbState::Effect { mode: 9, speed: 1, brightness: 0, direction: 1, color: "000000".into() };
    assert_eq!(describe_rgb(&custom), "effect custom #000000 @ 0%");
}

#[test]
fn brightness_base_prefers_saved_state() {
    let saved = Some(RgbState::Off);
    assert_eq!(brightness_base(saved, Some("ff0000,00ff00,0000ff,ffffff,50".into())), Some(RgbState::Off));
    let from_hw = brightness_base(None, Some("FF0000,00ff00,0000ff,ffffff,50".into()));
    assert_eq!(
        from_hw,
        Some(RgbState::Zones {
            colors: ["ff0000".into(), "00ff00".into(), "0000ff".into(), "ffffff".into()],
            brightness: 100,
        })
    );
    assert_eq!(brightness_base(None, Some("garbage".into())), None);
    assert_eq!(brightness_base(None, None), None);
}

fn status() -> CpuStatus {
    CpuStatus {
        driver: Some("intel_pstate".into()),
        governor: Some("powersave".into()),
        epp: None,
        turbo_enabled: Some(true),
        available_governors: vec!["performance".into(), "powersave".into()],
        available_epp: vec![],
    }
}

#[test]
fn status_text_from_config() {
    let mut cfg = Config::default();
    cfg.auto_switch = true;
    cfg.charge_limit = Some(80);
    let text = status_text(&status(), &cfg, false, &None, true, &None, &Some(None));
    let expected = "nitro status\n  daemon    : stopped\n  profile   : balanced (auto)\n  driver    : intel_pstate\n  governor  : powersave\n  epp       : ?\n  turbo     : on\n  governors : performance, powersave\n  charge    : 80% (hw support: yes)\n  hotkey    : not learned\n  fan       : n/a (linuwu-sense not loaded)\n  rgb       : ?\n\n";
    assert_eq!(text, expected);
}

#[test]
fn status_text_from_published_state() {
    let mut cfg = Config::default();
    cfg.hotkey_code = Some(425);
    let st = State {
        profile: "quiet".into(),
        auto_switch: false,
        cpu_temp_mc: Some(97_000),
        ac_online: Some(true),
        thermal_guard_active: true,
        charge_limit: None,
        hotkey_bound: true,
        updated_unix: 1,
        daemon_pid: 10,
    };
    let text = status_text(&status(), &cfg, true, &Some(st), false, &Some(Some("0,0".into())), &None);
    assert!(text.starts_with(
        "nitro status\n  daemon    : running\n  profile   : quiet\n  THERMAL GUARD ACTIVE (CPU forced to quiet)\n"
    ));
    assert!(text.contains("  charge    : unset (hw support: no)\n"));
    assert!(text.contains("  hotkey    : bound (code 425)\n"));
    assert!(text.contains("  fan       : 0,0\n"));
}
