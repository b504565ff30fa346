//! Persistent daemon configuration, shared by the daemon (reader) and the CLI
//! (writer). A missing or invalid file falls back to safe defaults rather than
//! failing; reading and writing the file is the caller's business.

use vstd::prelude::*;
use crate::rgb::{RgbState, RgbStateView};

verus! {

/// Where the configuration lives.
pub const CONFIG_PATH: &'static str = "/etc/nitro/config.json";

/// Default thermal guard: 95 °C, in millidegrees.
pub const DEFAULT_GUARD_MC: i64 = 95000;

/// Default control-loop period in seconds.
pub const DEFAULT_POLL_SECS: u64 = 5;

/// Daemon configuration. Temperatures are held in millidegrees Celsius, the
/// unit hwmon reports, so every comparison the daemon makes is exact.
#[derive(Debug)]
pub struct Config {
    /// Desired profile name when `auto_switch` is false.
    pub profile: String,
    /// Automatically pick a profile from AC/thermal state.
    pub auto_switch: bool,
    /// Desired battery charge cap (percent), if the hardware supports it.
    pub charge_limit: Option<u8>,
    /// CPU package temperature (millidegrees Celsius) that forces the
    /// emergency Quiet profile.
    pub thermal_guard_mc: i64,
    /// Evdev node the daemon listens on for the NitroSense/hotkey button.
    pub hotkey_device: Option<String>,
    /// Keycode emitted by that button.
    pub hotkey_code: Option<u16>,
    /// Daemon control-loop period in seconds.
    pub poll_secs: u64,
    /// Persisted keyboard RGB state, re-applied by the daemon on boot/resume.
    pub rgb: Option<RgbState>,
}

/// [`Config`] with its strings as character sequences.
pub struct ConfigView {
    pub profile: Seq<char>,
    pub auto_switch: bool,
    pub charge_limit: Option<u8>,
    pub thermal_guard_mc: i64,
    pub hotkey_device: Option<Seq<char>>,
    pub hotkey_code: Option<u16>,
    pub poll_secs: u64,
    pub rgb: Option<RgbStateView>,
}

pub open spec fn opt_rgb_view(o: Option<RgbState>) -> Option<RgbStateView> {
    match o {
        Some(st) => Some(st@),
        None => None,
    }
}

impl View for Config {
    type V = ConfigView;

    open spec fn view(&self) -> ConfigView {
        ConfigView {
            profile: self.profile@,
            auto_switch: self.auto_switch,
            charge_limit: self.charge_limit,
            thermal_guard_mc: self.thermal_guard_mc,
            hotkey_device: match self.hotkey_device {
                Some(d) => Some(d@),
                None => None,
            },
            hotkey_code: self.hotkey_code,
            poll_secs: self.poll_secs,
            rgb: opt_rgb_view(self.rgb),
        }
    }
}

/// The settings used when no configuration file exists.
pub open spec fn default_config() -> ConfigView {
    ConfigView {
        profile: "balanced"@,
        auto_switch: false,
        charge_limit: None,
        thermal_guard_mc: DEFAULT_GUARD_MC,
        hotkey_device: None,
        hotkey_code: None,
        poll_secs: DEFAULT_POLL_SECS,
        rgb: None,
    }
}

/// `poll_secs` clamped to 1..=60.
pub open spec fn clamp_poll(secs: u64) -> u64 {
    if secs < 1 {
        1
    } else if secs > 60 {
        60
    } else {
        secs
    }
}

impl Default for Config {
    fn default() -> (c: Config)
        ensures
            c@ == default_config(),
    {
        Config {
            profile: String::from_str("balanced"),
            auto_switch: false,
            charge_limit: None,
            thermal_guard_mc: DEFAULT_GUARD_MC,
            hotkey_device: None,
            hotkey_code: None,
            poll_secs: DEFAULT_POLL_SECS,
            rgb: None,
        }
    }
}

pub fn opt_rgb_duplicate(o: &Option<RgbState>) -> (r: Option<RgbState>)
    ensures
        opt_rgb_view(r) == opt_rgb_view(*o),
{
    match o {
        Some(st) => Some(st.duplicate()),
        None => None,
    }
}

/// Do two optional keyboard states describe the same configuration?
pub fn opt_rgb_same(a: &Option<RgbState>, b: &Option<RgbState>) -> (r: bool)
    ensures
        r == (opt_rgb_view(*a) == opt_rgb_view(*b)),
{
    match (a, b) {
        (Some(x), Some(y)) => x.same_as(y),
        (None, None) => true,
        _ => false,
    }
}

impl Config {
    /// Sanitised poll period in seconds (never zero, capped at a minute).
    pub fn poll_period(&self) -> (secs: u64)
        ensures
            secs == clamp_poll(self.poll_secs),
            1 <= secs <= 60,
    {
        if self.poll_secs < 1 {
            1
        } else if self.poll_secs > 60 {
            60
        } else {
            self.poll_secs
        }
    }

    /// A copy of this configuration.
    pub fn duplicate(&self) -> (c: Config)
        ensures
            c@ == self@,
    {
        Config {
            profile: self.profile.clone(),
            auto_switch: self.auto_switch,
            charge_limit: self.charge_limit,
            thermal_guard_mc: self.thermal_guard_mc,
            hotkey_device: match &self.hotkey_device {
                Some(d) => Some(d.clone()),
                None => None,
            },
            hotkey_code: self.hotkey_code,
            poll_secs: self.poll_secs,
            rgb: opt_rgb_duplicate(&self.rgb),
        }
    }
}

} // verus!
