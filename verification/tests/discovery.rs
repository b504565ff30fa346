use nitro_hal::ec::hexdump;
use nitro_hal::hwmon::{channel_index, collect, read as read_hwmon};
use nitro_hal::probe::{euid_is_root, parse_cpuinfo, run};
use nitro_hal::render::{render_telemetry, render_text, BatteryFigures, CpuFigures, GpuFigures, TelemetryFigures};
use nitro_hal::state::daemon_running;
use nitro_hal::sysfs::SysFs;
use nitro_hal::telemetry::{ac_online, battery, cpu_freqs_khz, CpuTimes, FanReading};
use nitro_hal::wmi::{acer_platform, known_label, GAMING_LABEL};

fn s(v: &str) -> String {
    v.to_string()
}

fn names(v: &[&str]) -> Vec<String> {
    v.iter().map(|x| x.to_string()).collect()
}

fn chip_fs() -> SysFs {
    let mut fs = SysFs::new();
    let d = "/sys/class/hwmon/hwmon2";
    fs.add_dir(
        s(d),
        names(&["temp3_input", "name", "fan1_input", "temp1_input", "pwm1", "pwm1_enable", "temp1_label", "power1_input", "bogus"]),
    );
    fs.add_file(s("/sys/class/hwmon/hwmon2/name"), Some(s("coretemp\n")));
    fs.add_file(s("/sys/class/hwmon/hwmon2/temp1_input"), Some(s("63000\n")));
    fs.add_file(s("/sys/class/hwmon/hwmon2/temp1_label"), Some(s("Package id 0\n")));
    fs.add_file(s("/sys/class/hwmon/hwmon2/temp3_input"), Some(s("-5000\n")));
    fs.add_file(s("/sys/class/hwmon/hwmon2/fan1_input"), Some(s("2400")));
    fs.add_file(s("/sys/class/hwmon/hwmon2/pwm1"), Some(s("128")));
    fs.add_file(s("/sys/class/hwmon/hwmon2/pwm1_enable"), Some(s("2")));
    fs.add_file(s("/sys/class/hwmon/hwmon2/power1_input"), Some(s("15500000")));
    fs.add_dir(s("/sys/class/hwmon"), names(&["hwmon2", "hwmon10"]));
    fs.add_dir(s("/sys/class/hwmon/hwmon10"), names(&[]));
    fs
}

#[test]
fn channel_names() {
    assert_eq!(channel_index("temp12_input", "temp", "_input"), Some(12));
    assert_eq!(channel_index("temp_input", "temp", "_input"), None);
    assert_eq!(channel_index("temp1_label", "temp", "_input"), None);
    assert_eq!(channel_index("fan2_input", "temp", "_input"), None);
    assert_eq!(channel_index("temp+3_input", "temp", "_input"), Some(3));
}

#[test]
fn chip_channels_are_sorted_by_number() {
    let fs = chip_fs();
    let chip = collect(&fs, &s("/sys/class/hwmon/hwmon2"));
    assert_eq!(chip.name.as_deref(), Some("coretemp"));
    assert_eq!(chip.temps.len(), 2);
    assert_eq!(chip.temps[0].index, 1);
    assert_eq!(chip.temps[0].label.as_deref(), Some("Package id 0"));
    assert_eq!(chip.temps[0].millidegrees, Some(63000));
    assert_eq!(chip.temps[1].index, 3);
    assert_eq!(chip.temps[1].millidegrees, Some(-5000));
    assert_eq!(chip.temps[1].label, None);
    assert_eq!(chip.fans.len(), 1);
    assert_eq!(chip.fans[0].rpm, Some(2400));
    assert_eq!(chip.pwms.len(), 1);
    assert_eq!((chip.pwms[0].index, chip.pwms[0].raw, chip.pwms[0].enable), (1, Some(128), Some(2)));
    assert_eq!(chip.powers.len(), 1);
    assert_eq!(chip.powers[0].microwatts, Some(15_500_000));
}

#[test]
fn chips_in_name_order() {
    let fs = chip_fs();
    let chips = read_hwmon(&fs);
    assert_eq!(chips.len(), 2);
    assert_eq!(chips[0].path, "/sys/class/hwmon/hwmon10");
    assert_eq!(chips[1].path, "/sys/class/hwmon/hwmon2");
}

#[test]
fn mains_state() {
    let mut fs = SysFs::new();
    assert_eq!(ac_online(&fs), None);
    fs.add_dir(s("/sys/class/power_supply"), names(&["BAT1", "ACAD"]));
    fs.add_file(s("/sys/class/power_supply/BAT1/type"), Some(s("Battery\n")));
    fs.add_file(s("/sys/class/power_supply/ACAD/type"), Some(s("Mains\n")));
    fs.add_file(s("/sys/class/power_supply/ACAD/online"), Some(s("1\n")));
    fs.add_file(s("/sys/class/power_supply/BAT1/current_now"), Some(s("-1500000")));
    fs.add_file(s("/sys/class/power_supply/BAT1/voltage_now"), Some(s("12000000")));
    fs.add_file(s("/sys/class/power_supply/BAT1/capacity"), Some(s("77")));
    assert_eq!(ac_online(&fs), Some(true));
    let b = battery(&fs).unwrap();
    assert_eq!(b.capacity_pct, Some(77));
    assert_eq!(b.power_uw, None);
    assert_eq!(b.current_ua, Some(-1_500_000));
    assert_eq!(b.voltage_uv, Some(12_000_000));
    assert_eq!(b.ac_online, Some(true));
    let supplies = nitro_hal::power::read(&fs);
    assert_eq!(supplies.len(), 2);
    assert_eq!(supplies[0].name, "ACAD");
    assert_eq!(supplies[0].online, Some(true));
    assert!(!supplies[1].charge_limit_supported);
}

#[test]
fn stat_counters() {
    let stat = "cpu  10 0 20 100 5 0 0 0 0 0\ncpu0 1 2 3 4\n";
    let t = CpuTimes::parse(stat).unwrap();
    assert_eq!(t.idle, 105);
    assert_eq!(t.total, 135);
    assert!(CpuTimes::parse("cpu0 1 2 3 4\n").is_none());
    assert!(CpuTimes::parse("cpu 1 2 3\n").is_none());
    assert!(CpuTimes::parse("").is_none());
    let t = CpuTimes::parse("cpu 1 x 2 3 4").unwrap();
    assert_eq!((t.idle, t.total), (4, 10));
    let older = CpuTimes { idle: 100, total: 200 };
    assert_eq!(older.busy_window(&CpuTimes { idle: 190, total: 300 }), Some((10, 100)));
}

#[test]
fn frequencies_in_listing_order() {
    let mut fs = SysFs::new();
    fs.add_dir(s("/sys/devices/system/cpu"), names(&["cpu1", "cpu0", "cpufreq"]));
    fs.add_file(s("/sys/devices/system/cpu/cpu1/cpufreq/scaling_cur_freq"), Some(s("2400000")));
    fs.add_file(s("/sys/devices/system/cpu/cpu0/cpufreq/scaling_cur_freq"), Some(s("800000")));
    assert_eq!(cpu_freqs_khz(&fs), vec![2_400_000, 800_000]);
}

#[test]
fn known_wmi_guids() {
    assert_eq!(known_label("7a4ddfe7-5b5d-40b4-8595-4408e0cc7f56"), Some(GAMING_LABEL));
    assert_eq!(known_label("67C3371D-95A3-4C37-BB61-DD47B491DAAB"), Some("Acer WMID"));
    assert_eq!(known_label("00000000-0000-0000-0000-000000000000"), None);
}

#[test]
fn wmi_devices_and_platform() {
    let mut fs = SysFs::new();
    fs.add_dir(s("/sys/bus/wmi/devices"), names(&["B", "A"]));
    fs.add_file(s("/sys/bus/wmi/devices/A/modalias"), Some(s("wmi:7A4DDFE7-5B5D-40B4-8595-4408E0CC7F56\n")));
    fs.add_link(s("/sys/bus/wmi/devices/A/driver"), s("acer-wmi"));
    fs.add_file(s("/sys/bus/wmi/devices/B/expensive"), Some(s("1")));
    let ws = nitro_hal::wmi::read(&fs);
    assert_eq!(ws.len(), 2);
    assert_eq!(ws[0].device, "A");
    assert_eq!(ws[0].guid.as_deref(), Some("7A4DDFE7-5B5D-40B4-8595-4408E0CC7F56"));
    assert_eq!(ws[0].known, Some(GAMING_LABEL));
    assert_eq!(ws[0].driver.as_deref(), Some("acer-wmi"));
    assert_eq!(ws[1].guid.as_deref(), Some("B"));
    assert_eq!(ws[1].expensive, Some(true));
    assert!(acer_platform(&fs).is_none());
    fs.add_dir(s("/sys/devices/platform/acer-wmi"), names(&["uevent", "zeta", "alpha", "sub", "empty"]));
    fs.add_file(s("/sys/devices/platform/acer-wmi/uevent"), Some(s("x")));
    fs.add_file(s("/sys/devices/platform/acer-wmi/zeta"), Some(s("2\n")));
    fs.add_file(s("/sys/devices/platform/acer-wmi/alpha"), Some(s("1")));
    fs.add_file(s("/sys/devices/platform/acer-wmi/empty"), Some(s("  ")));
    fs.add_dir(s("/sys/devices/platform/acer-wmi/sub"), names(&[]));
    let p = acer_platform(&fs).unwrap();
    assert_eq!(p.path, "/sys/devices/platform/acer-wmi");
    assert_eq!(p.attributes, vec![(s("alpha"), s("1")), (s("zeta"), s("2"))]);
}

#[test]
fn leds_and_display_controllers() {
    let mut fs = SysFs::new();
    fs.add_dir(s("/sys/class/leds"), names(&["input3::capslock", "rgb:KBD_backlight"]));
    fs.add_file(s("/sys/class/leds/rgb:KBD_backlight/multi_intensity"), Some(s("255 0 0")));
    fs.add_file(s("/sys/class/leds/rgb:KBD_backlight/brightness"), Some(s("3")));
    let leds = nitro_hal::leds::read(&fs);
    assert_eq!(leds.len(), 2);
    assert!(!leds[0].is_keyboard_candidate);
    assert!(leds[1].is_keyboard_candidate);
    assert_eq!(leds[1].brightness, Some(3));
    fs.add_dir(s("/sys/bus/pci/devices"), names(&["0000:01:00.0", "0000:00:02.0", "0000:00:14.0"]));
    fs.add_file(s("/sys/bus/pci/devices/0000:01:00.0/class"), Some(s("0x030000")));
    fs.add_file(s("/sys/bus/pci/devices/0000:01:00.0/vendor"), Some(s("0x10de")));
    fs.add_link(s("/sys/bus/pci/devices/0000:01:00.0/driver"), s("nvidia"));
    fs.add_file(s("/sys/bus/pci/devices/0000:00:02.0/class"), Some(s("0x030000")));
    fs.add_file(s("/sys/bus/pci/devices/0000:00:02.0/vendor"), Some(s("0x8086")));
    fs.add_file(s("/sys/bus/pci/devices/0000:00:14.0/class"), Some(s("0x0c0330")));
    let pci = nitro_hal::pci::read_display(&fs);
    assert_eq!(pci.len(), 2);
    assert_eq!(pci[0].slot, "0000:00:02.0");
    assert_eq!(pci[0].vendor_name, Some("Intel"));
    assert_eq!(pci[1].vendor_name, Some("NVIDIA"));
    assert_eq!(pci[1].driver.as_deref(), Some("nvidia"));
}

#[test]
fn hexdump_rows_of_sixteen() {
    let bytes: Vec<u8> = (0u8..20).collect();
    assert_eq!(
        hexdump(&bytes),
        "000: 00 01 02 03 04 05 06 07 08 09 0a 0b 0c 0d 0e 0f\n010: 10 11 12 13\n"
    );
    assert_eq!(hexdump(&[]), "");
    let big = vec![0xffu8; 257];
    let text = hexdump(&big);
    assert!(text.ends_with("100: ff\n"));
    assert_eq!(text.lines().count(), 17);
}

#[test]
fn ec_states() {
    let mut fs = SysFs::new();
    let info = nitro_hal::ec::read(&fs, Err(s("ignored")));
    assert!(!info.debugfs_present);
    assert_eq!(info.note.as_deref(), Some("EC debugfs absent. Load read-only with: sudo modprobe ec_sys"));
    fs.add_file(s("/sys/kernel/debug/ec/ec0/io"), None);
    fs.add_file(s("/sys/module/ec_sys/parameters/write_support"), Some(s("N\n")));
    let info = nitro_hal::ec::read(&fs, Err(s("Permission denied (os error 13)")));
    assert!(info.debugfs_present && !info.readable);
    assert_eq!(info.write_support, Some(false));
    assert_eq!(info.note.as_deref(), Some("EC present but unreadable (Permission denied (os error 13)); re-run as root"));
    let info = nitro_hal::ec::read(&fs, Ok(vec![1, 2]));
    assert!(info.readable);
    assert_eq!(info.size, Some(2));
    assert_eq!(info.dump_hex.as_deref(), Some("000: 01 02\n"));
}

#[test]
fn root_from_status() {
    assert!(euid_is_root("Name:\tx\nUid:\t1000\t0\t0\t0\n"));
    assert!(!euid_is_root("Name:\tx\nUid:\t0\t1000\t1000\t1000\n"));
    assert!(!euid_is_root("Uid: 0"));
    assert!(!euid_is_root(""));
}

#[test]
fn cpuinfo_scan() {
    let info = "processor\t: 0\nvendor_id\t: GenuineIntel\nmodel name\t: Intel(R) Core(TM) i7\nprocessor\t: 1\nmodel name\t: other\n";
    let c = parse_cpuinfo(info);
    assert_eq!(c.cores_logical, 2);
    assert_eq!(c.model.as_deref(), Some("Intel(R) Core(TM) i7"));
    assert_eq!(c.vendor.as_deref(), Some("GenuineIntel"));
}

#[test]
fn daemon_liveness() {
    let mut fs = SysFs::new();
    assert!(!daemon_running(&fs, None));
    assert!(!daemon_running(&fs, Some(0)));
    assert!(!daemon_running(&fs, Some(77)));
    fs.add_dir(s("/proc/77"), names(&[]));
    assert!(daemon_running(&fs, Some(77)));
}

#[test]
fn report_and_its_text() {
    let mut fs = chip_fs();
    fs.add_file(s("/proc/self/status"), Some(s("Name:\tnitro\nUid:\t1000\t1000\t1000\t1000\n")));
    fs.add_file(s("/sys/class/dmi/id/sys_vendor"), Some(s("Acer\n")));
    let r = run(&fs, 1700000000, "x86_64", Err(s("unused")), "Permission denied (os error 13)");
    assert!(!r.running_as_root);
    assert_eq!(r.kernel.arch, "x86_64");
    assert!(r.capabilities.temperatures_readable);
    assert!(r.capabilities.fan_rpm_readable);
    assert!(r.capabilities.pwm_present);
    assert!(r.capabilities.power_readable);
    assert!(!r.capabilities.nvidia_dgpu_present);
    assert_eq!(r.notes.len(), 2);
    assert_eq!(r.notes[1], "ACPI tables unreadable (Permission denied (os error 13)); re-run as root.");
    let temps: Vec<Vec<String>> = r
        .hwmon
        .iter()
        .map(|c| c.temps.iter().map(|t| format!("{:.1}C", t.millidegrees.unwrap_or(0) as f64 / 1000.0)).collect())
        .collect();
    let watts: Vec<Vec<String>> = r
        .hwmon
        .iter()
        .map(|c| c.powers.iter().map(|p| format!("{:.2}", p.microwatts.unwrap_or(0) as f64 / 1e6)).collect())
        .collect();
    let text = render_text(&r, &temps, &watts);
    assert!(text.starts_with("Nitro-Linux hardware discovery\ngenerated: unix 1700000000   root: no\n\n"));
    assert!(text.contains("  temperatures readable : yes\n"));
    assert!(text.contains("  vendor/model : Acer / ?\n"));
    assert!(text.contains("  [coretemp] /sys/class/hwmon/hwmon2\n"));
    assert!(text.contains("     temp1    63.0C  Package id 0\n"));
    assert!(text.contains("     temp3    -5.0C  \n"));
    assert!(text.contains("     fan1     2400 rpm  \n"));
    assert!(text.contains("     pwm1   raw=128 enable=2\n"));
    assert!(text.contains("     power1 15.50W  \n"));
    assert!(text.contains("== acpi tables ==\n  (none / need root)\n\n"));
    assert!(text.contains("== notes ==\n  - Not running as root"));
    assert!(text.ends_with("  3. Paste this report plus the key-capture output for analysis.\n"));
}

#[test]
fn telemetry_text() {
    let t = TelemetryFigures {
        cpu: CpuFigures {
            temp_c: Some(s("63.5")),
            utilization_pct: Some(s("12")),
            avg_freq_mhz: Some(s("2400")),
            max_freq_mhz: None,
            power_w: None,
        },
        gpu: Some(GpuFigures {
            name: s("RTX"),
            temp_c: Some(s("50")),
            utilization_pct: None,
            clock_mhz: Some(s("1500")),
            power_w: Some(s("20.1")),
        }),
        battery: Some(BatteryFigures { capacity_pct: Some(90), status: None, power_w: None, ac_online: Some(true) }),
        fans: vec![],
    };
    assert_eq!(
        render_telemetry(&t),
        "cpu   temp 63.5C  util 12%  freq 2400/- MHz  power -\ngpu   RTX temp 50C util - clock 1500MHz power 20.1W\nbatt  90%  -  -  ac=yes\nfans  (RPM interface not yet verified on this hardware)\n----\n"
    );
    let t = TelemetryFigures {
        cpu: CpuFigures { temp_c: None, utilization_pct: None, avg_freq_mhz: None, max_freq_mhz: None, power_w: None },
        gpu: None,
        battery: None,
        fans: vec![FanReading { name: s("cpu"), rpm: 3000 }],
    };
    assert_eq!(
        render_telemetry(&t),
        "cpu   temp -  util -  freq -/- MHz  power -\ngpu   n/a\nbatt  n/a\nfan   cpu 3000 rpm\n----\n"
    );
}
