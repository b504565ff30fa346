//! The runtime state the daemon publishes so the unprivileged CLI can report
//! what it is doing without any IPC socket.

use vstd::prelude::*;
use crate::sysfs::SysFs;
use crate::text::{dec_string, push_dec};

verus! {

pub const RUN_DIR: &'static str = "/run/nitro";

pub const STATE_PATH: &'static str = "/run/nitro/state.json";

pub const PID_PATH: &'static str = "/run/nitro/nitrod.pid";

/// The /proc directory of a process.
pub open spec fn proc_dir(pid: u32) -> Seq<char> {
    "/proc/"@ + dec_string(pid as nat)
}

pub fn proc_path(pid: u32) -> (p: String)
    ensures
        p@ == proc_dir(pid),
{
    let mut p = String::from_str("/proc/");
    push_dec(&mut p, pid as u64);
    p
}

/// `daemon_running`: a state file records a non-zero daemon PID and that
/// process is alive (its /proc directory exists).
pub open spec fn spec_daemon_running(fs: SysFs, recorded_pid: Option<u32>) -> bool {
    match recorded_pid {
        Some(pid) => pid != 0 && fs.spec_exists(proc_dir(pid)),
        None => false,
    }
}

/// True if a daemon process matching the recorded PID is currently alive.
/// `recorded_pid` is the PID in the published state, none when there is no
/// readable state.
pub fn daemon_running(fs: &SysFs, recorded_pid: Option<u32>) -> (b: bool)
    ensures
        b == spec_daemon_running(*fs, recorded_pid),
{
    match recorded_pid {
        Some(pid) => {
            if pid == 0 {
                return false;
            }
            fs.path_exists(&proc_path(pid))
        },
        None => false,
    }
}

/// What the daemon publishes each iteration. The temperature is in
/// millidegrees Celsius.
#[derive(Debug)]
pub struct State {
    pub profile: String,
    pub auto_switch: bool,
    pub cpu_temp_mc: Option<i64>,
    pub ac_online: Option<bool>,
    pub thermal_guard_active: bool,
    pub charge_limit: Option<u8>,
    pub hotkey_bound: bool,
    pub updated_unix: u64,
    pub daemon_pid: u32,
}

} // verus!
