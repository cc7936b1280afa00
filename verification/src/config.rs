//! Configuration of the daemon and the verbosity of its log.

use vstd::prelude::*;
use crate::speed::Speed;

verus! {

/// Socket path for daemon IPC.
pub const SOCKET_PATH: &'static str = "/tmp/agentic-robot.sock";

/// Configuration for the daemon process.
#[derive(Debug)]
pub struct DaemonConfig {
    pub host: String,
    pub port: u16,
    pub i2c_bus: String,
    pub i2c_addr: u8,
    pub left_factor: Speed,
    pub right_factor: Speed,
    pub swap_cameras: bool,
    pub max_speed: Speed,
    pub watchdog_timeout_secs: u64,
}

impl Default for DaemonConfig {
    /// Web server on `0.0.0.0:8080`, the motor board at `0x60` on
    /// `/dev/i2c-1`, the left motor reversed (`-1.0`, `1.0`), cameras not
    /// swapped, a limit of `0.8` and a watchdog of five seconds.
    fn default() -> (c: Self)
        ensures
            c.host@ == "0.0.0.0"@,
            c.port == 8080,
            c.i2c_bus@ == "/dev/i2c-1"@,
            c.i2c_addr == 0x60,
            c.left_factor.bits == 0xBF80_0000,
            c.right_factor.bits == 0x3F80_0000,
            !c.swap_cameras,
            c.max_speed.bits == 0x3F4C_CCCD,
            c.watchdog_timeout_secs == 5,
    {
        DaemonConfig {
            host: String::from_str("0.0.0.0"),
            port: 8080,
            i2c_bus: String::from_str("/dev/i2c-1"),
            i2c_addr: 0x60,
            left_factor: Speed { bits: 0xBF80_0000 },
            right_factor: Speed { bits: 0x3F80_0000 },
            swap_cameras: false,
            max_speed: Speed { bits: 0x3F4C_CCCD },
            watchdog_timeout_secs: 5,
        }
    }
}

/// Log filter for a verbosity level: info, then debug, then trace.
pub open spec fn filter_text(verbose: u8) -> Seq<char> {
    if verbose == 0 {
        "agentic_robot=info"@
    } else if verbose == 1 {
        "agentic_robot=debug"@
    } else {
        "agentic_robot=trace"@
    }
}

/// The log filter used when the environment names none.
pub fn tracing_filter(verbose: u8) -> (f: &'static str)
    ensures
        f@ == filter_text(verbose),
{
    match verbose {
        0 => "agentic_robot=info",
        1 => "agentic_robot=debug",
        _ => "agentic_robot=trace",
    }
}

} // verus!
