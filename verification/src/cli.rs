//! What each client subcommand makes of the daemon's reply.

use vstd::prelude::*;
use crate::ipc::{DaemonResponse, RobotStatus};

verus! {

/// Message of a reply of the wrong kind.
pub open spec fn unexpected_text() -> Seq<char> {
    "unexpected response from daemon"@
}

fn failure(prefix: &str, message: &String) -> (s: String)
    ensures
        s@ == prefix@ + message@,
{
    let mut s = String::from_str(prefix);
    s.append(message.as_str());
    s
}

/// `capture` and `look`: the frame's path to print, or the failure message.
pub fn capture_outcome(response: DaemonResponse) -> (r: Result<String, String>)
    ensures
        match response {
            DaemonResponse::Frame { path } => r == Ok::<String, String>(path),
            DaemonResponse::Error { message } => r matches Err(m) && m@ == "capture failed: "@ + message@,
            _ => r matches Err(m) && m@ == unexpected_text(),
        },
{
    match response {
        DaemonResponse::Frame { path } => Ok(path),
        DaemonResponse::Error { message } => Err(failure("capture failed: ", &message)),
        _ => Err(String::from_str("unexpected response from daemon")),
    }
}

/// `drive`: success, or the failure message.
pub fn drive_outcome(response: DaemonResponse) -> (r: Result<(), String>)
    ensures
        match response {
            DaemonResponse::Success => r is Ok,
            DaemonResponse::Error { message } => r matches Err(m) && m@ == "drive failed: "@ + message@,
            _ => r matches Err(m) && m@ == unexpected_text(),
        },
{
    match response {
        DaemonResponse::Success => Ok(()),
        DaemonResponse::Error { message } => Err(failure("drive failed: ", &message)),
        _ => Err(String::from_str("unexpected response from daemon")),
    }
}

/// `stop`: success, or the failure message.
pub fn stop_outcome(response: DaemonResponse) -> (r: Result<(), String>)
    ensures
        match response {
            DaemonResponse::Success => r is Ok,
            DaemonResponse::Error { message } => r matches Err(m) && m@ == "stop failed: "@ + message@,
            _ => r matches Err(m) && m@ == unexpected_text(),
        },
{
    match response {
        DaemonResponse::Success => Ok(()),
        DaemonResponse::Error { message } => Err(failure("stop failed: ", &message)),
        _ => Err(String::from_str("unexpected response from daemon")),
    }
}

/// `status`: the status to print, or the failure message.
pub fn status_outcome(response: DaemonResponse) -> (r: Result<RobotStatus, String>)
    ensures
        match response {
            DaemonResponse::Status(st) => r == Ok::<RobotStatus, String>(st),
            DaemonResponse::Error { message } => r matches Err(m) && m@ == "status failed: "@ + message@,
            _ => r matches Err(m) && m@ == unexpected_text(),
        },
{
    match response {
        DaemonResponse::Status(st) => Ok(st),
        DaemonResponse::Error { message } => Err(failure("status failed: ", &message)),
        _ => Err(String::from_str("unexpected response from daemon")),
    }
}

/// `log`: success, or the failure message.
pub fn log_outcome(response: DaemonResponse) -> (r: Result<(), String>)
    ensures
        match response {
            DaemonResponse::Success => r is Ok,
            DaemonResponse::Error { message } => r matches Err(m) && m@ == "log failed: "@ + message@,
            _ => r matches Err(m) && m@ == unexpected_text(),
        },
{
    match response {
        DaemonResponse::Success => Ok(()),
        DaemonResponse::Error { message } => Err(failure("log failed: ", &message)),
        _ => Err(String::from_str("unexpected response from daemon")),
    }
}

} // verus!
