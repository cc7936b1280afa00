//! The error type of the robot, and the text each error shows.

use vstd::prelude::*;

verus! {

/// Everything that can go wrong while serving a command.
///
/// Errors raised by outside code (the motor driver, the file system) are
/// held by the text they display.
#[derive(Debug)]
pub enum AppError {
    Camera(String),
    Motor(String),
    Ipc(String),
    DaemonNotRunning,
    WatchdogTimeout,
    Io(String),
    Other(String),
}

/// The text an error shows.
pub open spec fn error_text(e: AppError) -> Seq<char> {
    match e {
        AppError::Camera(m) => "camera error: "@ + m@,
        AppError::Motor(m) => "motor error: "@ + m@,
        AppError::Ipc(m) => "IPC error: "@ + m@,
        AppError::DaemonNotRunning => "daemon not running"@,
        AppError::WatchdogTimeout => "watchdog timeout — motors stopped"@,
        AppError::Io(m) => "IO error: "@ + m@,
        AppError::Other(m) => m@,
    }
}

impl AppError {
    /// The text this error shows.
    pub fn message(&self) -> (s: String)
        ensures
            s@ == error_text(*self),
    {
        match self {
            AppError::Camera(m) => {
                let mut s = String::from_str("camera error: ");
                s.append(m.as_str());
                s
            },
            AppError::Motor(m) => {
                let mut s = String::from_str("motor error: ");
                s.append(m.as_str());
                s
            },
            AppError::Ipc(m) => {
                let mut s = String::from_str("IPC error: ");
                s.append(m.as_str());
                s
            },
            AppError::DaemonNotRunning => String::from_str("daemon not running"),
            AppError::WatchdogTimeout => String::from_str("watchdog timeout — motors stopped"),
            AppError::Io(m) => {
                let mut s = String::from_str("IO error: ");
                s.append(m.as_str());
                s
            },
            AppError::Other(m) => m.clone(),
        }
    }
}

} // verus!
