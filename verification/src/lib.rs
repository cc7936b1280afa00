//! Verified core of an autonomous two-motor robot driven by an AI agent.
//!
//! The crate holds the decisions of the robot daemon: the motor dead zone and
//! speed limit, the history journal with its retention rule, the camera
//! pipeline description, the watchdog and command state machines, and the
//! interpretation of daemon replies. Hardware, sockets, the web server and
//! the clock-driven loops live in the `app/` crate around it.

pub mod speed;
pub mod text;
pub mod time;
pub mod error;
pub mod motor;
pub mod listing;
pub mod history;
pub mod camera;
pub mod ipc;
pub mod config;
pub mod safety;
pub mod daemon;
pub mod server;
pub mod cli;
