//! The daemon's decisions: what each command asks of the hardware, what the
//! client is answered once the hardware has done its part, and the status
//! report.
//!
//! Serving a command alternates outside work (camera, disk, motors) with
//! decisions. The application performs each step and hands its outcome back
//! to the function that decides the next one.

use vstd::prelude::*;
use crate::camera::StereoFrame;
use crate::config::DaemonConfig;
use crate::error::{AppError, error_text};
use crate::ipc::{DaemonCommand, DaemonResponse, RobotStatus};
use crate::speed::Speed;
use crate::time::{
    Timestamp, clock_now, format_rfc3339, CLOCK_UNREADABLE, format_stamp, rfc3339_text, seconds_between,
    strftime_text, truncated_seconds, whole_seconds_between, lemma_whole_seconds_truncate, STAMP_PATTERN,
};

verus! {

/// The first step of serving a command.
#[derive(Debug)]
pub enum CommandStep {
    /// Capture a frame, then call `after_capture`.
    Capture { output_path: Option<String> },
    /// Send the speeds to the motor controller, then call `after_drive`.
    Drive { left: Speed, right: Speed },
    /// Stop the motors, then call `after_stop`.
    Stop,
    /// Count the history entries, then answer with `status`.
    Status,
    /// Append the message to the history, then call `after_log`.
    Log { message: String },
    /// Nothing to do but answer.
    Reply(DaemonResponse),
}

/// How serving a command starts: whether it counts as activity for the
/// watchdog (every command does), and the first step.
#[derive(Debug)]
pub struct CommandStart {
    pub ping_watchdog: bool,
    pub step: CommandStep,
}

/// The step after a capture.
#[derive(Debug)]
pub enum CaptureStep {
    /// Save the frame at the path, then call `after_save`.
    Save { path: String, frame: StereoFrame },
    /// Answer.
    Reply(DaemonResponse),
}

/// The step after a saved frame.
#[derive(Debug)]
pub enum SaveStep {
    /// Open a history entry for the frame, then answer with `entry_created`.
    CreateEntry { path: String },
    /// Answer.
    Reply(DaemonResponse),
}

/// The step after the motors were driven.
#[derive(Debug)]
pub enum DriveStep {
    /// Record the command in the history, then answer with `command_recorded`.
    Record { left: Speed, right: Speed },
    /// Answer.
    Reply(DaemonResponse),
}

/// A reply of a web request.
#[derive(Debug)]
pub enum WebReply {
    /// `200 OK` with a JPEG body.
    Jpeg(Vec<u8>),
    /// A plain-text body with the given status code.
    Text { status: u16, body: String },
}

/// An error reply whose message is `prefix` followed by the error's text.
pub open spec fn error_reply(r: DaemonResponse, prefix: Seq<char>, e: AppError) -> bool {
    r matches DaemonResponse::Error { message } && message@ == prefix + error_text(e)
}

/// A reply carrying the given text as its error message.
pub open spec fn error_message_is(r: DaemonResponse, text: Seq<char>) -> bool {
    r matches DaemonResponse::Error { message } && message@ == text
}

/// Path of a frame saved without an explicit path: `<data_dir>/frames/<stamp>.jpg`.
pub open spec fn default_frame_path(data_dir: Seq<char>, t: Timestamp) -> Seq<char> {
    data_dir + "/frames/"@ + strftime_text(t.secs, t.nanos, STAMP_PATTERN@) + ".jpg"@
}

fn prefixed(prefix: &str, e: &AppError) -> (s: String)
    ensures
        s@ == prefix@ + error_text(*e),
{
    let mut s = String::from_str(prefix);
    let m = e.message();
    s.append(m.as_str());
    s
}

/// Shared state of the daemon: the configuration, whether a motor
/// controller is present, when the last command and capture arrived, and
/// the latest frame for the dashboard.
pub struct DaemonState {
    config: DaemonConfig,
    has_motor: bool,
    started_at: Timestamp,
    last_command_at: Option<Timestamp>,
    last_capture_at: Option<Timestamp>,
    latest_frame: Option<Vec<u8>>,
}

/// The uptime reported for a clock reading `now` and a start `start`: the
/// whole seconds between them (as `chrono` counts them, which away from leap
/// seconds is the difference truncated toward zero), or `0` when the clock
/// could not be read.
pub open spec fn uptime_reading(uptime: u64, now: Option<Timestamp>, start: Timestamp) -> bool {
    match now {
        Some(t) => {
            &&& uptime == whole_seconds_between(t.secs, t.nanos, start.secs, start.nanos) as u64
            &&& (t.nanos < 1_000_000_000 && start.nanos < 1_000_000_000 ==> uptime == truncated_seconds(
                t.secs as int,
                t.nanos as int,
                start.secs as int,
                start.nanos as int,
            ) as u64)
        },
        None => uptime == 0,
    }
}

/// The uptime reported for what a call of `clock_now` returned.
pub open spec fn uptime_from(uptime: u64, start: Timestamp) -> bool {
    exists|now: Option<Timestamp>| #[trigger] call_ensures(clock_now, (), now) && uptime_reading(uptime, now, start)
}

/// A stamp set to the clock's reading `now`, or left as it was (`before`)
/// when there is none.
pub open spec fn stamp(before: Option<Timestamp>, now: Option<Timestamp>) -> Option<Timestamp> {
    match now {
        Some(t) => Some(t),
        None => before,
    }
}

/// A stamp set to what a call of `clock_now` returned (left as it was,
/// `before`, when that was none).
pub open spec fn restamped(before: Option<Timestamp>, after: Option<Timestamp>) -> bool {
    exists|now: Option<Timestamp>| #[trigger] call_ensures(clock_now, (), now) && after == stamp(before, now)
}

pub open spec fn valid_opt(t: Option<Timestamp>) -> bool {
    match t {
        Some(t) => t.valid(),
        None => true,
    }
}

impl DaemonState {
    #[verifier::type_invariant]
    spec fn instants_valid(self) -> bool {
        &&& self.started_at.valid()
        &&& valid_opt(self.last_command_at)
        &&& valid_opt(self.last_capture_at)
    }

    pub closed spec fn motor_present(&self) -> bool {
        self.has_motor
    }

    pub closed spec fn max_speed_setting(&self) -> Speed {
        self.config.max_speed
    }

    pub closed spec fn timeout_setting(&self) -> u64 {
        self.config.watchdog_timeout_secs
    }

    /// The whole configuration.
    pub closed spec fn settings(&self) -> DaemonConfig {
        self.config
    }

    pub closed spec fn start(&self) -> Timestamp {
        self.started_at
    }

    pub closed spec fn last_command(&self) -> Option<Timestamp> {
        self.last_command_at
    }

    pub closed spec fn last_capture(&self) -> Option<Timestamp> {
        self.last_capture_at
    }

    pub closed spec fn frame(&self) -> Option<Seq<u8>> {
        match self.latest_frame {
            Some(f) => Some(f@),
            None => None,
        }
    }

    /// Everything but the command and capture instants and the frame.
    pub open spec fn same_setup(&self, other: &DaemonState) -> bool {
        &&& self.motor_present() == other.motor_present()
        &&& self.max_speed_setting() == other.max_speed_setting()
        &&& self.timeout_setting() == other.timeout_setting()
        &&& self.settings() == other.settings()
        &&& self.start() == other.start()
    }

    /// The state of a daemon started at `started_at`.
    pub fn new_at(config: DaemonConfig, has_motor: bool, started_at: Timestamp) -> (s: Self)
        requires
            started_at.valid(),
        ensures
            s.motor_present() == has_motor,
            s.settings() == config,
            s.start() == started_at,
            s.last_command() is None,
            s.last_capture() is None,
            s.frame() is None,
    {
        DaemonState {
            config,
            has_motor,
            started_at,
            last_command_at: None,
            last_capture_at: None,
            latest_frame: None,
        }
    }

    /// The state of a daemon starting now (`new_at` at the clock's
    /// reading); `None` when the clock cannot be read as an instant.
    pub fn new(config: DaemonConfig, has_motor: bool) -> (r: Option<Self>)
        ensures
            exists|now: Option<Timestamp>| #[trigger] call_ensures(clock_now, (), now) && match now {
                None => r is None,
                Some(t) => r matches Some(s) && {
                    &&& s.motor_present() == has_motor
                    &&& s.settings() == config
                    &&& s.start() == t
                    &&& s.last_command() is None
                    &&& s.last_capture() is None
                    &&& s.frame() is None
                },
            },
    {
        let now = clock_now();
        match now {
            None => None,
            Some(started_at) => Some(DaemonState::new_at(config, has_motor, started_at)),
        }
    }

    /// The configuration the daemon runs with.
    pub fn config(&self) -> (c: &DaemonConfig)
        ensures
            *c == self.settings(),
    {
        &self.config
    }

    /// Whether a motor controller is present.
    pub fn has_motor(&self) -> (b: bool)
        ensures
            b == self.motor_present(),
    {
        self.has_motor
    }

    /// Takes a command at the clock reading `now`: every command counts as
    /// activity for the watchdog and is stamped as the last command with the
    /// reading (the stamp stays as it was when there is none); drive and stop
    /// go to the motors only when a controller is present (drive is refused
    /// without one, stop succeeds trivially).
    pub fn begin_command_at(&mut self, cmd: DaemonCommand, now: Option<Timestamp>) -> (start: CommandStart)
        requires
            valid_opt(now),
        ensures
            final(self).same_setup(old(self)),
            final(self).last_command() == stamp(old(self).last_command(), now),
            final(self).last_capture() == old(self).last_capture(),
            final(self).frame() == old(self).frame(),
            start.ping_watchdog,
            match cmd {
                DaemonCommand::Capture { output_path } => start.step == (CommandStep::Capture { output_path }),
                DaemonCommand::Drive { left, right } =>
                    if old(self).motor_present() {
                        start.step == (CommandStep::Drive { left, right })
                    } else {
                        start.step matches CommandStep::Reply(r) && error_message_is(r, "no motor controller available"@)
                    },
                DaemonCommand::Stop =>
                    if old(self).motor_present() {
                        start.step == CommandStep::Stop
                    } else {
                        start.step matches CommandStep::Reply(DaemonResponse::Success)
                    },
                DaemonCommand::Status => start.step == CommandStep::Status,
                DaemonCommand::Log { message } => start.step == (CommandStep::Log { message }),
            },
    {
        proof {
            use_type_invariant(&*self);
        }
        match now {
            Some(t) => {
                self.last_command_at = Some(t);
            },
            None => {},
        }
        let step = match cmd {
            DaemonCommand::Capture { output_path } => CommandStep::Capture { output_path },
            DaemonCommand::Drive { left, right } => {
                if self.has_motor {
                    CommandStep::Drive { left, right }
                } else {
                    CommandStep::Reply(DaemonResponse::Error {
                        message: String::from_str("no motor controller available"),
                    })
                }
            },
            DaemonCommand::Stop => {
                if self.has_motor {
                    CommandStep::Stop
                } else {
                    CommandStep::Reply(DaemonResponse::Success)
                }
            },
            DaemonCommand::Status => CommandStep::Status,
            DaemonCommand::Log { message } => CommandStep::Log { message },
        };
        CommandStart { ping_watchdog: true, step }
    }


    /// Takes a command: `begin_command_at` at the clock's reading.
    pub fn begin_command(&mut self, cmd: DaemonCommand) -> (start: CommandStart)
        ensures
            final(self).same_setup(old(self)),
            restamped(old(self).last_command(), final(self).last_command()),
            final(self).last_capture() == old(self).last_capture(),
            final(self).frame() == old(self).frame(),
            start.ping_watchdog,
            match cmd {
                DaemonCommand::Capture { output_path } => start.step == (CommandStep::Capture { output_path }),
                DaemonCommand::Drive { left, right } =>
                    if old(self).motor_present() {
                        start.step == (CommandStep::Drive { left, right })
                    } else {
                        start.step matches CommandStep::Reply(r) && error_message_is(r, "no motor controller available"@)
                    },
                DaemonCommand::Stop =>
                    if old(self).motor_present() {
                        start.step == CommandStep::Stop
                    } else {
                        start.step matches CommandStep::Reply(DaemonResponse::Success)
                    },
                DaemonCommand::Status => start.step == CommandStep::Status,
                DaemonCommand::Log { message } => start.step == (CommandStep::Log { message }),
            },
    {
        let now = clock_now();
        self.begin_command_at(cmd, now)
    }

    /// After a capture, with the clock reading `now`: a captured frame is
    /// saved at the requested path, or under the history's frame directory
    /// named by the reading; a failed capture is reported, and so is a
    /// missing reading when the frame is to be named by it.
    pub fn after_capture_at(
        &self,
        captured: Result<StereoFrame, AppError>,
        output_path: Option<String>,
        data_dir: &str,
        now: Option<Timestamp>,
    ) -> (step: CaptureStep)
        requires
            valid_opt(now),
        ensures
            match captured {
                Err(e) => step matches CaptureStep::Reply(r) && error_reply(r, "capture failed: "@, e),
                Ok(frame) => match output_path {
                    Some(p) => step == (CaptureStep::Save { path: p, frame }),
                    None => match now {
                        Some(t) => step matches CaptureStep::Save { path, frame: saved } && saved == frame
                            && path@ == default_frame_path(data_dir@, t),
                        None => step matches CaptureStep::Reply(r) && error_message_is(
                            r,
                            "capture failed: "@ + CLOCK_UNREADABLE@,
                        ),
                    },
                },
            },
    {
        match captured {
            Err(e) => CaptureStep::Reply(DaemonResponse::Error { message: prefixed("capture failed: ", &e) }),
            Ok(frame) => {
                match output_path {
                    Some(p) => CaptureStep::Save { path: p, frame },
                    None => match now {
                        Some(t) => {
                            let mut p = String::from_str(data_dir);
                            p.append("/frames/");
                            let name = format_stamp(&t, STAMP_PATTERN);
                            p.append(name.as_str());
                            p.append(".jpg");
                            assert(p@ == default_frame_path(data_dir@, t));
                            CaptureStep::Save { path: p, frame }
                        },
                        None => {
                            let mut message = String::from_str("capture failed: ");
                            message.append(CLOCK_UNREADABLE);
                            CaptureStep::Reply(DaemonResponse::Error { message })
                        },
                    },
                }
            },
        }
    }

    /// After a capture: `after_capture_at`, with the clock read when a
    /// captured frame is to be named by the current instant.
    pub fn after_capture(
        &self,
        captured: Result<StereoFrame, AppError>,
        output_path: Option<String>,
        data_dir: &str,
    ) -> (step: CaptureStep)
        ensures
            exists|now: Option<Timestamp>| #![trigger valid_opt(now)]
                {
                    &&& valid_opt(now)
                    &&& if captured is Ok && output_path is None {
                        call_ensures(clock_now, (), now)
                    } else {
                        now is None
                    }
                    &&& match captured {
                        Err(e) => step matches CaptureStep::Reply(r) && error_reply(r, "capture failed: "@, e),
                        Ok(frame) => match output_path {
                            Some(p) => step == (CaptureStep::Save { path: p, frame }),
                            None => match now {
                                Some(t) => step matches CaptureStep::Save { path, frame: saved } && saved == frame
                                    && path@ == default_frame_path(data_dir@, t),
                                None => step matches CaptureStep::Reply(r) && error_message_is(
                                    r,
                                    "capture failed: "@ + CLOCK_UNREADABLE@,
                                ),
                            },
                        },
                    }
                },
    {
        let now = if captured.is_ok() && output_path.is_none() {
            clock_now()
        } else {
            None
        };
        let step = self.after_capture_at(captured, output_path, data_dir, now);
        assert(valid_opt(now));
        step
    }

    /// After saving a frame, with the clock reading `now` taken after the
    /// save: the frame becomes the latest one and the capture is stamped with
    /// the reading (the stamp stays as it was when there is none); then the
    /// history entry is opened. A failed save is reported and changes nothing.
    pub fn after_save_at(
        &mut self,
        path: String,
        frame: StereoFrame,
        saved: Result<(), AppError>,
        now: Option<Timestamp>,
    ) -> (step: SaveStep)
        requires
            valid_opt(now),
        ensures
            final(self).same_setup(old(self)),
            final(self).last_command() == old(self).last_command(),
            match saved {
                Err(e) => {
                    &&& step matches SaveStep::Reply(r) && error_reply(r, "save failed: "@, e)
                    &&& final(self).frame() == old(self).frame()
                    &&& final(self).last_capture() == old(self).last_capture()
                },
                Ok(()) => {
                    &&& step == (SaveStep::CreateEntry { path })
                    &&& final(self).frame() == Some(frame.jpeg_data@)
                    &&& final(self).last_capture() == stamp(old(self).last_capture(), now)
                },
            },
    {
        proof {
            use_type_invariant(&*self);
        }
        match saved {
            Err(e) => SaveStep::Reply(DaemonResponse::Error { message: prefixed("save failed: ", &e) }),
            Ok(()) => {
                self.latest_frame = Some(frame.jpeg_data);
                match now {
                    Some(t) => {
                        self.last_capture_at = Some(t);
                    },
                    None => {},
                }
                SaveStep::CreateEntry { path }
            },
        }
    }

    /// After saving a frame: `after_save_at`, with the clock read after a
    /// successful save.
    pub fn after_save(&mut self, path: String, frame: StereoFrame, saved: Result<(), AppError>) -> (step: SaveStep)
        ensures
            final(self).same_setup(old(self)),
            final(self).last_command() == old(self).last_command(),
            match saved {
                Err(e) => {
                    &&& step matches SaveStep::Reply(r) && error_reply(r, "save failed: "@, e)
                    &&& final(self).frame() == old(self).frame()
                    &&& final(self).last_capture() == old(self).last_capture()
                },
                Ok(()) => {
                    &&& step == (SaveStep::CreateEntry { path })
                    &&& final(self).frame() == Some(frame.jpeg_data@)
                    &&& restamped(old(self).last_capture(), final(self).last_capture())
                },
            },
    {
        let now = if saved.is_ok() {
            clock_now()
        } else {
            None
        };
        self.after_save_at(path, frame, saved, now)
    }

    /// The answer to a capture once its history entry was opened: the
    /// frame's path, whether or not the history accepted the entry.
    pub fn entry_created(path: String, created: Result<String, std::io::Error>) -> (r: DaemonResponse)
        ensures
            r == (DaemonResponse::Frame { path }),
    {
        DaemonResponse::Frame { path }
    }

    /// After driving: a successful command is recorded in the history; a
    /// failure is reported and not recorded.
    pub fn after_drive(left: Speed, right: Speed, driven: Result<(), AppError>) -> (step: DriveStep)
        ensures
            match driven {
                Ok(()) => step == (DriveStep::Record { left, right }),
                Err(e) => step matches DriveStep::Reply(r) && error_reply(r, "drive failed: "@, e),
            },
    {
        match driven {
            Ok(()) => DriveStep::Record { left, right },
            Err(e) => DriveStep::Reply(DaemonResponse::Error { message: prefixed("drive failed: ", &e) }),
        }
    }

    /// The answer to a drive once it was recorded: success, whether or not
    /// the history accepted the record.
    pub fn command_recorded(recorded: Result<(), std::io::Error>) -> (r: DaemonResponse)
        ensures
            r == DaemonResponse::Success,
    {
        DaemonResponse::Success
    }

    /// The answer to a stop.
    pub fn after_stop(stopped: Result<(), AppError>) -> (r: DaemonResponse)
        ensures
            match stopped {
                Ok(()) => r == DaemonResponse::Success,
                Err(e) => error_reply(r, "stop failed: "@, e),
            },
    {
        match stopped {
            Ok(()) => DaemonResponse::Success,
            Err(e) => DaemonResponse::Error { message: prefixed("stop failed: ", &e) },
        }
    }

    /// The answer to a log message, given the text of the history's error
    /// if it refused the message.
    pub fn after_log(logged: Result<(), String>) -> (r: DaemonResponse)
        ensures
            match logged {
                Ok(()) => r == DaemonResponse::Success,
                Err(text) => error_message_is(r, "log failed: "@ + text@),
            },
    {
        match logged {
            Ok(()) => DaemonResponse::Success,
            Err(text) => {
                let mut message = String::from_str("log failed: ");
                message.append(text.as_str());
                DaemonResponse::Error { message }
            },
        }
    }

    /// The status report, with the given number of history entries and the
    /// clock reading `now`: the uptime is the whole seconds from the start to
    /// the reading, or `0` when there is none.
    pub fn get_status_at(&self, history_entries: u64, now: Option<Timestamp>) -> (st: RobotStatus)
        requires
            valid_opt(now),
        ensures
            st.running,
            st.max_speed == self.max_speed_setting(),
            st.watchdog_timeout_secs == self.timeout_setting(),
            st.history_entries == history_entries,
            match self.last_command() {
                Some(t) => st.last_command_at matches Some(s) && s@ == rfc3339_text(t.secs, t.nanos),
                None => st.last_command_at is None,
            },
            match self.last_capture() {
                Some(t) => st.last_capture_at matches Some(s) && s@ == rfc3339_text(t.secs, t.nanos),
                None => st.last_capture_at is None,
            },
            uptime_reading(st.uptime_secs, now, self.start()),
    {
        proof {
            use_type_invariant(self);
        }
        let last_command_at = match &self.last_command_at {
            Some(t) => Some(format_rfc3339(t)),
            None => None,
        };
        let last_capture_at = match &self.last_capture_at {
            Some(t) => Some(format_rfc3339(t)),
            None => None,
        };
        let uptime_secs: u64 = match &now {
            Some(t) => {
                let secs = seconds_between(t, &self.started_at);
                proof {
                    if t.nanos < 1_000_000_000 && self.started_at.nanos < 1_000_000_000 {
                        lemma_whole_seconds_truncate(*t, self.started_at);
                    }
                }
                secs as u64
            },
            None => 0,
        };
        RobotStatus {
            running: true,
            max_speed: self.config.max_speed,
            watchdog_timeout_secs: self.config.watchdog_timeout_secs,
            last_command_at,
            last_capture_at,
            history_entries,
            uptime_secs,
        }
    }

    /// The status report, with the given number of history entries:
    /// `get_status_at` at the clock's reading.
    pub fn get_status(&self, history_entries: u64) -> (st: RobotStatus)
        ensures
            st.running,
            st.max_speed == self.max_speed_setting(),
            st.watchdog_timeout_secs == self.timeout_setting(),
            st.history_entries == history_entries,
            match self.last_command() {
                Some(t) => st.last_command_at matches Some(s) && s@ == rfc3339_text(t.secs, t.nanos),
                None => st.last_command_at is None,
            },
            match self.last_capture() {
                Some(t) => st.last_capture_at matches Some(s) && s@ == rfc3339_text(t.secs, t.nanos),
                None => st.last_capture_at is None,
            },
            uptime_from(st.uptime_secs, self.start()),
    {
        let now = clock_now();
        self.get_status_at(history_entries, now)
    }

    /// The dashboard's latest frame: the JPEG, or `404` before any capture.
    pub fn frame_reply(&self) -> (r: WebReply)
        ensures
            match self.frame() {
                Some(f) => r matches WebReply::Jpeg(data) && data@ == f,
                None => r matches WebReply::Text { status, body } && status == 404 && body@ == "no frame captured yet"@,
            },
    {
        match &self.latest_frame {
            Some(data) => {
                let copy = data.clone();
                proof {
                    assert(copy@ =~= data@);
                }
                WebReply::Jpeg(copy)
            },
            None => WebReply::Text { status: 404, body: String::from_str("no frame captured yet") },
        }
    }
}

/// The answer to a line that is not a command, given the parser's message.
pub fn invalid_command_reply(parse_error: String) -> (r: DaemonResponse)
    ensures
        error_message_is(r, "invalid command: "@ + parse_error@),
{
    let mut message = String::from_str("invalid command: ");
    message.append(parse_error.as_str());
    DaemonResponse::Error { message }
}

/// Whether the watchdog's timeout handler stops the motors: only when a
/// motor controller is present.
pub fn watchdog_stops_motors(has_motor: bool) -> (b: bool)
    ensures
        b == has_motor,
{
    has_motor
}

/// A stamp always takes the clock reading when there is one, whatever it
/// held before, and is left exactly as it was when there is none: each
/// command (or saved capture) read at `t` leaves `Some(t)` as the last one.
pub proof fn lemma_stamp_takes_the_reading(before: Option<Timestamp>, now: Option<Timestamp>)
    ensures
        now matches Some(t) ==> stamp(before, now) == Some(t),
        now is None ==> stamp(before, now) == before,
{
}

} // verus!
