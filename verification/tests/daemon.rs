use agentic_robot::camera::{CameraCapture, MockCapture};
use agentic_robot::config::DaemonConfig;
use agentic_robot::daemon::{
    watchdog_stops_motors, CaptureStep, CommandStep, DaemonState, DriveStep, SaveStep, WebReply,
};
use agentic_robot::error::AppError;
use agentic_robot::ipc::{DaemonCommand, DaemonResponse};
use agentic_robot::speed::Speed;

fn speed(v: f32) -> Speed {
    Speed::from_bits(v.to_bits())
}

fn begin(state: &mut DaemonState, cmd: DaemonCommand) -> CommandStep {
    let start = state.begin_command(cmd);
    assert!(start.ping_watchdog, "every command is watchdog activity");
    start.step
}

fn error_message(r: DaemonResponse) -> String {
    match r {
        DaemonResponse::Error { message } => message,
        other => panic!("expected an error reply, got {other:?}"),
    }
}

#[test]
fn drive_without_motor_is_refused() {
    let mut state = DaemonState::new(DaemonConfig::default(), false).unwrap();
    match begin(&mut state, DaemonCommand::Drive { left: speed(0.6), right: speed(0.6) }) {
        CommandStep::Reply(r) => assert_eq!(error_message(r), "no motor controller available"),
        other => panic!("unexpected step {other:?}"),
    }
}

#[test]
fn stop_without_motor_succeeds() {
    let mut state = DaemonState::new(DaemonConfig::default(), false).unwrap();
    match begin(&mut state, DaemonCommand::Stop) {
        CommandStep::Reply(DaemonResponse::Success) => {}
        other => panic!("unexpected step {other:?}"),
    }
}

#[test]
fn drive_with_motor_goes_to_motors() {
    let mut state = DaemonState::new(DaemonConfig::default(), true).unwrap();
    match begin(&mut state, DaemonCommand::Drive { left: speed(0.6), right: speed(-0.6) }) {
        CommandStep::Drive { left, right } => {
            assert_eq!(left, speed(0.6));
            assert_eq!(right, speed(-0.6));
        }
        other => panic!("unexpected step {other:?}"),
    }
    match begin(&mut state, DaemonCommand::Stop) {
        CommandStep::Stop => {}
        other => panic!("unexpected step {other:?}"),
    }
}

#[test]
fn commands_stamp_last_command_in_status() {
    let mut state = DaemonState::new(DaemonConfig::default(), true).unwrap();
    let before = state.get_status(0);
    assert!(before.running);
    assert!(before.last_command_at.is_none());
    assert!(before.last_capture_at.is_none());
    assert!(before.uptime_secs < 60);
    assert_eq!(before.watchdog_timeout_secs, 5);
    assert_eq!(f32::from_bits(before.max_speed.bits), 0.8);

    match begin(&mut state, DaemonCommand::Status) {
        CommandStep::Status => {}
        other => panic!("unexpected step {other:?}"),
    }
    let after = state.get_status(42);
    assert_eq!(after.history_entries, 42);
    let stamp = after.last_command_at.expect("a command was received");
    // RFC 3339 in UTC: 2026-04-19T16:30:00.123456789+00:00
    assert_eq!(&stamp[4..5], "-");
    assert_eq!(&stamp[10..11], "T");
    assert!(stamp.ends_with("+00:00"));
}

#[test]
fn capture_flow_saves_and_answers_with_the_path() {
    let mut state = DaemonState::new(DaemonConfig::default(), false).unwrap();
    let output_path = match begin(&mut state, DaemonCommand::Capture { output_path: None }) {
        CommandStep::Capture { output_path } => output_path,
        other => panic!("unexpected step {other:?}"),
    };
    let mut cam = MockCapture::new();
    let (path, frame) = match state.after_capture(cam.capture(), output_path, "/data/history") {
        CaptureStep::Save { path, frame } => (path, frame),
        other => panic!("unexpected step {other:?}"),
    };
    assert!(path.starts_with("/data/history/frames/"));
    assert!(path.ends_with(".jpg"));
    assert_eq!(path.len(), "/data/history/frames/".len() + "2026-04-19T16-30-00".len() + 4);

    assert!(matches!(state.frame_reply(), WebReply::Text { status: 404, .. }));
    let jpeg = frame.jpeg_data.clone();
    match state.after_save(path.clone(), frame, Ok(())) {
        SaveStep::CreateEntry { path: p } => assert_eq!(p, path),
        other => panic!("unexpected step {other:?}"),
    }
    match state.frame_reply() {
        WebReply::Jpeg(data) => assert_eq!(data, jpeg),
        other => panic!("unexpected reply {other:?}"),
    }
    assert!(state.get_status(1).last_capture_at.is_some());
    match DaemonState::entry_created(path.clone(), Ok("id".to_string())) {
        DaemonResponse::Frame { path: p } => assert_eq!(p, path),
        other => panic!("unexpected reply {other:?}"),
    }
}

#[test]
fn capture_to_explicit_path() {
    let state = DaemonState::new(DaemonConfig::default(), false).unwrap();
    let mut cam = MockCapture::new();
    match state.after_capture(cam.capture(), Some("/tmp/x.jpg".to_string()), "/data") {
        CaptureStep::Save { path, .. } => assert_eq!(path, "/tmp/x.jpg"),
        other => panic!("unexpected step {other:?}"),
    }
}

#[test]
fn capture_failure_is_reported() {
    let state = DaemonState::new(DaemonConfig::default(), false).unwrap();
    match state.after_capture(Err(AppError::Camera("no sensor".to_string())), None, "/data") {
        CaptureStep::Reply(r) => assert_eq!(error_message(r), "capture failed: camera error: no sensor"),
        other => panic!("unexpected step {other:?}"),
    }
}

#[test]
fn save_failure_is_reported_and_keeps_old_frame() {
    let mut state = DaemonState::new(DaemonConfig::default(), false).unwrap();
    let frame = MockCapture::new().capture().unwrap();
    match state.after_save("/x.jpg".to_string(), frame, Err(AppError::Io("disk full".to_string()))) {
        SaveStep::Reply(r) => assert_eq!(error_message(r), "save failed: IO error: disk full"),
        other => panic!("unexpected step {other:?}"),
    }
    assert!(matches!(state.frame_reply(), WebReply::Text { status: 404, .. }));
    assert!(state.get_status(0).last_capture_at.is_none());
}

#[test]
fn drive_outcomes() {
    match DaemonState::after_drive(speed(0.6), speed(0.7), Ok(())) {
        DriveStep::Record { left, right } => {
            assert_eq!(left, speed(0.6));
            assert_eq!(right, speed(0.7));
        }
        other => panic!("unexpected step {other:?}"),
    }
    match DaemonState::after_drive(speed(0.6), speed(0.7), Err(AppError::Motor("robot has been shut down".to_string()))) {
        DriveStep::Reply(r) => assert_eq!(error_message(r), "drive failed: motor error: robot has been shut down"),
        other => panic!("unexpected step {other:?}"),
    }
    assert!(matches!(DaemonState::command_recorded(Ok(())), DaemonResponse::Success));
}

#[test]
fn stop_and_log_outcomes() {
    assert!(matches!(DaemonState::after_stop(Ok(())), DaemonResponse::Success));
    assert_eq!(
        error_message(DaemonState::after_stop(Err(AppError::Motor("I2C error: bus".to_string())))),
        "stop failed: motor error: I2C error: bus"
    );
    assert!(matches!(DaemonState::after_log(Ok(())), DaemonResponse::Success));
    assert_eq!(error_message(DaemonState::after_log(Err("denied".to_string()))), "log failed: denied");
}

#[test]
fn log_command_carries_message() {
    let mut state = DaemonState::new(DaemonConfig::default(), false).unwrap();
    match begin(&mut state, DaemonCommand::Log { message: "wall ahead".to_string() }) {
        CommandStep::Log { message } => assert_eq!(message, "wall ahead"),
        other => panic!("unexpected step {other:?}"),
    }
}

#[test]
fn watchdog_stops_only_with_motor() {
    assert!(watchdog_stops_motors(true));
    assert!(!watchdog_stops_motors(false));
}

#[test]
fn daemon_keeps_its_whole_config() {
    let mut config = DaemonConfig::default();
    config.host = "127.0.0.1".to_string();
    config.port = 9999;
    config.i2c_addr = 0x61;
    config.swap_cameras = true;
    let state = DaemonState::new(config, false).unwrap();
    let kept = state.config();
    assert_eq!(kept.host, "127.0.0.1");
    assert_eq!(kept.port, 9999);
    assert_eq!(kept.i2c_addr, 0x61);
    assert!(kept.swap_cameras);
    assert_eq!(kept.watchdog_timeout_secs, DaemonConfig::default().watchdog_timeout_secs);
}

#[test]
fn clock_reads_an_instant_after_1970() {
    let t = agentic_robot::time::clock_now().unwrap();
    assert!(t.secs > 1_700_000_000);
    assert!(t.nanos < 1_000_000_000);
}

fn at(secs: i64, nanos: u32) -> agentic_robot::time::Timestamp {
    agentic_robot::time::Timestamp { secs, nanos }
}

#[test]
fn command_stamp_and_uptime_follow_the_readings() {
    let mut state = DaemonState::new_at(DaemonConfig::default(), false, at(1_776_616_200, 0));
    let start = state.begin_command_at(DaemonCommand::Status, Some(at(1_776_616_205, 0)));
    assert!(start.ping_watchdog);
    let st = state.get_status_at(3, Some(at(1_776_616_265, 500_000_000)));
    assert_eq!(st.uptime_secs, 65);
    assert_eq!(st.history_entries, 3);
    assert_eq!(st.last_command_at.as_deref(), Some("2026-04-19T16:30:05+00:00"));
    assert!(st.last_capture_at.is_none());

    // Without a reading the stamp stays and the uptime is 0.
    let _ = state.begin_command_at(DaemonCommand::Status, None);
    let st = state.get_status_at(0, None);
    assert_eq!(st.uptime_secs, 0);
    assert_eq!(st.last_command_at.as_deref(), Some("2026-04-19T16:30:05+00:00"));
}

#[test]
fn uptime_truncates_toward_zero() {
    let state = DaemonState::new_at(DaemonConfig::default(), false, at(1_776_616_200, 900_000_000));
    assert_eq!(state.get_status_at(0, Some(at(1_776_616_202, 100_000_000))).uptime_secs, 1);
    assert_eq!(state.get_status_at(0, Some(at(1_776_616_200, 950_000_000))).uptime_secs, 0);
}

#[test]
fn capture_is_named_by_the_reading() {
    let state = DaemonState::new_at(DaemonConfig::default(), false, at(1_776_616_200, 0));
    let mut cam = MockCapture::new();
    match state.after_capture_at(cam.capture(), None, "/data/history", Some(at(1_776_616_230, 7))) {
        CaptureStep::Save { path, .. } => assert_eq!(path, "/data/history/frames/2026-04-19T16-30-30.jpg"),
        other => panic!("unexpected step {other:?}"),
    }
    match state.after_capture_at(cam.capture(), None, "/data/history", None) {
        CaptureStep::Reply(r) => {
            assert_eq!(error_message(r), "capture failed: system clock reads before the Unix epoch")
        }
        other => panic!("unexpected step {other:?}"),
    }
    match state.after_capture_at(cam.capture(), Some("/tmp/x.jpg".to_string()), "/data/history", None) {
        CaptureStep::Save { path, .. } => assert_eq!(path, "/tmp/x.jpg"),
        other => panic!("unexpected step {other:?}"),
    }
}

#[test]
fn saved_capture_is_stamped_with_the_reading() {
    let mut state = DaemonState::new_at(DaemonConfig::default(), false, at(1_776_616_200, 0));
    let mut cam = MockCapture::new();
    let frame = cam.capture().unwrap();
    match state.after_save_at("/tmp/x.jpg".to_string(), frame, Ok(()), Some(at(1_776_616_210, 0))) {
        SaveStep::CreateEntry { path } => assert_eq!(path, "/tmp/x.jpg"),
        other => panic!("unexpected step {other:?}"),
    }
    let st = state.get_status_at(0, Some(at(1_776_616_210, 0)));
    assert_eq!(st.last_capture_at.as_deref(), Some("2026-04-19T16:30:10+00:00"));
    assert_eq!(st.uptime_secs, 10);
}
