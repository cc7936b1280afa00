use agentic_robot::cli::{capture_outcome, drive_outcome, log_outcome, status_outcome, stop_outcome};
use agentic_robot::config::{tracing_filter, DaemonConfig, SOCKET_PATH};
use agentic_robot::error::AppError;
use agentic_robot::ipc::{frame_line, DaemonResponse, RobotStatus};
use agentic_robot::safety::{Watchdog, WatchdogAction, WatchdogEvent};
use agentic_robot::server::{
    default_count, find_history_frame, history_frame_reply, stop_reply, FrameLookup,
    HistoryQuery, HISTORY_LOOKUP_LIMIT,
};
use agentic_robot::daemon::WebReply;
use agentic_robot::history::HistoryEntry;
use agentic_robot::speed::Speed;
use agentic_robot::text::decimal_string;
use agentic_robot::time::Timestamp;

#[test]
fn default_history_count_is_20() {
    assert_eq!(default_count(), 20);
}

#[test]
fn history_query_defaults() {
    assert_eq!(HistoryQuery::from_request(None).count, 20);
    assert_eq!(HistoryQuery::from_request(Some(3)).count, 3);
    assert_eq!(HISTORY_LOOKUP_LIMIT, 1000);
}

fn entry(id: &str, frame: Option<&str>) -> HistoryEntry {
    HistoryEntry {
        id: id.to_string(),
        timestamp: Timestamp { secs: 0, nanos: 0 },
        frame_path: frame.map(|f| f.to_string()),
        reasoning: Vec::new(),
        command: None,
    }
}

#[test]
fn history_frame_lookup() {
    let entries = vec![entry("a", Some("/f/a.jpg")), entry("b", None), entry("a", Some("/f/other.jpg"))];
    match find_history_frame(&entries, &"a".to_string()) {
        FrameLookup::Read(p) => assert_eq!(p, "/f/a.jpg"),
        other => panic!("unexpected lookup {other:?}"),
    }
    assert!(matches!(find_history_frame(&entries, &"b".to_string()), FrameLookup::EntryNotFound));
    assert!(matches!(find_history_frame(&entries, &"c".to_string()), FrameLookup::EntryNotFound));

    match history_frame_reply(&FrameLookup::EntryNotFound, None) {
        WebReply::Text { status, body } => {
            assert_eq!(status, 404);
            assert_eq!(body, "entry not found");
        }
        other => panic!("unexpected reply {other:?}"),
    }
    let read = FrameLookup::Read("/f/a.jpg".to_string());
    match history_frame_reply(&read, None) {
        WebReply::Text { status, body } => {
            assert_eq!(status, 404);
            assert_eq!(body, "frame file not found");
        }
        other => panic!("unexpected reply {other:?}"),
    }
    match history_frame_reply(&read, Some(vec![0xFF, 0xD8])) {
        WebReply::Jpeg(d) => assert_eq!(d, vec![0xFF, 0xD8]),
        other => panic!("unexpected reply {other:?}"),
    }
}

#[test]
fn emergency_stop_replies() {
    match stop_reply(None) {
        (WebReply::Text { status, body }, ping) => {
            assert_eq!((status, body.as_str(), ping), (200, "stopped", true));
        }
        other => panic!("unexpected reply {other:?}"),
    }
    match stop_reply(Some(Ok(()))) {
        (WebReply::Text { status, .. }, ping) => assert_eq!((status, ping), (200, true)),
        other => panic!("unexpected reply {other:?}"),
    }
    match stop_reply(Some(Err(AppError::Motor("robot has been shut down".to_string())))) {
        (WebReply::Text { status, body }, ping) => {
            assert_eq!(status, 500);
            assert_eq!(body, "failed to stop: motor error: robot has been shut down");
            assert!(!ping);
        }
        other => panic!("unexpected reply {other:?}"),
    }
}

#[test]
fn frame_line_appends_newline() {
    assert_eq!(frame_line(r#"{"cmd":"stop"}"#.to_string()), "{\"cmd\":\"stop\"}\n");
}

fn status() -> RobotStatus {
    RobotStatus {
        running: true,
        max_speed: Speed::from_bits(0.8f32.to_bits()),
        watchdog_timeout_secs: 5,
        last_command_at: Some("2026-04-19T16:00:00Z".to_string()),
        last_capture_at: None,
        history_entries: 42,
        uptime_secs: 120,
    }
}

#[test]
fn client_outcomes() {
    assert_eq!(capture_outcome(DaemonResponse::Frame { path: "/tmp/f.jpg".to_string() }), Ok("/tmp/f.jpg".to_string()));
    assert_eq!(
        capture_outcome(DaemonResponse::Error { message: "no camera".to_string() }),
        Err("capture failed: no camera".to_string())
    );
    assert_eq!(capture_outcome(DaemonResponse::Success), Err("unexpected response from daemon".to_string()));
    assert_eq!(drive_outcome(DaemonResponse::Success), Ok(()));
    assert_eq!(
        drive_outcome(DaemonResponse::Error { message: "x".to_string() }),
        Err("drive failed: x".to_string())
    );
    assert_eq!(stop_outcome(DaemonResponse::Success), Ok(()));
    assert_eq!(
        stop_outcome(DaemonResponse::Frame { path: "p".to_string() }),
        Err("unexpected response from daemon".to_string())
    );
    assert_eq!(log_outcome(DaemonResponse::Error { message: "y".to_string() }), Err("log failed: y".to_string()));
    let st = status_outcome(DaemonResponse::Status(status())).unwrap();
    assert_eq!(st.history_entries, 42);
    assert!(st.running);
    assert_eq!(
        status_outcome(DaemonResponse::Error { message: "z".to_string() }).unwrap_err(),
        "status failed: z"
    );
}

#[test]
fn error_messages() {
    assert_eq!(AppError::Camera("c".to_string()).message(), "camera error: c");
    assert_eq!(AppError::Motor("m".to_string()).message(), "motor error: m");
    assert_eq!(AppError::Ipc("i".to_string()).message(), "IPC error: i");
    assert_eq!(AppError::DaemonNotRunning.message(), "daemon not running");
    assert_eq!(AppError::WatchdogTimeout.message(), "watchdog timeout — motors stopped");
    assert_eq!(AppError::Io("o".to_string()).message(), "IO error: o");
    assert_eq!(AppError::Other("plain".to_string()).message(), "plain");
}

#[test]
fn config_defaults() {
    let c = DaemonConfig::default();
    assert_eq!(c.host, "0.0.0.0");
    assert_eq!(c.port, 8080);
    assert_eq!(c.i2c_bus, "/dev/i2c-1");
    assert_eq!(c.i2c_addr, 0x60);
    assert_eq!(f32::from_bits(c.left_factor.bits), -1.0);
    assert_eq!(f32::from_bits(c.right_factor.bits), 1.0);
    assert!(!c.swap_cameras);
    assert_eq!(f32::from_bits(c.max_speed.bits), 0.8);
    assert_eq!(c.watchdog_timeout_secs, 5);
    assert_eq!(SOCKET_PATH, "/tmp/agentic-robot.sock");
}

#[test]
fn tracing_filters() {
    assert_eq!(tracing_filter(0), "agentic_robot=info");
    assert_eq!(tracing_filter(1), "agentic_robot=debug");
    assert_eq!(tracing_filter(2), "agentic_robot=trace");
    assert_eq!(tracing_filter(9), "agentic_robot=trace");
}

#[test]
fn watchdog_reactions() {
    let w = Watchdog::new(std::time::Duration::from_millis(50));
    assert_eq!(w.timeout(), std::time::Duration::from_millis(50));
    assert_eq!(w.react(WatchdogEvent::Cancelled), WatchdogAction::Exit);
    assert_eq!(w.react(WatchdogEvent::TimedOut), WatchdogAction::FireAndRearm);
    assert_eq!(w.react(WatchdogEvent::Activity), WatchdogAction::Rearm);
}

#[test]
fn decimal_rendering() {
    assert_eq!(decimal_string(0), "0");
    assert_eq!(decimal_string(7), "7");
    assert_eq!(decimal_string(10), "10");
    assert_eq!(decimal_string(4095), "4095");
    assert_eq!(decimal_string(u64::MAX), u64::MAX.to_string());
}

#[test]
fn framed_line_reads_back() {
    let encoded = r#"{"cmd":"drive","left":0.6,"right":-0.6}"#.to_string();
    let line = frame_line(encoded.clone());
    let payload = line.split('\n').next().unwrap();
    assert_eq!(payload, encoded);
    assert_eq!(line.matches('\n').count(), 1);
}
