//! The protocol between the command-line client and the daemon: one JSON
//! object per line over a Unix socket.

use vstd::prelude::*;
use crate::speed::Speed;

verus! {

/// Commands sent from the client to the daemon.
#[derive(Debug)]
pub enum DaemonCommand {
    /// Capture a stereo frame.
    Capture { output_path: Option<String> },
    /// Drive the motors.
    Drive { left: Speed, right: Speed },
    /// Stop all motors.
    Stop,
    /// Get status.
    Status,
    /// Log a reasoning message.
    Log { message: String },
}

/// Status information from the daemon.
#[derive(Debug)]
pub struct RobotStatus {
    pub running: bool,
    pub max_speed: Speed,
    pub watchdog_timeout_secs: u64,
    pub last_command_at: Option<String>,
    pub last_capture_at: Option<String>,
    pub history_entries: u64,
    pub uptime_secs: u64,
}

/// Responses sent from the daemon to the client.
#[derive(Debug)]
pub enum DaemonResponse {
    /// Success with no extra data (the `ok` reply).
    Success,
    /// A captured frame path.
    Frame { path: String },
    /// Status information.
    Status(RobotStatus),
    /// An error occurred.
    Error { message: String },
}

/// A message framed for the socket: the encoded object, then a newline.
pub open spec fn framed(encoded: Seq<char>) -> Seq<char> {
    encoded.push('\n')
}

/// Frames one encoded message as a line.
pub fn frame_line(encoded: String) -> (line: String)
    ensures
        line@ == framed(encoded@),
{
    let mut line = encoded;
    proof {
        reveal_strlit("\n");
    }
    line.append("\n");
    line
}

/// The encoded message carried by a received line: the text before the
/// first newline, or the whole text when there is none.
pub open spec fn line_payload(received: Seq<char>) -> Seq<char>
    decreases received.len(),
{
    if received.len() == 0 {
        received
    } else if received[0] == '\n' {
        Seq::empty()
    } else {
        seq![received[0]] + line_payload(received.drop_first())
    }
}

/// Reading back a framed message yields the message, provided the
/// encoding holds no newline.
pub proof fn lemma_frame_roundtrip(encoded: Seq<char>)
    requires
        !encoded.contains('\n'),
    ensures
        line_payload(framed(encoded)) == encoded,
    decreases encoded.len(),
{
    if encoded.len() == 0 {
        assert(framed(encoded) =~= seq!['\n']);
    } else {
        let rest = encoded.drop_first();
        assert(!rest.contains('\n')) by {
            if rest.contains('\n') {
                let i = choose|i: int| 0 <= i < rest.len() && rest[i] == '\n';
                assert(encoded[i + 1] == '\n');
            }
        }
        lemma_frame_roundtrip(rest);
        assert(framed(encoded).drop_first() =~= framed(rest));
        assert(encoded[0] != '\n') by {
            if encoded[0] == '\n' {
                assert(encoded.contains('\n'));
            }
        }
        assert(seq![encoded[0]] + rest =~= encoded);
    }
}

} // verus!
