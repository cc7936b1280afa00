//! Wall-clock instants: the system clock read through `std::time`, and the
//! calls into `chrono` that render instants and count the seconds between
//! them.
//!
//! An instant is held as whole seconds and nanoseconds since the Unix epoch
//! (UTC), which is how `chrono::DateTime<Utc>` can be taken apart and rebuilt
//! without loss.

use vstd::prelude::*;

verus! {

/// An instant: seconds and nanoseconds since 1970-01-01T00:00:00Z.
#[derive(Clone, Copy, PartialEq, Eq, Structural, Debug)]
pub struct Timestamp {
    pub secs: i64,
    pub nanos: u32,
}

/// The first whole second `chrono` represents: -262143-01-01T00:00:00Z.
pub const MIN_UTC_SECS: i64 = -8_334_601_228_800;

/// The last whole second `chrono` represents: +262142-12-31T23:59:59Z.
pub const MAX_UTC_SECS: i64 = 8_210_266_876_799;

/// `chrono::DateTime::<Utc>::from_timestamp(secs, nanos)` yields an instant:
/// the second lies in `chrono`'s calendar, and the nanoseconds are below two
/// seconds, going past one second only in a leap second (one whose number
/// leaves 59 modulo 60).
pub open spec fn utc_instant_exists(secs: i64, nanos: u32) -> bool {
    &&& MIN_UTC_SECS <= secs <= MAX_UTC_SECS
    &&& nanos < 2_000_000_000
    &&& (nanos >= 1_000_000_000 ==> secs % 60 == 59)
}

/// The nanoseconds from `(earlier_secs, earlier_nanos)` to `(later_secs,
/// later_nanos)` in whole seconds, truncated toward zero.
pub open spec fn truncated_seconds(later_secs: int, later_nanos: int, earlier_secs: int, earlier_nanos: int) -> int {
    let n = (later_secs - earlier_secs) * 1_000_000_000 + later_nanos - earlier_nanos;
    if n >= 0 {
        n / 1_000_000_000
    } else {
        -((-n) / 1_000_000_000)
    }
}

/// The text of `DateTime::to_rfc3339` for the instant `(secs, nanos)`.
pub uninterp spec fn rfc3339_text(secs: i64, nanos: u32) -> Seq<char>;

/// The text of `DateTime::format(pattern).to_string()` for the instant `(secs, nanos)`.
pub uninterp spec fn strftime_text(secs: i64, nanos: u32, pattern: Seq<char>) -> Seq<char>;

/// `(later - earlier).num_seconds()` for two `chrono` instants: the
/// difference of the seconds, one more (or less) when the earlier (or the
/// later) instant lies in a leap second of an earlier time of day (or a
/// later one), plus the difference of the nanoseconds, the whole taken in
/// seconds and truncated toward zero.
pub open spec fn whole_seconds_between(later_secs: i64, later_nanos: u32, earlier_secs: i64, earlier_nanos: u32) -> int {
    let later_day = later_secs as int % 86_400;
    let earlier_day = earlier_secs as int % 86_400;
    let leap: int = if later_day > earlier_day && earlier_nanos >= 1_000_000_000 {
        1
    } else if later_day < earlier_day && later_nanos >= 1_000_000_000 {
        -1
    } else {
        0
    };
    let frac: int = later_nanos - earlier_nanos;
    let secs: int = later_secs - earlier_secs + leap + frac / 1_000_000_000;
    if secs < 0 && frac % 1_000_000_000 > 0 {
        secs + 1
    } else {
        secs
    }
}

impl Timestamp {
    /// The instant is one that `chrono` can represent.
    pub open spec fn valid(self) -> bool {
        utc_instant_exists(self.secs, self.nanos)
    }
}

/// Pattern of the timestamps that name history entries and frame files,
/// such as `2026-04-19T16-30-00`.
pub const STAMP_PATTERN: &'static str = "%Y-%m-%dT%H-%M-%S";

/// What an answer says when the system clock cannot be read as an instant.
pub const CLOCK_UNREADABLE: &'static str = "system clock reads before the Unix epoch";

/// `std::time::SystemTime`, a reading of the system clock.
#[verifier::external_type_specification]
#[verifier::external_body]
pub struct ExSystemTime(std::time::SystemTime);

/// Reads the system clock through `std::time::SystemTime::now`. Nothing is
/// said of the reading: it is whatever the clock shows.
#[verifier::external_body]
fn system_time_now() -> (t: std::time::SystemTime) {
    std::time::SystemTime::now()
}

/// How long after the Unix epoch a reading lies, through
/// `SystemTime::duration_since(UNIX_EPOCH)`; `None` where that call fails,
/// which it does for a reading before the epoch. Nothing is said of the
/// length.
#[verifier::external_body]
fn since_unix_epoch(t: &std::time::SystemTime) -> (d: Option<std::time::Duration>) {
    match t.duration_since(std::time::UNIX_EPOCH) {
        Ok(d) => Some(d),
        Err(_) => None,
    }
}

/// The whole seconds of a duration, through `Duration::as_secs`. Nothing is
/// said of them.
#[verifier::external_body]
fn duration_secs(d: &std::time::Duration) -> (s: u64) {
    d.as_secs()
}

/// The fractional part of a duration in nanoseconds, through
/// `Duration::subsec_nanos`. The claim, from its documentation: it is less
/// than one billion.
#[verifier::external_body]
fn duration_subsec_nanos(d: &std::time::Duration) -> (n: u32)
    ensures
        n < 1_000_000_000,
{
    d.subsec_nanos()
}

/// The instant `(secs, nanos)` as `chrono` builds it with
/// `DateTime::from_timestamp`, taken apart again with `timestamp` and
/// `timestamp_subsec_nanos`.
///
/// The claim: there is an instant exactly when `utc_instant_exists` holds
/// (the range `from_timestamp` documents and checks), and taking it apart
/// gives back its arguments (the round trip its documentation shows).
#[verifier::external_body]
fn utc_instant(secs: i64, nanos: u32) -> (r: Option<Timestamp>)
    ensures
        r is Some <==> utc_instant_exists(secs, nanos),
        r matches Some(t) ==> t == (Timestamp { secs, nanos }),
{
    match chrono::DateTime::from_timestamp(secs, nanos) {
        Some(d) => Some(Timestamp { secs: d.timestamp(), nanos: d.timestamp_subsec_nanos() }),
        None => None,
    }
}

/// Reads the clock as `chrono::Utc::now` does (the time since the Unix
/// epoch, then `DateTime::from_timestamp`), with `None` where `Utc::now`
/// would panic: a clock before the epoch, or past the last instant `chrono`
/// represents.
pub fn clock_now() -> (r: Option<Timestamp>)
    ensures
        r matches Some(t) ==> t.valid() && t.secs >= 0 && t.nanos < 1_000_000_000,
{
    let reading = system_time_now();
    match since_unix_epoch(&reading) {
        None => None,
        Some(d) => {
            let secs = duration_secs(&d);
            let nanos = duration_subsec_nanos(&d);
            if secs <= i64::MAX as u64 {
                utc_instant(secs as i64, nanos)
            } else {
                None
            }
        },
    }
}

/// Renders an instant with `chrono::DateTime::to_rfc3339`.
///
/// The claim: the text is `rfc3339_text` of the instant.
#[verifier::external_body]
pub(crate) fn format_rfc3339(t: &Timestamp) -> (s: String)
    requires
        utc_instant_exists(t.secs, t.nanos),
    ensures
        s@ == rfc3339_text(t.secs, t.nanos),
{
    chrono::DateTime::from_timestamp(t.secs, t.nanos).unwrap().to_rfc3339()
}

/// Renders an instant with `chrono::DateTime::format` and `to_string`.
///
/// The claim: the text is `strftime_text` of the instant and the pattern.
/// Only the one pattern this crate uses is admitted, because `to_string`
/// panics on a pattern that `chrono` cannot render.
#[verifier::external_body]
pub(crate) fn format_stamp(t: &Timestamp, pattern: &str) -> (s: String)
    requires
        utc_instant_exists(t.secs, t.nanos),
        pattern@ == STAMP_PATTERN@,
    ensures
        s@ == strftime_text(t.secs, t.nanos, pattern@),
{
    chrono::DateTime::from_timestamp(t.secs, t.nanos).unwrap().format(pattern).to_string()
}

/// Whole seconds from `earlier` to `later`, through `chrono`'s
/// `DateTime - DateTime` and `TimeDelta::num_seconds`.
///
/// The claim: the result is `whole_seconds_between` of the two instants.
#[verifier::external_body]
pub(crate) fn seconds_between(later: &Timestamp, earlier: &Timestamp) -> (d: i64)
    requires
        utc_instant_exists(later.secs, later.nanos),
        utc_instant_exists(earlier.secs, earlier.nanos),
    ensures
        d == whole_seconds_between(later.secs, later.nanos, earlier.secs, earlier.nanos),
{
    let a = chrono::DateTime::from_timestamp(later.secs, later.nanos).unwrap();
    let b = chrono::DateTime::from_timestamp(earlier.secs, earlier.nanos).unwrap();
    (a - b).num_seconds()
}

/// Away from leap seconds, `chrono`'s whole seconds between two instants
/// are their difference truncated toward zero.
pub proof fn lemma_whole_seconds_truncate(later: Timestamp, earlier: Timestamp)
    requires
        later.nanos < 1_000_000_000,
        earlier.nanos < 1_000_000_000,
    ensures
        whole_seconds_between(later.secs, later.nanos, earlier.secs, earlier.nanos) == truncated_seconds(
            later.secs as int,
            later.nanos as int,
            earlier.secs as int,
            earlier.nanos as int,
        ),
{
    let ds: int = later.secs - earlier.secs;
    let dn: int = later.nanos - earlier.nanos;
    let n = ds * 1_000_000_000 + dn;
    if dn >= 0 {
        assert(dn / 1_000_000_000 == 0 && dn % 1_000_000_000 == dn);
        if n >= 0 {
            assert(n / 1_000_000_000 == ds) by (nonlinear_arith)
                requires n == ds * 1_000_000_000 + dn, 0 <= dn < 1_000_000_000;
        } else if dn == 0 {
            assert((-n) / 1_000_000_000 == -ds) by (nonlinear_arith)
                requires n == ds * 1_000_000_000, n < 0;
        } else {
            assert((-n) / 1_000_000_000 == -ds - 1) by (nonlinear_arith)
                requires n == ds * 1_000_000_000 + dn, 0 < dn < 1_000_000_000, n < 0;
        }
    } else {
        assert(dn / 1_000_000_000 == -1 && dn % 1_000_000_000 == dn + 1_000_000_000);
        if n >= 0 {
            assert(n / 1_000_000_000 == ds - 1) by (nonlinear_arith)
                requires n == ds * 1_000_000_000 + dn, -1_000_000_000 < dn < 0;
        } else {
            assert((-n) / 1_000_000_000 == -ds) by (nonlinear_arith)
                requires n == ds * 1_000_000_000 + dn, -1_000_000_000 < dn < 0, n < 0;
        }
    }
}

} // verus!
