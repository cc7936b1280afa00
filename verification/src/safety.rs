//! The watchdog: motors stop when no command arrives within the timeout.
//!
//! The motor board keeps the motors running until told otherwise, so the
//! daemon restarts a timer on every command and stops the motors when it
//! runs out. The timer and its wake-ups run in the application; this module
//! decides what each wake-up means.

use vstd::prelude::*;
use core::time::Duration;

verus! {

/// What woke the watchdog.
#[derive(Clone, Copy, PartialEq, Eq, Structural, Debug)]
pub enum WatchdogEvent {
    /// The watchdog was cancelled.
    Cancelled,
    /// The timeout elapsed with no activity.
    TimedOut,
    /// A command was received.
    Activity,
}

/// What the watchdog does next.
#[derive(Clone, Copy, PartialEq, Eq, Structural, Debug)]
pub enum WatchdogAction {
    /// Leave the loop.
    Exit,
    /// Call the timeout handler, then wait a full timeout again.
    FireAndRearm,
    /// Wait a full timeout again.
    Rearm,
}

/// The watchdog's decision for an event.
pub open spec fn reaction(event: WatchdogEvent) -> WatchdogAction {
    match event {
        WatchdogEvent::Cancelled => WatchdogAction::Exit,
        WatchdogEvent::TimedOut => WatchdogAction::FireAndRearm,
        WatchdogEvent::Activity => WatchdogAction::Rearm,
    }
}

/// Watchdog that monitors command activity.
pub struct Watchdog {
    timeout: Duration,
}

impl Watchdog {
    pub closed spec fn period(&self) -> Duration {
        self.timeout
    }

    /// A watchdog with the given timeout.
    pub fn new(timeout: Duration) -> (w: Self)
        ensures
            w.period() == timeout,
    {
        Watchdog { timeout }
    }

    /// The timeout.
    pub fn timeout(&self) -> (t: Duration)
        ensures
            t == self.period(),
    {
        self.timeout
    }

    /// What to do on an event: cancelling ends the loop, a timeout fires the
    /// handler, activity restarts the timer without firing.
    pub fn react(&self, event: WatchdogEvent) -> (a: WatchdogAction)
        ensures
            a == reaction(event),
    {
        match event {
            WatchdogEvent::Cancelled => WatchdogAction::Exit,
            WatchdogEvent::TimedOut => WatchdogAction::FireAndRearm,
            WatchdogEvent::Activity => WatchdogAction::Rearm,
        }
    }
}

/// The real system clock.
pub struct SystemClock;

/// Only a timeout fires the handler; only cancelling ends the loop; every
/// other wake-up waits a full timeout again.
pub proof fn lemma_watchdog_fires_only_on_timeout(event: WatchdogEvent)
    ensures
        (reaction(event) == WatchdogAction::FireAndRearm) <==> (event == WatchdogEvent::TimedOut),
        (reaction(event) == WatchdogAction::Exit) <==> (event == WatchdogEvent::Cancelled),
{
}

} // verus!
