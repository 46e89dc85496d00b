//! Measuring elapsed wall time on the monotonic clock.
use vstd::prelude::*;

use std::time::{Duration, Instant};

pub mod utils;

verus! {

#[verifier::external_type_specification]
#[verifier::external_body]
pub struct ExInstant(std::time::Instant);

/// Relies on `Instant::now`: a reading of the monotonic clock.
#[verifier::external_body]
pub(crate) fn clock_now() -> Instant {
    Instant::now()
}

/// Relies on `Instant::elapsed`: the time since `start`.
#[verifier::external_body]
pub(crate) fn time_since(start: &Instant) -> Duration {
    start.elapsed()
}

/// Relies on `Duration::as_millis`: the whole milliseconds of `d`, cast to
/// `u64`.
#[verifier::external_body]
fn whole_millis(d: &Duration) -> u64 {
    d.as_millis() as u64
}

/// A stopwatch: started or not; when started, it measures from its start.
pub struct Timer {
    start_time: Option<Instant>,
}

impl Timer {
    pub closed spec fn is_started(&self) -> bool {
        self.start_time is Some
    }

    /// A timer that is not started.
    pub fn new() -> (r: Self)
        ensures
            !r.is_started(),
    {
        Timer { start_time: None }
    }

    /// Starts the timer from now, restarting it if it ran.
    pub fn start(&mut self)
        ensures
            final(self).is_started(),
    {
        self.start_time = Some(clock_now());
    }

    /// The time since the start, if the timer is started.
    pub fn elapsed(&self) -> (r: Option<Duration>)
        ensures
            r is Some == self.is_started(),
    {
        match &self.start_time {
            Some(start) => Some(time_since(start)),
            None => None,
        }
    }

    /// The whole milliseconds since the start, if the timer is started.
    pub fn elapsed_millis(&self) -> (r: Option<u64>)
        ensures
            r is Some == self.is_started(),
    {
        match self.elapsed() {
            Some(d) => Some(whole_millis(&d)),
            None => None,
        }
    }

    /// Stops the timer.
    pub fn reset(&mut self)
        ensures
            !final(self).is_started(),
    {
        self.start_time = None;
    }

    pub fn is_running(&self) -> (r: bool)
        ensures
            r == self.is_started(),
    {
        self.start_time.is_some()
    }
}

impl Default for Timer {
    fn default() -> (r: Self)
        ensures
            !r.is_started(),
    {
        Timer::new()
    }
}

} // verus!
