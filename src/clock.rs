//! Timestamps are milliseconds since an epoch that each endpoint picks,
//! modulo 2^32. They wrap about every 49.7 days, so two timestamps are
//! compared by serial-number arithmetic: each is taken to lie within 2^31 - 1
//! milliseconds of the other.
use vstd::prelude::*;

use std::time::{Duration, Instant};

verus! {

#[verifier::external_type_specification]
#[verifier::external_body]
pub struct ExInstant(Instant);

/// A source of timestamps.
pub trait Clock {
    /// Milliseconds since the clock's epoch, modulo 2^32.
    fn now(&self) -> u32;
}

/// A clock whose epoch is the moment it was made, on the system's monotonic
/// clock, so that it never runs backward.
pub struct SystemClock {
    epoch: Instant,
}

/// Relies on Instant::now: the current reading of the monotonic clock.
#[verifier::external_body]
fn instant_now() -> (r: Instant) {
    Instant::now()
}

/// Relies on Instant::elapsed: the time since `epoch`.
#[verifier::external_body]
fn elapsed_since(epoch: &Instant) -> (r: Duration) {
    epoch.elapsed()
}

/// Relies on Duration::as_millis: the whole milliseconds of `d`.
#[verifier::external_body]
fn whole_millis(d: &Duration) -> (r: u128) {
    d.as_millis()
}

/// A number of milliseconds as a timestamp: its remainder modulo 2^32.
pub fn timestamp_of_millis(ms: u128) -> (r: u32)
    ensures
        r as int == ms as int % 0x1_0000_0000,
{
    (ms % 0x1_0000_0000) as u32
}

impl SystemClock {
    /// A clock whose epoch is now.
    pub fn new() -> (r: SystemClock) {
        SystemClock { epoch: instant_now() }
    }
}

impl Default for SystemClock {
    fn default() -> (r: SystemClock) {
        SystemClock::new()
    }
}

impl Clock for SystemClock {
    fn now(&self) -> (r: u32) {
        timestamp_of_millis(whole_millis(&elapsed_since(&self.epoch)))
    }
}

} // verus!
