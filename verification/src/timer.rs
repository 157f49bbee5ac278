//! The expiration that a one-shot timer is armed with.

use vstd::prelude::*;

verus! {

/// An expiration relative to now: whole seconds, and the nanoseconds
/// beyond them.
#[derive(Clone, Copy, Debug, PartialEq, Eq, Structural)]
pub struct TimerSpec {
    pub secs: i64,
    pub nanos: i64,
}

impl TimerSpec {
    /// The whole expiration in nanoseconds.
    pub open spec fn total_nanos(self) -> int {
        self.secs * 1_000_000_000 + self.nanos
    }

    /// A timer set to this expiration fires: one set to zero is disarmed
    /// instead.
    pub open spec fn arms(self) -> bool {
        &&& 0 <= self.secs
        &&& 0 <= self.nanos < 1_000_000_000
        &&& self.total_nanos() > 0
    }
}

/// The expiration that makes a one-shot timer fire after `ms`
/// milliseconds. A request for no wait at all gets the shortest wait there
/// is, one nanosecond, because an expiration of zero would disarm the
/// timer and the reply would never be sent.
pub open spec fn expiration_of(ms: u32) -> TimerSpec {
    if ms == 0 {
        TimerSpec { secs: 0, nanos: 1 }
    } else {
        TimerSpec { secs: (ms / 1000) as i64, nanos: ((ms % 1000) * 1_000_000) as i64 }
    }
}

/// A timer armed for a request never fires early: its expiration is the
/// requested duration, or one nanosecond where none was requested.
pub proof fn lemma_expiration_covers_duration(ms: u32)
    ensures
        expiration_of(ms).arms(),
        expiration_of(ms).total_nanos() >= ms * 1_000_000,
        ms > 0 ==> expiration_of(ms).total_nanos() == ms * 1_000_000,
{
}

/// `nix::sys::time::TimeSpec::from_duration` applied to a
/// `std::time::Duration` of `ms` milliseconds, read back through `tv_sec`
/// and `tv_nsec`. The duration's whole seconds become the first part and
/// its sub-second nanoseconds the second: trusted, not proved.
#[verifier::external_body]
fn timespec_of_millis(ms: u32) -> (parts: (i64, i64))
    ensures
        parts.0 == ms / 1000,
        parts.1 == (ms % 1000) * 1_000_000,
{
    let wait = std::time::Duration::from_millis(u64::from(ms));
    let timespec = nix::sys::time::TimeSpec::from_duration(wait);
    (timespec.tv_sec(), timespec.tv_nsec())
}

/// The expiration to arm a one-shot timer with for a request of `ms`
/// milliseconds.
pub fn one_shot_expiration(ms: u32) -> (expiry: TimerSpec)
    ensures
        expiry == expiration_of(ms),
        expiry.arms(),
        expiry.total_nanos() >= ms * 1_000_000,
{
    let (secs, nanos) = timespec_of_millis(ms);
    if secs == 0 && nanos == 0 {
        TimerSpec { secs: 0, nanos: 1 }
    } else {
        TimerSpec { secs, nanos }
    }
}

} // verus!
