//! The clock that durations are measured against.

use vstd::prelude::*;

verus! {

/// Nanoseconds in one millisecond.
pub const NS_PER_MS: u64 = 1_000_000;

/// `time::precise_time_ns`: the reading of a high-resolution counter, in
/// nanoseconds since an epoch that is not specified. Nothing is claimed of
/// the value: two readings may be any two numbers.
#[verifier::external_body]
pub(crate) fn now_ns() -> (now: u64) {
    time::precise_time_ns()
}

/// Nanoseconds from the clock reading `from_ns` to the reading `to_ns`; a
/// reading that lies before the first counts as no time at all.
pub open spec fn spec_elapsed_ns(from_ns: u64, to_ns: u64) -> u64 {
    if to_ns >= from_ns {
        (to_ns - from_ns) as u64
    } else {
        0
    }
}

/// Nanoseconds from one clock reading to a later one.
pub fn elapsed_ns(from_ns: u64, to_ns: u64) -> (ns: u64)
    ensures
        ns == spec_elapsed_ns(from_ns, to_ns),
{
    if to_ns >= from_ns {
        to_ns - from_ns
    } else {
        0
    }
}

/// Whole milliseconds from the reading `start_ns` to the reading `now_ns`.
pub open spec fn spec_elapsed_ms(start_ns: u64, now_ns: u64) -> u64 {
    (spec_elapsed_ns(start_ns, now_ns) / NS_PER_MS) as u64
}

/// Whole milliseconds from one clock reading to a later one.
pub fn elapsed_ms(start_ns: u64, now_ns: u64) -> (ms: u64)
    ensures
        ms == spec_elapsed_ms(start_ns, now_ns),
{
    elapsed_ns(start_ns, now_ns) / NS_PER_MS
}

/// Whether a test of `duration_ms` milliseconds that began at `start_ns` is
/// over at `now_ns`: the elapsed milliseconds have reached the duration.
pub open spec fn spec_expired(start_ns: u64, now_ns: u64, duration_ms: u64) -> bool {
    spec_elapsed_ms(start_ns, now_ns) >= duration_ms
}

/// Whether a test of `duration_ms` milliseconds that began at `start_ns` is
/// over at `now_ns`.
pub fn expired(start_ns: u64, now_ns: u64, duration_ms: u64) -> (over: bool)
    ensures
        over == spec_expired(start_ns, now_ns, duration_ms),
{
    elapsed_ms(start_ns, now_ns) >= duration_ms
}

/// A clock reading to measure from.
#[derive(Clone, Copy, Debug)]
pub struct Stopwatch {
    /// The reading at which the stopwatch was started.
    pub start_ns: u64,
}

impl Stopwatch {
    /// Starts a stopwatch at the present moment.
    pub fn start() -> (watch: Stopwatch) {
        Stopwatch { start_ns: now_ns() }
    }

    /// Nanoseconds since the start: the time from the start to some reading
    /// of the clock, whatever the clock reads now.
    pub fn elapsed_ns(&self) -> (ns: u64)
        ensures
            exists|now: u64| ns == #[trigger] spec_elapsed_ns(self.start_ns, now),
    {
        let now: u64 = now_ns();
        elapsed_ns(self.start_ns, now)
    }
}

} // verus!
