//! Lengths of time, and the clock.
use vstd::prelude::*;

verus! {

pub const NANOS_PER_SEC: u32 = 1_000_000_000;

pub const NANOS_PER_MILLI: u32 = 1_000_000;

/// A length of time: whole seconds and nanoseconds beyond them.
#[derive(Clone, Copy, Debug, PartialEq, Eq, Structural)]
pub struct Span {
    pub secs: u64,
    pub nanos: u32,
}

impl Span {
    /// The length in nanoseconds.
    pub open spec fn total_nanos(self) -> nat {
        (self.secs * NANOS_PER_SEC + self.nanos) as nat
    }

    /// The length in whole milliseconds, rounded down.
    pub open spec fn total_millis(self) -> nat {
        (self.total_nanos() / NANOS_PER_MILLI as nat) as nat
    }

    /// The fraction is less than a second.
    pub open spec fn normal(self) -> bool {
        self.nanos < NANOS_PER_SEC
    }

    pub fn from_millis(millis: u64) -> (r: Span)
        ensures
            r.normal(),
            r.total_nanos() == millis * NANOS_PER_MILLI,
            r.total_millis() == millis,
            r.secs == millis / 1000,
            r.nanos == (millis % 1000) * NANOS_PER_MILLI,
    {
        Span { secs: millis / 1000, nanos: (millis % 1000) as u32 * NANOS_PER_MILLI }
    }

    pub fn from_secs(secs: u64) -> (r: Span)
        ensures
            r.secs == secs,
            r.nanos == 0,
    {
        Span { secs, nanos: 0 }
    }

    pub fn as_nanos(self) -> (r: u128)
        ensures
            r == self.total_nanos(),
    {
        self.secs as u128 * 1_000_000_000 + self.nanos as u128
    }

    pub fn as_millis(self) -> (r: u128)
        ensures
            r == self.total_millis(),
    {
        self.as_nanos() / NANOS_PER_MILLI as u128
    }
}

/// A moment on the monotonic clock of the standard library.
#[verifier::external_type_specification]
#[verifier::external_body]
pub struct ExInstant(std::time::Instant);

/// `std::time::Instant::now`: some moment; which one is not said.
pub assume_specification[ std::time::Instant::now ]() -> std::time::Instant
;

/// `std::time::Instant::elapsed`, taken apart by `Duration::as_secs` and `Duration::subsec_nanos`:
/// the time since `start`. Nothing is said of how long that is; its fraction is less than a second.
#[verifier::external_body]
fn elapsed_since(start: &std::time::Instant) -> (r: Span)
    ensures
        r.normal(),
{
    let elapsed = start.elapsed();
    Span { secs: elapsed.as_secs(), nanos: elapsed.subsec_nanos() }
}

/// The clock stood at `origin` when it was read.
pub closed spec fn read_off_clock(origin: std::time::Instant) -> bool {
    call_ensures(std::time::Instant::now, (), origin)
}

/// The clock showed that `now` has gone by since `origin`.
pub closed spec fn shown_by_clock(origin: std::time::Instant, now: Span) -> bool {
    call_ensures(elapsed_since, (&origin,), now)
}

/// Read the clock.
pub(crate) fn clock() -> (origin: std::time::Instant)
    ensures
        read_off_clock(origin),
{
    std::time::Instant::now()
}

/// Read off the clock how long ago `origin` was.
pub(crate) fn clock_since(origin: &std::time::Instant) -> (now: Span)
    ensures
        shown_by_clock(*origin, now),
        now.normal(),
{
    elapsed_since(origin)
}

} // verus!
