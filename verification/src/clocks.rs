//! Collection of clock implementations.  Times are nanoseconds since the Unix epoch (UTC).

use vstd::prelude::*;

verus! {

/// The earliest second that a timestamp can hold: -9999-01-01 00:00:00 UTC.
pub const MIN_UNIX_SECONDS: i64 = -377705116800;

/// The latest second that a timestamp can hold: 9999-12-31 23:59:59 UTC.
pub const MAX_UNIX_SECONDS: i64 = 253402300799;

/// True when `nanos` is a time that a timestamp can hold.
pub open spec fn valid_unix_nanos(nanos: int) -> bool {
    MIN_UNIX_SECONDS * 1_000_000_000 <= nanos <= MAX_UNIX_SECONDS * 1_000_000_000 + 999_999_999
}

/// `a / b` rounded toward zero, as Rust's integer division computes it.
pub open spec fn div_toward_zero(a: int, b: int) -> int {
    if a >= 0 {
        a / b
    } else {
        -((-a) / b)
    }
}

/// `nanos` with its sub-microsecond digits dropped, rounding toward zero.
pub open spec fn truncated_to_micros(nanos: int) -> int {
    div_toward_zero(nanos, 1000) * 1000
}

/// The current time as the system clock reports it.
///
/// Calls `time::OffsetDateTime::now_utc` and converts the result with `unix_timestamp_nanos`.
/// The value depends on the time; the contract states only that it lies in the range of dates
/// that `OffsetDateTime` holds (years -9999 to 9999, as `time` is built here, without its
/// `large-dates` feature).
#[verifier::external_body]
fn system_unix_nanos() -> (r: i128)
    ensures
        valid_unix_nanos(r as int),
{
    time::OffsetDateTime::now_utc().unix_timestamp_nanos()
}

/// Drops the sub-microsecond digits of `nanos`, rounding toward zero.
pub fn truncate_to_micros(nanos: i128) -> (r: i128)
    ensures
        r == truncated_to_micros(nanos as int),
        r % 1000 == 0,
        valid_unix_nanos(nanos as int) ==> valid_unix_nanos(r as int),
{
    let r = nanos / 1000 * 1000;
    assert(r % 1000 == 0) by (nonlinear_arith)
        requires
            r == div_toward_zero(nanos as int, 1000) * 1000,
    ;
    r
}

/// Clock implementation that uses the system clock.
#[derive(Default)]
pub struct SystemClock {}

impl SystemClock {
    /// Returns the current UTC time, truncated to microsecond resolution as this is the
    /// resolution supported by timestamps in the PostgreSQL database.
    pub fn now_utc(&self) -> (r: i128)
        ensures
            r % 1000 == 0,
            valid_unix_nanos(r as int),
    {
        let nanos = system_unix_nanos();
        truncate_to_micros(nanos)
    }
}

/// The instant of the Unix second `seconds`.
///
/// Calls `time::OffsetDateTime::from_unix_timestamp`, which accepts exactly the seconds in the
/// range of dates that `OffsetDateTime` holds, and converts the result with
/// `unix_timestamp_nanos`; the instant of a whole second is that second times 10^9 nanoseconds.
#[verifier::external_body]
fn unix_seconds_to_nanos(seconds: i64) -> (r: i128)
    requires
        MIN_UNIX_SECONDS <= seconds <= MAX_UNIX_SECONDS,
    ensures
        r == seconds * 1_000_000_000,
{
    match time::OffsetDateTime::from_unix_timestamp(seconds) {
        Ok(t) => t.unix_timestamp_nanos(),
        Err(_) => 0,
    }
}

/// A clock that returns a monotonically increasing instant every time it is queried: whole
/// seconds, one apart, starting at a given second.
pub struct MonotonicClock {
    now: u64,
}

/// The instant that a monotonic clock whose next second is `next` reports.
pub open spec fn monotonic_reading(next: u64) -> int {
    next * 1_000_000_000
}

impl MonotonicClock {
    /// The second that the next query returns.
    pub closed spec fn next_second(&self) -> u64 {
        self.now
    }

    /// Creates a new clock whose "now" start time is `now`.
    pub fn new(now: u64) -> (r: Self)
        ensures
            r.next_second() == now,
    {
        MonotonicClock { now }
    }

    /// Returns the current second and advances the clock by one second.
    pub fn now_utc(&mut self) -> (r: i128)
        requires
            old(self).next_second() <= MAX_UNIX_SECONDS,
        ensures
            r == monotonic_reading(old(self).next_second()),
            final(self).next_second() == old(self).next_second() + 1,
    {
        let now = self.now;
        self.now = now + 1;
        unix_seconds_to_nanos(now as i64)
    }
}

/// Every query of a monotonic clock returns an instant exactly one second after the previous
/// query's.
pub proof fn lemma_monotonic_clock_advances(next: u64)
    requires
        next < u64::MAX,
    ensures
        monotonic_reading((next + 1) as u64) == monotonic_reading(next) + 1_000_000_000,
        monotonic_reading((next + 1) as u64) > monotonic_reading(next),
{
    assert(((next + 1) as u64) * 1_000_000_000 == next * 1_000_000_000 + 1_000_000_000)
        by (nonlinear_arith)
        requires
            next < u64::MAX,
    ;
}

} // verus!
