//! The two clocks that the vault reads: the monotonic clock, for idle
//! time-outs and rate limits, and the calendar clock, for time stamps.

use vstd::prelude::*;

verus! {

/// Milliseconds in an hour.
pub const MILLIS_PER_HOUR: i64 = 3_600_000;

/// Milliseconds in a day.
pub const MILLIS_PER_DAY: i64 = 86_400_000;

/// Nanoseconds in a second.
pub const NANOS_PER_SECOND: u128 = 1_000_000_000;

/// The longest span that the monotonic clock can report, in nanoseconds:
/// 2^64 - 1 seconds and 999,999,999 nanoseconds.
pub const MAX_ELAPSED_NANOS: u128 = 18_446_744_073_709_551_615_999_999_999;

/// A point on the monotonic clock.
#[verifier::external_type_specification]
#[verifier::external_body]
pub struct ExInstant(std::time::Instant);

/// `Instant::now` reads the monotonic clock; nothing is known of the value.
pub assume_specification[ std::time::Instant::now ]() -> (now: std::time::Instant)
;

/// `Instant::elapsed` measures the time since an instant; nothing is known
/// of the value.
pub assume_specification[ std::time::Instant::elapsed ](origin: &std::time::Instant) -> (elapsed:
    std::time::Duration)
;

/// `Duration::as_nanos` gives a span in nanoseconds, which is at most the
/// longest span that a `Duration` holds.
pub assume_specification[ std::time::Duration::as_nanos ](span: &std::time::Duration) -> (nanos:
    u128)
    ensures
        nanos <= MAX_ELAPSED_NANOS,
;

/// A bound on what the calendar clock reports, in milliseconds: beyond the
/// end of the year 262142, the last that `chrono` can hold.
pub const MAX_CLOCK_MILLIS: i64 = 9_000_000_000_000_000;

/// A time that the calendar clock can report.
pub open spec fn is_clock_time(millis: i64) -> bool {
    0 <= millis <= MAX_CLOCK_MILLIS
}

/// Reads the calendar clock with `chrono::Utc::now` and converts the result
/// to milliseconds since 1970-01-01 00:00:00 UTC. These are not negative,
/// since `now` does not return where the system clock stands before that,
/// and they end before the year 262143, where the calendar of `chrono`
/// ends.
#[verifier::external_body]
pub(crate) fn utc_now_millis() -> (millis: i64)
    ensures
        is_clock_time(millis),
{
    chrono::Utc::now().timestamp_millis()
}

/// Whole days from `earlier` to `later`, both in milliseconds; a part of a
/// day does not count, in either direction.
pub open spec fn days_between(later: i64, earlier: i64) -> int {
    if later >= earlier {
        (later - earlier) / (MILLIS_PER_DAY as int)
    } else {
        -((earlier - later) / (MILLIS_PER_DAY as int))
    }
}

/// Counts the whole days from `earlier` to `later`.
pub fn whole_days_between(later: i64, earlier: i64) -> (days: i64)
    ensures
        days == days_between(later, earlier),
{
    if later >= earlier {
        let span: i128 = (later as i128) - (earlier as i128);
        (span / 86_400_000) as i64
    } else {
        let span: i128 = (earlier as i128) - (later as i128);
        -((span / 86_400_000) as i64)
    }
}

/// Reads the local wall clock with `chrono::Local::now` and takes its hour
/// with `Timelike::hour`, which is a number from 0 to 23.
#[verifier::external_body]
pub(crate) fn local_hour() -> (hour: u32)
    ensures
        hour <= 23,
{
    chrono::Timelike::hour(&chrono::Local::now())
}

/// A time stamp as `chrono` prints it in a format; `None` where the
/// calendar of `chrono` does not reach that far.
pub uninterp spec fn utc_calendar_text(millis: i64, format: Seq<char>) -> Option<Seq<char>>;

/// The format in which time stamps are printed: date, time of day and the
/// time zone, as in `2000-01-12 01:02:03 UTC`.
pub open spec fn time_format() -> Seq<char> {
    "%Y-%m-%d %H:%M:%S UTC"@
}

/// Converts milliseconds since 1970-01-01 00:00:00 UTC with
/// `chrono::DateTime::from_timestamp_millis` and prints the date and time
/// with `DateTime::format`. `requires` admits the one format that the
/// library prints in, which `format` takes. The contract names the result.
#[verifier::external_body]
pub(crate) fn utc_text(millis: i64, format: &str) -> (text: Option<String>)
    requires
        format@ == time_format(),
    ensures
        (match text {
            Some(t) => Some(t@),
            None => None,
        }) == utc_calendar_text(millis, format@),
{
    match chrono::DateTime::from_timestamp_millis(millis) {
        Some(time) => Some(time.format(format).to_string()),
        None => None,
    }
}

/// The nanoseconds that have passed on the monotonic clock since `origin`.
pub fn nanos_since(origin: &std::time::Instant) -> (nanos: u128)
    ensures
        nanos <= MAX_ELAPSED_NANOS,
{
    let elapsed = origin.elapsed();
    elapsed.as_nanos()
}

} // verus!
