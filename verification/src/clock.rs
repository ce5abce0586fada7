//! The wall clock and dates, as `chrono` gives them.
use vstd::prelude::*;

verus! {

/// A point in time: seconds since the epoch and nanoseconds into the second.
#[derive(Debug, Clone, Copy, PartialEq, Eq, Structural)]
pub struct Moment {
    pub seconds: i64,
    pub nanos: u32,
}

impl Moment {
    /// Nanoseconds since the epoch.
    pub open spec fn total_nanos(self) -> int {
        self.seconds * 1_000_000_000 + self.nanos
    }
}

/// The date that `chrono::DateTime::parse_from_rfc2822` reads.
pub uninterp spec fn rfc2822_date(text: Seq<char>) -> Option<Moment>;

/// The date that `chrono::DateTime::parse_from_rfc3339` reads.
pub uninterp spec fn rfc3339_date(text: Seq<char>) -> Option<Moment>;

/// `chrono::Utc::now()`: the present. The clock that `chrono` reads begins at
/// the epoch, its nanoseconds stay below one second, and it counts days in an
/// `i32`.
#[verifier::external_body]
pub(crate) fn now_moment() -> (r: Moment)
    ensures
        0 <= r.seconds < 0x8000_0000 * 86_400,
        r.nanos < 1_000_000_000,
{
    let now = chrono::Utc::now();
    Moment { seconds: now.timestamp(), nanos: now.timestamp_subsec_nanos() }
}

/// Whole seconds since the epoch.
pub fn now_seconds() -> (r: u64)
    ensures
        r < 0x8000_0000 * 86_400,
{
    now_moment().seconds as u64
}

/// Whole milliseconds since the epoch.
pub fn now_millis() -> (r: i64)
    ensures
        0 <= r < 0x8000_0000 * 86_400_000,
{
    let now = now_moment();
    now.seconds * 1000 + now.nanos as i64 / 1_000_000
}

/// `chrono::DateTime::parse_from_rfc2822`: the date that the text writes, or
/// nothing where it writes none.
#[verifier::external_body]
pub(crate) fn parse_rfc2822(text: &str) -> (r: Option<Moment>)
    ensures
        r == rfc2822_date(text@),
{
    chrono::DateTime::parse_from_rfc2822(text).ok().map(
        |d| Moment { seconds: d.timestamp(), nanos: d.timestamp_subsec_nanos() },
    )
}

/// `chrono::DateTime::parse_from_rfc3339`: the date that the text writes, or
/// nothing where it writes none.
#[verifier::external_body]
pub(crate) fn parse_rfc3339(text: &str) -> (r: Option<Moment>)
    ensures
        r == rfc3339_date(text@),
{
    chrono::DateTime::parse_from_rfc3339(text).ok().map(
        |d| Moment { seconds: d.timestamp(), nanos: d.timestamp_subsec_nanos() },
    )
}

/// The second of its day in which a moment lies. A leap second lies in the
/// second before it.
pub open spec fn second_of_day(seconds: i64) -> int {
    seconds as int % 86_400
}

/// The nanoseconds from `now` until `date`, as `chrono` counts them. The leap
/// second in which `now` lies counts where `date` has the later time of day; the
/// leap second in which `date` lies does not where it has the earlier one.
pub open spec fn nanos_until(date: Moment, now: Moment) -> int {
    let apart = date.total_nanos() - now.total_nanos();
    if second_of_day(date.seconds) > second_of_day(now.seconds) && now.nanos >= 1_000_000_000 {
        apart + 1_000_000_000
    } else if second_of_day(date.seconds) < second_of_day(now.seconds) && date.nanos
        >= 1_000_000_000 {
        apart - 1_000_000_000
    } else {
        apart
    }
}

/// Whole seconds from `now` until `date`, none where it has passed.
pub open spec fn whole_seconds_until(date: Moment, now: Moment) -> int {
    if nanos_until(date, now) <= 0 {
        0
    } else {
        nanos_until(date, now) / 1_000_000_000
    }
}

fn time_of_day(seconds: i64) -> (r: i64)
    ensures
        r == second_of_day(seconds),
{
    if seconds >= 0 {
        seconds % 86_400
    } else {
        86_399 - (-(seconds + 1)) % 86_400
    }
}

/// Whole seconds from `now` until `date`, none where it has passed.
pub fn seconds_until(date: Moment, now: Moment) -> (r: u64)
    requires
        0 <= now.seconds,
    ensures
        r == whole_seconds_until(date, now),
{
    let a: i128 = date.seconds as i128 * 1_000_000_000 + date.nanos as i128;
    let b: i128 = now.seconds as i128 * 1_000_000_000 + now.nanos as i128;
    let at = time_of_day(date.seconds);
    let from = time_of_day(now.seconds);
    let apart: i128 = if at > from && now.nanos >= 1_000_000_000 {
        a - b + 1_000_000_000
    } else if at < from && date.nanos >= 1_000_000_000 {
        a - b - 1_000_000_000
    } else {
        a - b
    };
    if apart <= 0 {
        0
    } else {
        (apart / 1_000_000_000) as u64
    }
}

} // verus!
