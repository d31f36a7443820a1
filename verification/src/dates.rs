//! Dates written by sites and by the challenge solver.
use vstd::prelude::*;

verus! {

/// The Unix time that `chrono` reads from a date with time and zone; `None` where it reads none.
pub uninterp spec fn utc_time(text: Seq<char>) -> Option<i64>;

/// The Unix time that `chrono` reads from a date in the given format, taken as UTC; `None` where
/// the text is not in that format.
pub uninterp spec fn formatted_time(text: Seq<char>, format: Seq<char>) -> Option<i64>;

/// `str::parse::<chrono::DateTime<Utc>>` and `DateTime::timestamp`. The result depends on the text
/// alone.
#[verifier::external_body]
pub(crate) fn parse_utc(text: &str) -> (time: Option<i64>)
    ensures
        time == utc_time(text@),
{
    let date = text.parse::<chrono::DateTime<chrono::Utc>>();
    date.ok().map(|date| date.timestamp())
}

/// `chrono::NaiveDateTime::parse_from_str`, and the `timestamp` of the date as UTC. The result
/// depends on the two texts alone.
#[verifier::external_body]
pub(crate) fn parse_formatted(text: &str, format: &str) -> (time: Option<i64>)
    ensures
        time == formatted_time(text@, format@),
{
    let date = chrono::NaiveDateTime::parse_from_str(text, format);
    date.ok().map(|date| date.and_utc().timestamp())
}

/// The time, or the beginning of Unix time where there is none.
pub open spec fn or_epoch(time: Option<i64>) -> i64 {
    match time {
        Some(seconds) => seconds,
        None => 0,
    }
}

/// The time, or the beginning of Unix time where there is none.
pub fn time_or_epoch(time: Option<i64>) -> (seconds: i64)
    ensures
        seconds == or_epoch(time),
{
    match time {
        Some(seconds) => seconds,
        None => 0,
    }
}

/// The Unix time of the first second of the year -9999.
pub const FIRST_SECOND: i64 = -377705116800;

/// The Unix time of the last second of the year 9999.
pub const LAST_SECOND: i64 = 253402300799;

/// `cookie::time::OffsetDateTime::from_unix_timestamp`, and the `unix_timestamp` of what it
/// returns: the time that was given, if it lies in the years -9999 to 9999.
#[verifier::external_body]
pub(crate) fn calendar_time(time: i64) -> (result: Option<i64>)
    ensures
        result == (if FIRST_SECOND <= time <= LAST_SECOND {
            Some(time)
        } else {
            None
        }),
{
    let date = cookie::time::OffsetDateTime::from_unix_timestamp(time);
    date.ok().map(|date| date.unix_timestamp())
}

/// A time stays what it is, and a missing one is the beginning of Unix time.
pub proof fn law_or_epoch(seconds: i64)
    ensures
        or_epoch(Some(seconds)) == seconds,
        or_epoch(None) == 0,
{
}

} // verus!
