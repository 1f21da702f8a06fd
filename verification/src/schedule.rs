//! Cron schedules, as the `cron` crate provides them, and the one question
//! the daemon asks of them: when a schedule fires next.  Also how a time is
//! written, as the `chrono` crate writes it.
//!
//! Times are milliseconds since the epoch of the local wall clock, the
//! clock by which schedules are written.

use chrono::TimeZone;
use cron::Schedule;
use std::str::FromStr;
use vstd::prelude::*;

verus! {

#[verifier::external_type_specification]
#[verifier::external_body]
pub struct ExSchedule(cron::Schedule);

#[verifier::external_type_specification]
#[verifier::external_body]
pub struct ExScheduleError(cron::error::Error);

/// Whether the text is a schedule expression that the `cron` crate parses.
pub uninterp spec fn cron_expression_parses(expression: Seq<char>) -> bool;

/// The expression that a schedule was parsed from, as `Schedule::source`
/// gives it back.
pub uninterp spec fn schedule_source(schedule: Schedule) -> Seq<char>;

/// Calls `Schedule::from_str`.  Trusted to succeed on exactly the texts
/// that `cron_expression_parses` names, and to give a schedule that
/// remembers the expression it was parsed from.
#[verifier::external_body]
pub(crate) fn parse_schedule(expression: &str) -> (r: Result<Schedule, cron::error::Error>)
    ensures
        r.is_ok() == cron_expression_parses(expression@),
        r matches Ok(schedule) ==> schedule_source(schedule) == expression@,
{
    Schedule::from_str(expression)
}

/// The times that schedules are asked about lie within this many
/// milliseconds of the epoch, some thirty thousand years either way: well
/// inside the calendar of `chrono`, whose arithmetic fails at its ends.
pub const TIME_RANGE_MS: i64 = 1_000_000_000_000_000;

/// Whether a time lies in the range that schedules are asked about.
pub open spec fn time_in_range(time_ms: i64) -> bool {
    -TIME_RANGE_MS <= time_ms <= TIME_RANGE_MS
}

/// The first time after `after_ms` at which the schedule fires, by the
/// local wall clock: the first item of `Schedule::after`, read in the
/// machine's time zone.  `None` if the schedule never fires again or a time
/// cannot be represented.
///
/// Trusted, and nothing is promised of the result: it depends on the time
/// zone of the machine.  The time asked about has to lie in range, for the
/// crate adds a second to it before it looks.
#[verifier::external_body]
pub(crate) fn next_fire_after(schedule: &Schedule, after_ms: i64) -> (next: Option<i64>)
    requires
        time_in_range(after_ms),
{
    let naive = chrono::DateTime::from_timestamp_millis(after_ms)?.naive_utc();
    let local = chrono::Local.from_local_datetime(&naive).earliest()?;
    let next = schedule.after(&local).next()?;
    Some(next.naive_local().and_utc().timestamp_millis())
}

/// A time as text: date and time of day, as `chrono` displays a
/// `NaiveDateTime`; `None` for a time outside the range of its calendar.
pub uninterp spec fn time_text(time_ms: i64) -> Option<Seq<char>>;

/// Calls `DateTime::from_timestamp_millis` and the `Display` of the
/// `NaiveDateTime` it gives.  Trusted to return what `time_text` names:
/// the text is a function of the time alone.
#[verifier::external_body]
pub(crate) fn write_time(time_ms: i64) -> (text: Option<String>)
    ensures
        text.deep_view() == time_text(time_ms),
{
    chrono::DateTime::from_timestamp_millis(time_ms).map(|t| t.naive_utc().to_string())
}

} // verus!
