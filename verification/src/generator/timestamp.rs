//! Timestamps in microseconds since the Unix epoch, and their text.

use vstd::prelude::*;
use vstd::string::StringExecFns;
use std::time::{Duration, SystemTime, SystemTimeError};
use crate::generator::builder::BuilderError;
use crate::text::{decimal_padded, push_decimal_padded};

verus! {

/// A point of the system clock.
#[verifier::external_type_specification]
#[verifier::external_body]
pub struct ExSystemTime(std::time::SystemTime);

/// The error of a clock reading that lies before the reference point.
#[verifier::external_type_specification]
#[verifier::external_body]
pub struct ExSystemTimeError(std::time::SystemTimeError);

/// The span from the Unix epoch to a point of the clock, as
/// `SystemTime::duration_since` of std gives it for `UNIX_EPOCH`: the span
/// for a point at or after the epoch, the error of std for an earlier one.
pub uninterp spec fn elapsed_since_epoch(time: SystemTime) -> Result<Duration, SystemTimeError>;

/// The whole microseconds that a span holds, as `Duration::as_micros` of
/// std counts them.
pub uninterp spec fn micros_of_duration(duration: Duration) -> u128;

/// Reads the system clock.
///
/// Trusted: calls `SystemTime::now` of std. Nothing is claimed of the
/// reading.
#[verifier::external_body]
fn clock_now() -> SystemTime {
    SystemTime::now()
}

/// Measures a point of time from the Unix epoch.
///
/// Trusted: calls `SystemTime::duration_since` of std with `UNIX_EPOCH`.
/// The claim gives the outcome its name and says no more of it; std fails
/// the call for a point before the epoch.
#[verifier::external_body]
fn since_epoch(time: SystemTime) -> (r: Result<Duration, SystemTimeError>)
    ensures
        r == elapsed_since_epoch(time),
{
    time.duration_since(std::time::UNIX_EPOCH)
}

/// Counts the whole microseconds of a duration.
///
/// Trusted: calls `Duration::as_micros` of std. The claim gives the count
/// its name and says no more of it.
#[verifier::external_body]
fn whole_micros(duration: Duration) -> (r: u128)
    ensures
        r == micros_of_duration(duration),
{
    duration.as_micros()
}

/// Makes a duration of a number of microseconds.
///
/// Trusted: calls `Duration::from_micros` of std. The claim is that the
/// duration holds just as many whole microseconds as were given.
#[verifier::external_body]
fn duration_of_micros(micros: u64) -> (r: Duration)
    ensures
        micros_of_duration(r) == micros,
{
    Duration::from_micros(micros)
}

/// Adds a duration to the Unix epoch; `None` where the clock type cannot
/// hold the sum.
///
/// Trusted: calls `SystemTime::checked_add` of std on `UNIX_EPOCH`. The
/// claim is that a point that comes back lies at or after the epoch, and as
/// many whole microseconds after it as the duration holds. On which
/// durations a point comes back is left open: that is the platform's.
#[verifier::external_body]
fn epoch_plus(duration: Duration) -> (r: Option<SystemTime>)
    ensures
        r matches Some(time) ==> (elapsed_since_epoch(time) matches Ok(span) && micros_of_duration(
            span,
        ) == micros_of_duration(duration)),
{
    std::time::UNIX_EPOCH.checked_add(duration)
}

/// The low 64 bits of a count of microseconds.
pub fn micros_to_u64(micros: u128) -> (r: u64)
    ensures
        r as int == micros as int % 0x1_0000_0000_0000_0000,
{
    (micros % 0x1_0000_0000_0000_0000u128) as u64
}

/// The timestamp of a span measured from the Unix epoch: the low 64 bits of
/// its whole microseconds. A span that could not be measured, because the
/// point lies before the epoch, gives `TimeError` with the error of the
/// measurement.
pub open spec fn micros_of_elapsed(elapsed: Result<Duration, SystemTimeError>) -> Result<
    u64,
    BuilderError,
> {
    match elapsed {
        Ok(span) => Ok((micros_of_duration(span) as int % 0x1_0000_0000_0000_0000) as u64),
        Err(e) => Err(BuilderError::TimeError(e)),
    }
}

/// The timestamp of a point of the clock, in microseconds since the Unix
/// epoch.
pub open spec fn time_micros(time: SystemTime) -> Result<u64, BuilderError> {
    micros_of_elapsed(elapsed_since_epoch(time))
}

/// Turns a span measured from the Unix epoch into a timestamp, and a failed
/// measurement into `TimeError`.
pub fn elapsed_to_micros(elapsed: Result<Duration, SystemTimeError>) -> (r: Result<
    u64,
    BuilderError,
>)
    ensures
        r == micros_of_elapsed(elapsed),
{
    match elapsed {
        Ok(span) => Ok(micros_to_u64(whole_micros(span))),
        Err(e) => Err(BuilderError::TimeError(e)),
    }
}

/// Converts a point of the system clock to microseconds since the Unix
/// epoch. Fails with `TimeError` for a point before the epoch.
pub fn system_time_to_micros(time: SystemTime) -> (r: Result<u64, BuilderError>)
    ensures
        r == time_micros(time),
        r matches Err(e) ==> e is TimeError,
{
    elapsed_to_micros(since_epoch(time))
}

/// Reads the system clock in microseconds since the Unix epoch: the
/// timestamp of the point that the clock shows. Fails with `TimeError` when
/// the clock is set before the epoch.
pub fn current_timestamp_micros() -> (r: Result<u64, BuilderError>)
    ensures
        exists|time: SystemTime| r == #[trigger] time_micros(time),
        r matches Err(e) ==> e is TimeError,
{
    system_time_to_micros(clock_now())
}

/// Converts microseconds since the Unix epoch to a point of the system
/// clock; `None` where the clock of the platform cannot hold it. The point
/// converts back to the same timestamp.
pub fn micros_to_system_time(micros: u64) -> (r: Option<SystemTime>)
    ensures
        r matches Some(time) ==> time_micros(time) == Ok::<u64, BuilderError>(micros),
{
    epoch_plus(duration_of_micros(micros))
}

/// Year, month and day of the day that lies `days` days after 1970-01-01,
/// in the Gregorian calendar. The count is shifted to start on 0000-03-01,
/// so that leap days fall at the end of a year, and split into eras of 400
/// years.
pub open spec fn civil_from_days(days: int) -> (int, int, int) {
    let shifted = days + 719468;
    let era = shifted / 146097;
    let day_of_era = shifted - era * 146097;
    let year_of_era = (day_of_era - day_of_era / 1460 + day_of_era / 36524 - day_of_era / 146096)
        / 365;
    let day_of_year = day_of_era - (365 * year_of_era + year_of_era / 4 - year_of_era / 100);
    let month_from_march = (5 * day_of_year + 2) / 153;
    let day = day_of_year - (153 * month_from_march + 2) / 5 + 1;
    let month = if month_from_march < 10 {
        month_from_march + 3
    } else {
        month_from_march - 9
    };
    let year = year_of_era + era * 400 + if month <= 2 {
        1int
    } else {
        0int
    };
    (year, month, day)
}

/// The text of a timestamp: `YYYY-MM-DD HH:MM:SS.ffffff`, each part padded
/// with zeros to its width.
pub open spec fn timestamp_text(micros: u64) -> Seq<char> {
    let total_secs = micros as int / 1_000_000;
    let date = civil_from_days(total_secs / 86400);
    let seconds_in_day = total_secs % 86400;
    decimal_padded(date.0 as nat, 4) + seq!['-'] + decimal_padded(date.1 as nat, 2) + seq!['-']
        + decimal_padded(date.2 as nat, 2) + seq![' '] + decimal_padded(
        (seconds_in_day / 3600) as nat,
        2,
    ) + seq![':'] + decimal_padded((seconds_in_day % 3600 / 60) as nat, 2) + seq![':']
        + decimal_padded((seconds_in_day % 60) as nat, 2) + seq!['.'] + decimal_padded(
        (micros as int % 1_000_000) as nat,
        6,
    )
}

/// Computes year, month and day of a day count.
pub fn date_of_days(days: u64) -> (date: (u64, u64, u64))
    requires
        days <= 220_000_000,
    ensures
        date.0 as int == civil_from_days(days as int).0,
        date.1 as int == civil_from_days(days as int).1,
        date.2 as int == civil_from_days(days as int).2,
        1 <= date.1 <= 12,
        1 <= date.2 <= 31,
{
    let shifted: u64 = days + 719468;
    let era: u64 = shifted / 146097;
    let day_of_era: u64 = shifted - era * 146097;
    let year_of_era: u64 = (day_of_era - day_of_era / 1460 + day_of_era / 36524 - day_of_era
        / 146096) / 365;
    let day_of_year: u64 = day_of_era - (365 * year_of_era + year_of_era / 4 - year_of_era / 100);
    let month_from_march: u64 = (5 * day_of_year + 2) / 153;
    let day: u64 = day_of_year - (153 * month_from_march + 2) / 5 + 1;
    let month: u64 = if month_from_march < 10 {
        month_from_march + 3
    } else {
        month_from_march - 9
    };
    let year: u64 = year_of_era + era * 400 + if month <= 2 {
        1
    } else {
        0
    };
    (year, month, day)
}

/// Writes a timestamp as `YYYY-MM-DD HH:MM:SS.ffffff`, in UTC.
pub fn format_timestamp(micros: u64) -> (s: String)
    ensures
        s@ == timestamp_text(micros),
{
    let total_secs: u64 = micros / 1_000_000;
    let remaining_micros: u64 = micros % 1_000_000;
    let days: u64 = total_secs / 86400;
    let seconds_in_day: u64 = total_secs % 86400;
    let date = date_of_days(days);
    let hour: u64 = seconds_in_day / 3600;
    let minute: u64 = (seconds_in_day % 3600) / 60;
    let second: u64 = seconds_in_day % 60;
    let mut out = String::new();
    proof {
        reveal_strlit("-");
        reveal_strlit(" ");
        reveal_strlit(":");
        reveal_strlit(".");
    }
    push_decimal_padded(&mut out, date.0, 4);
    out.append("-");
    push_decimal_padded(&mut out, date.1, 2);
    out.append("-");
    push_decimal_padded(&mut out, date.2, 2);
    out.append(" ");
    push_decimal_padded(&mut out, hour, 2);
    out.append(":");
    push_decimal_padded(&mut out, minute, 2);
    out.append(":");
    push_decimal_padded(&mut out, second, 2);
    out.append(".");
    push_decimal_padded(&mut out, remaining_micros, 6);
    assert(out@ =~= timestamp_text(micros));
    out
}

} // verus!
