//! Instants in UTC, and the ones that a database row records.

use chrono::{TimeZone, Utc};
use vstd::prelude::*;

verus! {

/// The last whole second that a UTC date and time can stand for: the end of the year 262142.
pub const MAX_UTC_SECS: i64 = 8_210_266_876_799;

/// An instant in UTC: whole seconds since January 1, 1970, and the nanoseconds after them.
#[derive(Debug, Clone, Copy, PartialEq, Eq, Structural)]
pub struct Timestamp {
    pub secs: i64,
    pub nanos: u32,
}

impl DeepView for Timestamp {
    type V = Timestamp;

    open spec fn deep_view(&self) -> Timestamp {
        *self
    }
}

impl Timestamp {
    /// The instant lies between 1970 and the end of the calendar's range.
    pub open spec fn valid(self) -> bool {
        &&& 0 <= self.secs <= MAX_UTC_SECS
        &&& self.nanos < 1_000_000_000
    }

    /// Nanoseconds since January 1, 1970.
    pub open spec fn total_nanos(self) -> int {
        self.secs * 1_000_000_000 + self.nanos
    }
}

/// Calls `chrono::TimeZone::timestamp_opt` on `chrono::Utc` and reads the seconds and
/// nanoseconds back from the date that it gives.
///
/// What is claimed of it: from 1970 on it gives a date for each second up to `MAX_UTC_SECS`
/// and for no later one, and that date has the seconds and the nanoseconds asked for.
#[verifier::external_body]
fn utc_timestamp_opt(secs: i64, nanos: u32) -> (date: Option<(i64, u32)>)
    requires
        0 <= secs,
        nanos < 1_000_000_000,
    ensures
        date == (if secs <= MAX_UTC_SECS {
            Some((secs, nanos))
        } else {
            None::<(i64, u32)>
        }),
{
    let date = Utc.timestamp_opt(secs, nanos).single();
    date.map(|d| (d.timestamp(), d.timestamp_subsec_nanos()))
}

/// Calls `chrono::Utc::now` and reads the seconds and nanoseconds of the date that it gives.
///
/// What is claimed of it: the date is one that `Timestamp` can hold. Which one it is rests
/// on the machine's clock. The call needs a clock that stands at 1970 or later.
#[verifier::external_body]
fn utc_now() -> (now: Timestamp)
    ensures
        now.valid(),
{
    let now = Utc::now();
    Timestamp { secs: now.timestamp(), nanos: now.timestamp_subsec_nanos() }
}

/// The instant `ms` milliseconds after the start of 1970, if there is one.
pub open spec fn instant_of_millis(ms: int) -> Option<Timestamp> {
    if 0 <= ms && ms / 1000 <= MAX_UTC_SECS {
        Some(Timestamp { secs: (ms / 1000) as i64, nanos: ((ms % 1000) * 1_000_000) as u32 })
    } else {
        None
    }
}

/// The instant that a count of milliseconds since 1970 stands for.
///
/// Negative counts, and counts past the calendar's range, stand for none.
pub fn millis_to_datetime(ms: i64) -> (instant: Option<Timestamp>)
    ensures
        instant == instant_of_millis(ms as int),
{
    if ms < 0 {
        return None;
    }
    let secs: i64 = ms / 1000;
    let nanos: u32 = ((ms % 1000) * 1_000_000) as u32;
    match utc_timestamp_opt(secs, nanos) {
        Some(date) => Some(Timestamp { secs: date.0, nanos: date.1 }),
        None => None,
    }
}

/// The instant that a record fixes: the one that `recorded` names if it names one, else the
/// one that `row` names. `None` leaves the instant to the clock.
pub open spec fn fixed_instant(recorded: Option<i64>, row: i64) -> Option<Timestamp> {
    match recorded {
        Some(ms) if instant_of_millis(ms as int) is Some => instant_of_millis(ms as int),
        _ => instant_of_millis(row as int),
    }
}

/// The milliseconds that count for a record: its own if they name an instant, else its row's,
/// whether these name one or not.
pub open spec fn counted_millis(recorded: Option<i64>, row: i64) -> i64 {
    match recorded {
        Some(ms) if instant_of_millis(ms as int) is Some => ms,
        _ => row,
    }
}

/// The milliseconds that a record counts by: its own if they name an instant, else its row's.
pub fn recorded_millis(recorded: Option<i64>, row: i64) -> (ms: i64)
    ensures
        ms == counted_millis(recorded, row),
{
    match recorded {
        Some(ms) if millis_to_datetime(ms).is_some() => ms,
        _ => row,
    }
}

/// The instant that a record fixes by its own milliseconds or, failing these, by its row's.
pub fn recorded_instant(recorded: Option<i64>, row: i64) -> (instant: Option<Timestamp>)
    ensures
        instant == fixed_instant(recorded, row),
{
    if let Some(ms) = recorded {
        let instant = millis_to_datetime(ms);
        if instant.is_some() {
            return instant;
        }
    }
    millis_to_datetime(row)
}

/// The instant, or `now` where there is none.
pub open spec fn instant_or(instant: Option<Timestamp>, now: Timestamp) -> Timestamp {
    if instant is Some {
        instant->0
    } else {
        now
    }
}

/// `instant` is the one that a record fixes or, where it fixes none, one of the clock's.
pub open spec fn settles(instant: Timestamp, fixed: Option<Timestamp>) -> bool {
    &&& instant.valid()
    &&& fixed is Some ==> fixed == Some(instant)
}

/// The instant that a record fixes, else the current one.
pub fn instant_or_now(fixed: Option<Timestamp>) -> (instant: Timestamp)
    ensures
        match fixed {
            Some(fixed) => instant == fixed,
            None => instant.valid(),
        },
{
    match fixed {
        Some(instant) => instant,
        None => utc_now(),
    }
}

/// The milliseconds that count for a record name the instant that it fixes.
pub proof fn law_counted_millis_name_the_instant(recorded: Option<i64>, row: i64)
    ensures
        fixed_instant(recorded, row) == instant_of_millis(counted_millis(recorded, row) as int),
{
}

/// Every count of milliseconds that stands for an instant stands for a valid one, and the
/// instant gives the count back.
pub proof fn law_millis_round_trip(ms: i64)
    ensures
        instant_of_millis(ms as int) matches Some(t) ==> t.valid() && t.total_nanos() == ms
            * 1_000_000,
        instant_of_millis(ms as int) is None <==> ms < 0 || ms / 1000 > MAX_UTC_SECS,
{
}

/// Later counts of milliseconds stand for later instants.
pub proof fn law_millis_order(a: i64, b: i64)
    requires
        instant_of_millis(a as int) is Some,
        instant_of_millis(b as int) is Some,
    ensures
        a < b <==> instant_of_millis(a as int)->0.total_nanos() < instant_of_millis(
            b as int,
        )->0.total_nanos(),
{
}

/// The instant of a count of milliseconds is the one whose seconds and nanoseconds make up that
/// count, and nothing finer. Counts before 1970 or past the calendar have none.
pub proof fn law_millis_make_up_the_instant(ms: i64, t: Timestamp)
    ensures
        instant_of_millis(ms as int) == Some(t) <==> {
            &&& 0 <= t.secs <= MAX_UTC_SECS
            &&& t.nanos < 1_000_000_000
            &&& t.secs * 1_000_000_000 + t.nanos == ms * 1_000_000
        },
{
    if instant_of_millis(ms as int) is Some {
        let made = instant_of_millis(ms as int)->0;
        assert(made.secs * 1_000_000_000 + made.nanos == ms * 1_000_000);
    }
}

/// An instant has its seconds and nanoseconds, and is valid from 1970 to the end of the
/// calendar.
pub proof fn law_instants_have_seconds_and_nanoseconds(secs: i64, nanos: u32)
    ensures
        (Timestamp { secs, nanos }).total_nanos() == secs * 1_000_000_000 + nanos,
        (Timestamp { secs, nanos }).valid() <==> 0 <= secs <= MAX_UTC_SECS && nanos
            < 1_000_000_000,
        (Timestamp { secs, nanos }).deep_view() == (Timestamp { secs, nanos }),
{
}

/// The milliseconds that a record names decide its instant, whatever its row says, if they
/// stand for one. If they stand for none, it is as if the record named none, and the row
/// decides.
pub proof fn law_recorded_millis_come_first(ms: i64, row: i64)
    ensures
        instant_of_millis(ms as int) is Some ==> fixed_instant(Some(ms), row) == instant_of_millis(
            ms as int,
        ) && counted_millis(Some(ms), row) == ms,
        instant_of_millis(ms as int) is None ==> fixed_instant(Some(ms), row) == fixed_instant(
            None,
            row,
        ) && counted_millis(Some(ms), row) == row,
        fixed_instant(None, row) == instant_of_millis(row as int),
        counted_millis(None, row) == row,
{
}

/// The clock is asked only for an instant that nothing fixes, and what it then gives is valid.
pub proof fn law_the_clock_comes_last(fixed: Timestamp, now: Timestamp, instant: Timestamp)
    ensures
        instant_or(Some(fixed), now) == fixed,
        instant_or(None, now) == now,
        settles(instant, Some(fixed)) ==> instant == fixed,
        settles(instant, None) ==> 0 <= instant.secs <= MAX_UTC_SECS && instant.nanos
            < 1_000_000_000,
{
}

} // verus!
