//! Dates and times as plain values.
//!
//! A [`ZonedDateTime`] keeps both the wall-clock reading in its zone and the
//! same instant in UTC, so that rendering needs no time-zone arithmetic. The
//! conversions between the two come from the IANA database that chrono-tz
//! compiles in.
use crate::text::{decimal, push_decimal};
use chrono::{Datelike, NaiveDate, TimeZone, Timelike};
use vstd::prelude::*;

verus! {

/// A calendar date and wall-clock time, without a time zone.
#[derive(Debug, Clone, Copy, PartialEq, Eq, Structural)]
pub struct CivilDateTime {
    pub year: i32,
    pub month: u32,
    pub day: u32,
    pub hour: u32,
    pub minute: u32,
    pub second: u32,
}

/// Whether `year` is a leap year of the proleptic Gregorian calendar.
pub open spec fn is_leap_year(year: int) -> bool {
    (year % 4 == 0 && year % 100 != 0) || year % 400 == 0
}

/// The number of days of `month` (1 to 12) in `year`.
pub open spec fn days_in_month(year: int, month: int) -> int {
    if month == 2 {
        if is_leap_year(year) { 29 } else { 28 }
    } else if month == 4 || month == 6 || month == 9 || month == 11 {
        30
    } else {
        31
    }
}

/// The earliest year a date and time may have: one after the first year
/// chrono represents, so that a time zone's offset (less than a day) keeps
/// the converted instant in range.
pub const MIN_YEAR: i32 = -262142;

/// The latest year a date and time may have: one before the last year
/// chrono represents.
pub const MAX_YEAR: i32 = 262141;

/// Whether `c` names an existing date and time within [`MIN_YEAR`] and
/// [`MAX_YEAR`].
pub open spec fn civil_valid(c: CivilDateTime) -> bool {
    &&& MIN_YEAR <= c.year <= MAX_YEAR
    &&& 1 <= c.month <= 12
    &&& 1 <= c.day <= days_in_month(c.year as int, c.month as int)
    &&& c.hour < 24
    &&& c.minute < 60
    &&& c.second < 60
}

impl CivilDateTime {
    /// Creates a date and time from its fields, without checking them.
    pub fn new(year: i32, month: u32, day: u32, hour: u32, minute: u32, second: u32) -> (r: Self)
        ensures
            r == (CivilDateTime { year, month, day, hour, minute, second }),
    {
        CivilDateTime { year, month, day, hour, minute, second }
    }

    /// Tests whether the fields name an existing date and time within
    /// [`MIN_YEAR`] and [`MAX_YEAR`].
    pub fn is_valid(&self) -> (r: bool)
        ensures
            r == civil_valid(*self),
    {
        if self.year < MIN_YEAR || self.year > MAX_YEAR || self.month < 1 || self.month > 12 {
            return false;
        }
        let y = self.year;
        let leap = (y % 4 == 0 && y % 100 != 0) || y % 400 == 0;
        let days: u32 = if self.month == 2 {
            if leap { 29 } else { 28 }
        } else if self.month == 4 || self.month == 6 || self.month == 9 || self.month == 11 {
            30
        } else {
            31
        };
        1 <= self.day && self.day <= days && self.hour < 24 && self.minute < 60 && self.second < 60
    }
}

/// The wall-clock reading in the IANA zone named `zone` at the UTC instant
/// `utc`, or `None` when no zone has that name.
pub uninterp spec fn local_of_utc(zone: Seq<char>, utc: CivilDateTime) -> Option<CivilDateTime>;

/// The UTC instant at which the IANA zone named `zone` reads `local`, or
/// `None` when no zone has that name or the reading does not occur exactly
/// once there.
pub uninterp spec fn utc_of_local(zone: Seq<char>, local: CivilDateTime) -> Option<CivilDateTime>;

/// Relies on chrono-tz's `Tz::from_str` (exact IANA names) and on chrono's
/// `TimeZone::from_utc_datetime`: the wall-clock reading at a UTC instant.
#[verifier::external_body]
fn zone_local_of_utc(zone: &str, utc: &CivilDateTime) -> (r: Option<CivilDateTime>)
    requires
        civil_valid(*utc),
    ensures
        r == local_of_utc(zone@, *utc),
{
    let tz: chrono_tz::Tz = zone.parse().ok()?;
    let naive = NaiveDate::from_ymd_opt(utc.year, utc.month, utc.day)?
        .and_hms_opt(utc.hour, utc.minute, utc.second)?;
    let t = tz.from_utc_datetime(&naive).naive_local();
    Some(CivilDateTime {
        year: t.year(), month: t.month(), day: t.day(),
        hour: t.hour(), minute: t.minute(), second: t.second(),
    })
}

/// Relies on chrono-tz's `Tz::from_str` (exact IANA names) and on chrono's
/// `TimeZone::from_local_datetime(..).single()`: the UTC instant of a
/// wall-clock reading that occurs exactly once.
#[verifier::external_body]
fn zone_utc_of_local(zone: &str, local: &CivilDateTime) -> (r: Option<CivilDateTime>)
    requires
        civil_valid(*local),
    ensures
        r == utc_of_local(zone@, *local),
{
    let tz: chrono_tz::Tz = zone.parse().ok()?;
    let naive = NaiveDate::from_ymd_opt(local.year, local.month, local.day)?
        .and_hms_opt(local.hour, local.minute, local.second)?;
    let t = tz.from_local_datetime(&naive).single()?.naive_utc();
    Some(CivilDateTime {
        year: t.year(), month: t.month(), day: t.day(),
        hour: t.hour(), minute: t.minute(), second: t.second(),
    })
}

/// An instant together with the IANA time zone it is shown in.
///
/// `local` is the wall-clock reading in `zone` and `utc` the same instant in
/// UTC; the constructors keep the two in step.
#[derive(Debug, Clone, Copy, PartialEq, Eq)]
pub struct ZonedDateTime {
    pub zone: &'static str,
    pub local: CivilDateTime,
    pub utc: CivilDateTime,
}

impl ZonedDateTime {
    /// The instant `utc` (in UTC) shown in the zone named `zone`; `None`
    /// when `utc` is not a valid date and time or no zone has that name.
    pub fn from_utc(zone: &'static str, utc: CivilDateTime) -> (r: Option<Self>)
        ensures
            r == (if civil_valid(utc) {
                match local_of_utc(zone@, utc) {
                    Some(local) => Some(ZonedDateTime { zone, local, utc }),
                    None => None,
                }
            } else {
                None
            }),
    {
        if !utc.is_valid() {
            return None;
        }
        match zone_local_of_utc(zone, &utc) {
            Some(local) => Some(ZonedDateTime { zone, local, utc }),
            None => None,
        }
    }

    /// The instant at which the zone named `zone` reads `local`; `None` when
    /// `local` is not a valid date and time, no zone has that name, or the
    /// reading is skipped or repeated there.
    pub fn from_local(zone: &'static str, local: CivilDateTime) -> (r: Option<Self>)
        ensures
            r == (if civil_valid(local) {
                match utc_of_local(zone@, local) {
                    Some(utc) => Some(ZonedDateTime { zone, local, utc }),
                    None => None,
                }
            } else {
                None
            }),
    {
        if !local.is_valid() {
            return None;
        }
        match zone_utc_of_local(zone, &local) {
            Some(utc) => Some(ZonedDateTime { zone, local, utc }),
            None => None,
        }
    }
}

/// A positive span of time, in whole seconds.
#[derive(Debug, Clone, Copy, PartialEq, Eq, Structural)]
pub struct Duration {
    pub seconds: i64,
}

impl Duration {
    /// A span of `n` seconds.
    pub fn seconds(n: i64) -> (r: Duration)
        ensures
            r.seconds == n,
    {
        Duration { seconds: n }
    }

    /// A span of `n` minutes.
    pub fn minutes(n: i64) -> (r: Duration)
        requires
            i64::MIN <= n * 60 <= i64::MAX,
        ensures
            r.seconds == n * 60,
    {
        Duration { seconds: n * 60 }
    }

    /// A span of `n` hours.
    pub fn hours(n: i64) -> (r: Duration)
        requires
            i64::MIN <= n * 3600 <= i64::MAX,
        ensures
            r.seconds == n * 3600,
    {
        Duration { seconds: n * 3600 }
    }
}

/// The ISO 8601 form of a positive number of seconds, as chrono writes a
/// whole-second `TimeDelta`: `PT<seconds>S`.
pub open spec fn duration_text(seconds: nat) -> Seq<char> {
    seq!['P', 'T'] + decimal(seconds) + seq!['S']
}

/// Appends the ISO 8601 form of a positive duration.
pub fn push_duration(out: &mut Vec<char>, d: Duration)
    requires
        d.seconds > 0,
    ensures
        final(out)@ == old(out)@ + duration_text(d.seconds as nat),
{
    out.push('P');
    out.push('T');
    push_decimal(out, d.seconds as u64);
    out.push('S');
    assert(out@ == old(out)@ + duration_text(d.seconds as nat));
}

} // verus!
