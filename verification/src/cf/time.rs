//! CF time coordinate decoding.
//!
//! Parses time units strings like "days since 1970-01-01 00:00:00" and
//! shifts their epoch by an integer count of milliseconds or seconds.
//!
//! Supported calendars:
//! - standard (mixed Gregorian/Julian)
//! - proleptic_gregorian
//! - noleap / 365_day
//! - all_leap / 366_day
//! - 360_day
//! - julian
//!
//! Reference: CF Conventions §4.4 "Time Coordinate"

use vstd::prelude::*;

use chrono::{Datelike, NaiveDate, NaiveDateTime, ParseError, TimeDelta, Timelike};

use crate::cf::calendar::{
    gregorian_date, gregorian_date_of_day, gregorian_day, gregorian_day_number, is_gregorian_date,
    gregorian_day_round_trip, date_lt, gregorian_day_number_increases, gregorian_month_length, is_julian_date,
    julian_date_of_day_increases, julian_date, julian_date_is_valid, julian_date_round_trip,
    julian_day_number_increases, gregorian_date_of_day_increases, gregorian_date_round_trip,
    julian_date_of_day, julian_day, julian_day_number, julian_day_round_trip,
};
use crate::error::Error;
use crate::text::{
    chars_between, find, find_first, find_from_first_match, found_occurs, is_white_space, lowercase,
    occurs_at,
    same_text, trim, trim_of_unpadded, trim_ws, unicode_lowercase,
};

verus! {

#[verifier::external_type_specification]
#[verifier::external_body]
pub struct ExParseError(ParseError);

/// Supported CF calendar types.
#[derive(Debug, Clone, Copy, PartialEq, Eq, Structural)]
pub enum CfCalendar {
    /// Mixed Gregorian/Julian (default).
    Standard,
    /// Proleptic Gregorian (no Julian transition).
    ProlepticGregorian,
    /// No leap years, every year has 365 days.
    NoLeap,
    /// Every year has 366 days.
    AllLeap,
    /// Every month has 30 days (360 days/year).
    Day360,
    /// Julian calendar.
    Julian,
}

/// Time unit for CF time coordinates.
#[derive(Debug, Clone, Copy, PartialEq, Eq, Structural)]
pub enum CfTimeUnit {
    Seconds,
    Minutes,
    Hours,
    Days,
    /// Common month (~30.44 days)
    Months,
}

/// A calendar date and time of day, as chrono's `NaiveDateTime` holds it:
/// the proleptic Gregorian year, month (1-12), day of month, hour, minute,
/// second and nanosecond (at least 1_000_000_000 only during a leap second).
#[derive(Debug, Clone, Copy, PartialEq, Eq, Structural)]
pub struct Epoch {
    pub year: i32,
    pub month: u32,
    pub day: u32,
    pub hour: u32,
    pub minute: u32,
    pub second: u32,
    pub nanosecond: u32,
}

/// Parsed CF time reference.
#[derive(Debug, Clone, Copy, PartialEq, Eq, Structural)]
pub struct CfTimeRef {
    pub unit: CfTimeUnit,
    pub epoch: Epoch,
    pub calendar: CfCalendar,
}

/// What `chrono::NaiveDateTime::parse_from_str` gives for a text and a
/// strftime format, read as an `Epoch`; `None` where it fails.
pub uninterp spec fn chrono_datetime_parse(s: Seq<char>, fmt: Seq<char>) -> Option<Epoch>;

/// What `chrono::NaiveDate::parse_from_str` gives for a text and a strftime
/// format, as (year, month, day); `None` where it fails.
pub uninterp spec fn chrono_date_parse(s: Seq<char>, fmt: Seq<char>) -> Option<(i32, u32, u32)>;

/// What `chrono::NaiveDateTime::checked_add_signed` gives for the date-time
/// that `epoch` spells (built with `NaiveDate::from_ymd_opt` and
/// `and_hms_nano_opt`) and a delta of `ms` milliseconds, read as an `Epoch`;
/// `None` where `epoch` spells no date-time or the sum is out of range.
pub uninterp spec fn chrono_add_millis(epoch: Epoch, ms: i64) -> Option<Epoch>;

/// Calls `chrono::NaiveDateTime::parse_from_str`. The contract claims that
/// it succeeds exactly where `chrono_datetime_parse` is `Some`, and that its
/// result's fields (`Datelike`/`Timelike` getters) are that `Epoch`.
#[verifier::external_body]
fn naive_datetime_parse(s: &str, fmt: &str) -> (r: Result<Epoch, ParseError>)
    ensures
        r is Ok <==> chrono_datetime_parse(s@, fmt@) is Some,
        r matches Ok(e) ==> chrono_datetime_parse(s@, fmt@) == Some(e),
{
    match NaiveDateTime::parse_from_str(s, fmt) {
        Ok(dt) => Ok(Epoch {
            year: dt.year(),
            month: dt.month(),
            day: dt.day(),
            hour: dt.hour(),
            minute: dt.minute(),
            second: dt.second(),
            nanosecond: dt.nanosecond(),
        }),
        Err(e) => Err(e),
    }
}

/// Calls `chrono::NaiveDate::parse_from_str`. The contract claims that it
/// succeeds exactly where `chrono_date_parse` is `Some`, and that its
/// result's year, month and day are that triple.
#[verifier::external_body]
fn naive_date_parse(s: &str, fmt: &str) -> (r: Result<(i32, u32, u32), ParseError>)
    ensures
        r is Ok <==> chrono_date_parse(s@, fmt@) is Some,
        r matches Ok(d) ==> chrono_date_parse(s@, fmt@) == Some(d),
{
    match NaiveDate::parse_from_str(s, fmt) {
        Ok(d) => Ok((d.year(), d.month(), d.day())),
        Err(e) => Err(e),
    }
}

/// The epochs that chrono can hold: `NaiveDate::from_ymd_opt` takes years
/// from -262143 to 262142 and existing Gregorian dates only, and
/// `NaiveTime::from_hms_nano_opt` takes hours below 24, minutes and seconds
/// below 60, and nanoseconds below 2e9, at least 1e9 (a leap second) only
/// in second 59.
pub open spec fn chrono_valid(e: Epoch) -> bool {
    &&& -262143 <= e.year <= 262142
    &&& is_gregorian_date(e.year as int, e.month as int, e.day as int)
    &&& e.hour < 24 && e.minute < 60 && e.second < 60
    &&& e.nanosecond < 2_000_000_000
    &&& e.nanosecond >= 1_000_000_000 ==> e.second == 59
}

/// `a` comes no later than `b`, reading their fields from the year down to
/// the nanosecond.
pub open spec fn epoch_le(a: Epoch, b: Epoch) -> bool {
    ||| a.year < b.year
    ||| a.year == b.year && a.month < b.month
    ||| a.year == b.year && a.month == b.month && a.day < b.day
    ||| a.year == b.year && a.month == b.month && a.day == b.day && a.hour < b.hour
    ||| a.year == b.year && a.month == b.month && a.day == b.day && a.hour == b.hour && a.minute
        < b.minute
    ||| a.year == b.year && a.month == b.month && a.day == b.day && a.hour == b.hour && a.minute
        == b.minute && a.second < b.second
    ||| a.year == b.year && a.month == b.month && a.day == b.day && a.hour == b.hour && a.minute
        == b.minute && a.second == b.second && a.nanosecond <= b.nanosecond
}

/// Calls `chrono::NaiveDateTime::checked_add_signed` with
/// `TimeDelta::milliseconds(ms)`, on the date-time that `epoch` spells.
/// The contract claims that the result is the named `chrono_add_millis`,
/// and these facts of chrono's source:
/// - an epoch that chrono cannot hold (`chrono_valid`) gives `None`, as
///   `from_ymd_opt` or `and_hms_nano_opt` fail, and a result is one that it
///   can hold;
/// - adding 0 ms gives the epoch back (no carry, `add_days(0)`);
/// - from an epoch outside a leap second, the sum is plain arithmetic on the
///   total of nanoseconds, so a larger delta never gives an earlier result.
/// `TimeDelta::milliseconds` panics for `i64::MIN`, which the contract
/// leaves out.
#[verifier::external_body]
fn naive_add_millis(epoch: Epoch, ms: i64) -> (r: Option<Epoch>)
    requires
        ms != i64::MIN,
    ensures
        r == chrono_add_millis(epoch, ms),
        !chrono_valid(epoch) ==> r is None,
        r matches Some(t) ==> chrono_valid(t),
        ms == 0 && chrono_valid(epoch) ==> r == Some(epoch),
        epoch.nanosecond < 1_000_000_000 ==> (r matches Some(t) ==> forall|ms2: i64|
            #![trigger chrono_add_millis(epoch, ms2)]
            ms2 != i64::MIN && chrono_add_millis(epoch, ms2) is Some ==> chrono_valid(
                chrono_add_millis(epoch, ms2).unwrap(),
            ) && (ms <= ms2 ==> epoch_le(
                t,
                chrono_add_millis(epoch, ms2).unwrap(),
            )) && (ms2 <= ms ==> epoch_le(chrono_add_millis(epoch, ms2).unwrap(), t))),
{
    let d = NaiveDate::from_ymd_opt(epoch.year, epoch.month, epoch.day)?;
    let dt = d.and_hms_nano_opt(epoch.hour, epoch.minute, epoch.second, epoch.nanosecond)?;
    let t = dt.checked_add_signed(TimeDelta::milliseconds(ms))?;
    Some(Epoch {
        year: t.year(),
        month: t.month(),
        day: t.day(),
        hour: t.hour(),
        minute: t.minute(),
        second: t.second(),
        nanosecond: t.nanosecond(),
    })
}

/// The calendar that a trimmed, lower-cased calendar name denotes; any
/// other name denotes the default, `Standard`.
pub open spec fn calendar_of_name(s: Seq<char>) -> CfCalendar {
    if s == "standard"@ || s == "gregorian"@ {
        CfCalendar::Standard
    } else if s == "proleptic_gregorian"@ {
        CfCalendar::ProlepticGregorian
    } else if s == "noleap"@ || s == "365_day"@ {
        CfCalendar::NoLeap
    } else if s == "all_leap"@ || s == "366_day"@ {
        CfCalendar::AllLeap
    } else if s == "360_day"@ {
        CfCalendar::Day360
    } else if s == "julian"@ {
        CfCalendar::Julian
    } else {
        CfCalendar::Standard
    }
}

/// The time unit that a trimmed unit name denotes.
pub open spec fn unit_of_name(s: Seq<char>) -> Option<CfTimeUnit> {
    if s == "second"@ || s == "seconds"@ || s == "s"@ {
        Some(CfTimeUnit::Seconds)
    } else if s == "minute"@ || s == "minutes"@ || s == "min"@ {
        Some(CfTimeUnit::Minutes)
    } else if s == "hour"@ || s == "hours"@ || s == "hr"@ || s == "h"@ {
        Some(CfTimeUnit::Hours)
    } else if s == "day"@ || s == "days"@ || s == "d"@ {
        Some(CfTimeUnit::Days)
    } else if s == "month"@ || s == "months"@ {
        Some(CfTimeUnit::Months)
    } else {
        None
    }
}

/// Midnight at the start of a date.
pub open spec fn midnight(d: (i32, u32, u32)) -> Epoch {
    Epoch { year: d.0, month: d.1, day: d.2, hour: 0, minute: 0, second: 0, nanosecond: 0 }
}

/// The epoch that a text spells: the first of these date-time formats that
/// chrono accepts, else a bare date at midnight.
pub open spec fn epoch_of_text(s: Seq<char>) -> Option<Epoch> {
    if let Some(e) = chrono_datetime_parse(s, "%Y-%m-%d %H:%M:%S%.f"@) {
        Some(e)
    } else if let Some(e) = chrono_datetime_parse(s, "%Y-%m-%d %H:%M:%S"@) {
        Some(e)
    } else if let Some(e) = chrono_datetime_parse(s, "%Y-%m-%dT%H:%M:%S%.f"@) {
        Some(e)
    } else if let Some(e) = chrono_datetime_parse(s, "%Y-%m-%dT%H:%M:%S"@) {
        Some(e)
    } else if let Some(e) = chrono_datetime_parse(s, "%Y-%m-%d %H:%M"@) {
        Some(e)
    } else if let Some(e) = chrono_datetime_parse(s, "%Y-%m-%d"@) {
        Some(e)
    } else if let Some(d) = chrono_date_parse(s, "%Y-%m-%d"@) {
        Some(midnight(d))
    } else {
        None
    }
}

/// The message for an epoch that cannot be parsed.
pub open spec fn bad_epoch_message(s: Seq<char>) -> Seq<char> {
    "cannot parse CF epoch '"@ + s + "'"@
}

/// The outcome of parsing a CF time units string: the reference, or the
/// message of the error.
pub open spec fn time_units_outcome(units: Seq<char>, calendar: CfCalendar) -> Result<
    CfTimeRef,
    Seq<char>,
> {
    let lower = unicode_lowercase(trim_ws(units));
    match find_first(lower, " since "@) {
        None => Err(
            "invalid CF time units '"@ + units + "': expected '<unit> since <date>'"@,
        ),
        Some(i) => {
            let unit_text = trim_ws(lower.subrange(0, i));
            let date_text = trim_ws(lower.subrange(i + " since "@.len(), lower.len() as int));
            match unit_of_name(unit_text) {
                None => Err("unsupported CF time unit '"@ + unit_text + "'"@),
                Some(unit) => match epoch_of_text(date_text) {
                    None => Err(bad_epoch_message(date_text)),
                    Some(epoch) => Ok(CfTimeRef { unit, epoch, calendar }),
                },
            }
        },
    }
}

/// The date of `e` lies before the Gregorian reform, 1582-10-15.
pub open spec fn before_reform(e: Epoch) -> bool {
    ||| e.year < 1582
    ||| e.year == 1582 && e.month < 10
    ||| e.year == 1582 && e.month == 10 && e.day < 15
}

/// `e` with its date replaced by `date`, where the year fits an `i32` and
/// month and day fit a `u32`.
pub open spec fn epoch_on_date(e: Epoch, date: (int, int, int)) -> Option<Epoch> {
    if i32::MIN <= date.0 <= i32::MAX && 0 <= date.1 <= u32::MAX && 0 <= date.2 <= u32::MAX {
        Some(
            Epoch {
                year: date.0 as i32,
                month: date.1 as u32,
                day: date.2 as u32,
                hour: e.hour,
                minute: e.minute,
                second: e.second,
                nanosecond: e.nanosecond,
            },
        )
    } else {
        None
    }
}

/// `e`, read as a Julian calendar date, on the Gregorian calendar; `None`
/// where its date is no Julian date.
pub open spec fn julian_to_gregorian(e: Epoch) -> Option<Epoch> {
    if is_julian_date(e.year as int, e.month as int, e.day as int) {
        epoch_on_date(
            e,
            gregorian_date_of_day(julian_day_number(e.year as int, e.month as int, e.day as int)),
        )
    } else {
        None
    }
}

/// `e`, read as a Gregorian calendar date, on the Julian calendar.
pub open spec fn gregorian_to_julian(e: Epoch) -> Option<Epoch> {
    epoch_on_date(
        e,
        julian_date_of_day(gregorian_day_number(e.year as int, e.month as int, e.day as int)),
    )
}

/// How the standard calendar labels the Gregorian date-time `t`: on the
/// Julian calendar before 1582-10-15, as it is from then on.
pub open spec fn standard_label(t: Epoch) -> Option<Epoch> {
    if before_reform(t) {
        gregorian_to_julian(t)
    } else {
        Some(t)
    }
}

/// The date of an epoch.
pub open spec fn epoch_date(e: Epoch) -> (int, int, int) {
    (e.year as int, e.month as int, e.day as int)
}

/// The last Julian day of the standard calendar, 1582-10-04, is the day
/// before 1582-10-15.
proof fn reform_day_facts()
    ensures
        gregorian_day_number(1582, 10, 15) == 2299161,
        julian_date_of_day(2299160) == (1582int, 10int, 4int),
        is_gregorian_date(1582, 10, 15),
{
    assert(gregorian_day_number(1582, 10, 15) == 2299161);
    assert(julian_date_of_day(2299160) == (1582int, 10int, 4int));
    assert(gregorian_month_length(1582, 10) == 31);
}

/// A Gregorian date before 1582-10-15 has a Julian label before it too.
proof fn julian_label_before_reform(t: Epoch)
    requires
        chrono_valid(t),
        before_reform(t),
    ensures
        date_lt(
            julian_date_of_day(gregorian_day_number(t.year as int, t.month as int, t.day as int)),
            (1582, 10, 15),
        ),
{
    reform_day_facts();
    let g = gregorian_day_number(t.year as int, t.month as int, t.day as int);
    gregorian_day_number_increases(t.year as int, t.month as int, t.day as int, 1582, 10, 15);
    if g < 2299160 {
        julian_date_of_day_increases(g, 2299160);
    }
}

/// Julian labels of Gregorian dates keep their order.
proof fn julian_label_order(t1: Epoch, t2: Epoch)
    requires
        chrono_valid(t1),
        chrono_valid(t2),
        date_lt(epoch_date(t1), epoch_date(t2)),
    ensures
        date_lt(
            julian_date_of_day(gregorian_day_number(t1.year as int, t1.month as int, t1.day as int)),
            julian_date_of_day(gregorian_day_number(t2.year as int, t2.month as int, t2.day as int)),
        ),
{
    gregorian_day_number_increases(
        t1.year as int,
        t1.month as int,
        t1.day as int,
        t2.year as int,
        t2.month as int,
        t2.day as int,
    );
    julian_date_of_day_increases(
        gregorian_day_number(t1.year as int, t1.month as int, t1.day as int),
        gregorian_day_number(t2.year as int, t2.month as int, t2.day as int),
    );
}

/// The standard calendar's labels keep the order of the Gregorian
/// date-times they label.
proof fn standard_label_order(t1: Epoch, t2: Epoch)
    requires
        chrono_valid(t1),
        chrono_valid(t2),
        epoch_le(t1, t2),
        standard_label(t1) is Some,
        standard_label(t2) is Some,
    ensures
        epoch_le(standard_label(t1).unwrap(), standard_label(t2).unwrap()),
{
    if before_reform(t1) && epoch_date(t1) != epoch_date(t2) {
        assert(date_lt(epoch_date(t1), epoch_date(t2)));
        if before_reform(t2) {
            julian_label_order(t1, t2);
        } else {
            julian_label_before_reform(t1);
        }
    }
}

/// `e` shifted by `ms` milliseconds on the standard (mixed Julian and
/// Gregorian) calendar: dates before 1582-10-15 are Julian dates, later
/// ones Gregorian, so that Julian 1582-10-04 is followed by 1582-10-15.
/// The shift itself is chrono's, on the Gregorian reading of `e`.
pub open spec fn standard_shift(e: Epoch, ms: i64) -> Option<Epoch> {
    let start = if before_reform(e) {
        julian_to_gregorian(e)
    } else {
        Some(e)
    };
    match start {
        None => None,
        Some(g) => match chrono_add_millis(g, ms) {
            None => None,
            Some(t) => standard_label(t),
        },
    }
}

/// The instant, on the proleptic Gregorian calendar, that an epoch read on
/// `calendar` denotes: a standard-calendar date before 1582-10-15 is a
/// Julian date and is given on the Gregorian calendar; any other epoch
/// stands as it is.
pub open spec fn gregorian_instant(e: Epoch, calendar: CfCalendar) -> Option<Epoch> {
    if calendar == CfCalendar::Standard && before_reform(e) {
        julian_to_gregorian(e)
    } else {
        Some(e)
    }
}

/// The milliseconds that a count stands for: the count itself for seconds,
/// days and months units, a thousand per count for minutes and hours units.
pub open spec fn count_millis(count: i64, unit: CfTimeUnit) -> i64 {
    match unit {
        CfTimeUnit::Minutes | CfTimeUnit::Hours => (count * 1000) as i64,
        _ => count,
    }
}

/// The epoch of a time reference shifted by `count` (see `count_millis`):
/// on the standard calendar exactly, with Julian dates before 1582-10-15;
/// on any other calendar by the Gregorian approximation.
pub open spec fn shifted_epoch(count: i64, time_ref: CfTimeRef) -> Option<Epoch> {
    let ms = count_millis(count, time_ref.unit);
    if time_ref.calendar == CfCalendar::Standard {
        standard_shift(time_ref.epoch, ms)
    } else {
        chrono_add_millis(time_ref.epoch, ms)
    }
}

/// The counts that `decode_time_count` takes for a unit without panicking:
/// whole seconds within `TimeDelta`'s range (±`i64::MAX / 1000`) for minutes
/// and hours units, any millisecond count but `i64::MIN` otherwise.
pub open spec fn count_in_range(count: i64, unit: CfTimeUnit) -> bool {
    match unit {
        CfTimeUnit::Minutes | CfTimeUnit::Hours => -(i64::MAX / 1000) <= count <= i64::MAX / 1000,
        _ => count != i64::MIN,
    }
}

/// A string made of three parts.
fn concat3(a: &str, b: &str, c: &str) -> (r: String)
    ensures
        r@ == a@ + b@ + c@,
{
    let mut s = String::from_str(a);
    s.append(b);
    s.append(c);
    s
}

impl CfCalendar {
    /// The calendar that a trimmed, lower-cased calendar name denotes;
    /// `Standard` for names it does not know.
    pub fn from_name(s: &str) -> (r: Self)
        ensures
            r == calendar_of_name(s@),
    {
        if same_text(s, "standard") || same_text(s, "gregorian") {
            CfCalendar::Standard
        } else if same_text(s, "proleptic_gregorian") {
            CfCalendar::ProlepticGregorian
        } else if same_text(s, "noleap") || same_text(s, "365_day") {
            CfCalendar::NoLeap
        } else if same_text(s, "all_leap") || same_text(s, "366_day") {
            CfCalendar::AllLeap
        } else if same_text(s, "360_day") {
            CfCalendar::Day360
        } else if same_text(s, "julian") {
            CfCalendar::Julian
        } else {
            CfCalendar::Standard
        }
    }

    /// Parse a calendar name from a CF `calendar` attribute value: trimmed
    /// and lower-cased, unknown names give the default, `Standard`.
    pub fn parse(s: &str) -> (r: Self)
        ensures
            r == calendar_of_name(unicode_lowercase(trim_ws(s@))),
    {
        let lower = lowercase(trim(s));
        CfCalendar::from_name(lower.as_str())
    }
}

/// The time unit that a trimmed unit name denotes ("days", "h", ...).
pub fn unit_from_name(s: &str) -> (r: Option<CfTimeUnit>)
    ensures
        r == unit_of_name(s@),
{
    if same_text(s, "second") || same_text(s, "seconds") || same_text(s, "s") {
        Some(CfTimeUnit::Seconds)
    } else if same_text(s, "minute") || same_text(s, "minutes") || same_text(s, "min") {
        Some(CfTimeUnit::Minutes)
    } else if same_text(s, "hour") || same_text(s, "hours") || same_text(s, "hr") || same_text(
        s,
        "h",
    ) {
        Some(CfTimeUnit::Hours)
    } else if same_text(s, "day") || same_text(s, "days") || same_text(s, "d") {
        Some(CfTimeUnit::Days)
    } else if same_text(s, "month") || same_text(s, "months") {
        Some(CfTimeUnit::Months)
    } else {
        None
    }
}

/// Parse the epoch date/time string: date and time with fractional
/// seconds, with seconds, with a `T` separator, with minutes only, and at
/// last a bare date at midnight.
pub fn parse_epoch(s: &str) -> (r: Result<Epoch, Error>)
    ensures
        match r {
            Ok(e) => epoch_of_text(s@) == Some(e),
            Err(Error::InvalidData(m)) => epoch_of_text(s@) is None && m@ == bad_epoch_message(s@),
            Err(_) => false,
        },
{
    // Try date + time first
    if let Ok(e) = naive_datetime_parse(s, "%Y-%m-%d %H:%M:%S%.f") {
        return Ok(e);
    }
    if let Ok(e) = naive_datetime_parse(s, "%Y-%m-%d %H:%M:%S") {
        return Ok(e);
    }
    if let Ok(e) = naive_datetime_parse(s, "%Y-%m-%dT%H:%M:%S%.f") {
        return Ok(e);
    }
    if let Ok(e) = naive_datetime_parse(s, "%Y-%m-%dT%H:%M:%S") {
        return Ok(e);
    }
    if let Ok(e) = naive_datetime_parse(s, "%Y-%m-%d %H:%M") {
        return Ok(e);
    }
    if let Ok(e) = naive_datetime_parse(s, "%Y-%m-%d") {
        return Ok(e);
    }
    // Try date-only
    if let Ok(d) = naive_date_parse(s, "%Y-%m-%d") {
        return Ok(Epoch { year: d.0, month: d.1, day: d.2, hour: 0, minute: 0, second: 0, nanosecond: 0 });
    }
    Err(Error::InvalidData(concat3("cannot parse CF epoch '", s, "'")))
}

/// Parse a CF time units string like "days since 1970-01-01 00:00:00".
///
/// Format: `<unit> since <date>[ <time>]`, read after trimming and
/// lower-casing the whole string.
pub fn parse_time_units(units: &str, calendar: CfCalendar) -> (r: Result<CfTimeRef, Error>)
    ensures
        match r {
            Ok(t) => time_units_outcome(units@, calendar) == Ok::<CfTimeRef, Seq<char>>(t),
            Err(Error::InvalidData(m)) => time_units_outcome(units@, calendar) == Err::<
                CfTimeRef,
                Seq<char>,
            >(m@),
            Err(_) => false,
        },
        r matches Ok(t) ==> t.calendar == calendar,
{
    let lower = lowercase(trim(units));
    let lower = lower.as_str();
    let sep = " since ";
    proof {
        reveal_strlit(" since ");
    }
    let at = match find(lower, sep) {
        Some(at) => at,
        None => {
            return Err(
                Error::InvalidData(
                    concat3("invalid CF time units '", units, "': expected '<unit> since <date>'"),
                ),
            );
        },
    };
    let n = lower.unicode_len();
    let unit_text = trim(chars_between(lower, 0, at));
    let date_text = trim(chars_between(lower, at + 7, n));
    let unit = match unit_from_name(unit_text) {
        Some(u) => u,
        None => {
            return Err(Error::InvalidData(concat3("unsupported CF time unit '", unit_text, "'")));
        },
    };
    let epoch = parse_epoch(date_text)?;
    Ok(CfTimeRef { unit, epoch, calendar })
}

/// `e` with its date replaced by `y-m-d`, where the year fits an `i32`
/// and month and day fit a `u32`.
fn on_date(e: Epoch, y: i64, m: i64, d: i64) -> (r: Option<Epoch>)
    ensures
        r == epoch_on_date(e, (y as int, m as int, d as int)),
{
    if i32::MIN as i64 <= y && y <= i32::MAX as i64 && 0 <= m && m <= u32::MAX as i64 && 0 <= d
        && d <= u32::MAX as i64 {
        Some(
            Epoch {
                year: y as i32,
                month: m as u32,
                day: d as u32,
                hour: e.hour,
                minute: e.minute,
                second: e.second,
                nanosecond: e.nanosecond,
            },
        )
    } else {
        None
    }
}

/// Whether the date of `e` lies before 1582-10-15.
pub fn is_before_reform(e: &Epoch) -> (r: bool)
    ensures
        r == before_reform(*e),
{
    e.year < 1582 || (e.year == 1582 && e.month < 10) || (e.year == 1582 && e.month == 10 && e.day
        < 15)
}

/// Reads the date of `e` as a Julian date and gives it on the Gregorian
/// calendar; `None` where it is no Julian date.
pub fn julian_epoch_to_gregorian(e: Epoch) -> (r: Option<Epoch>)
    ensures
        r == julian_to_gregorian(e),
{
    let y = e.year as i64;
    let m = e.month as i64;
    let d = e.day as i64;
    if !julian_date_is_valid(y, m, d) {
        return None;
    }
    let j = julian_day(y, m, d);
    let (gy, gm, gd) = gregorian_date(j);
    on_date(e, gy, gm, gd)
}

/// Reads the date of `e` as a Gregorian date and gives it on the Julian
/// calendar.
pub fn gregorian_epoch_to_julian(e: Epoch) -> (r: Option<Epoch>)
    ensures
        r == gregorian_to_julian(e),
{
    let j = gregorian_day(e.year as i64, e.month as i64, e.day as i64);
    let (jy, jm, jd) = julian_date(j);
    on_date(e, jy, jm, jd)
}

/// Shift `e` by `ms` milliseconds on the standard calendar: Julian dates
/// before 1582-10-15, Gregorian dates from then on.
pub fn standard_calendar_shift(e: Epoch, ms: i64) -> (r: Option<Epoch>)
    requires
        ms != i64::MIN,
    ensures
        r == standard_shift(e, ms),
        ms == 0 && chrono_valid(e) && !before_reform(e) ==> r == Some(e),
        e.nanosecond < 1_000_000_000 ==> (r matches Some(l) ==> forall|ms2: i64|
            #![trigger standard_shift(e, ms2)]
            ms2 != i64::MIN && ms <= ms2 && standard_shift(e, ms2) is Some ==> epoch_le(
                l,
                standard_shift(e, ms2).unwrap(),
            )),
{
    let start = if is_before_reform(&e) {
        julian_epoch_to_gregorian(e)
    } else {
        Some(e)
    };
    let g = match start {
        Some(g) => g,
        None => return None,
    };
    let t = match naive_add_millis(g, ms) {
        Some(t) => t,
        None => return None,
    };
    let r = if is_before_reform(&t) {
        gregorian_epoch_to_julian(t)
    } else {
        Some(t)
    };
    proof {
        if e.nanosecond < 1_000_000_000 && r is Some {
            assert forall|ms2: i64|
                #![trigger standard_shift(e, ms2)]
                ms2 != i64::MIN && ms <= ms2 && standard_shift(e, ms2) is Some implies epoch_le(
                r.unwrap(),
                standard_shift(e, ms2).unwrap(),
            ) by {
                let t2 = chrono_add_millis(g, ms2).unwrap();
                standard_label_order(t, t2);
            }
        }
    }
    r
}

/// The instant, on the proleptic Gregorian calendar, that an epoch read on
/// `calendar` denotes: standard-calendar dates before 1582-10-15 are read
/// as Julian dates; `None` where such a date is no Julian date.
pub fn gregorian_reading(e: Epoch, calendar: CfCalendar) -> (r: Option<Epoch>)
    ensures
        r == gregorian_instant(e, calendar),
{
    match calendar {
        CfCalendar::Standard => if is_before_reform(&e) {
            julian_epoch_to_gregorian(e)
        } else {
            Some(e)
        },
        _ => Some(e),
    }
}

/// Shift the epoch of a time reference by an integer count: milliseconds
/// for seconds, days and months units, whole seconds for minutes and hours
/// units. On the standard calendar the shift is exact, with Julian dates
/// before 1582-10-15; on the other calendars it goes by the Gregorian
/// calendar. `None` where the result is out of chrono's range.
pub fn decode_time_count(count: i64, time_ref: &CfTimeRef) -> (r: Option<Epoch>)
    requires
        count_in_range(count, time_ref.unit),
    ensures
        r == shifted_epoch(count, *time_ref),
        // a count of zero gives the epoch back
        count == 0 && chrono_valid(time_ref.epoch) && (time_ref.calendar != CfCalendar::Standard
            || !before_reform(time_ref.epoch)) ==> r == Some(time_ref.epoch),
        // a larger count never gives an earlier epoch
        time_ref.epoch.nanosecond < 1_000_000_000 ==> (r matches Some(t) ==> forall|c2: i64|
            #![trigger shifted_epoch(c2, *time_ref)]
            count <= c2 && count_in_range(c2, time_ref.unit) && shifted_epoch(c2, *time_ref) is Some
                ==> epoch_le(t, shifted_epoch(c2, *time_ref).unwrap())),
{
    let ms = match time_ref.unit {
        CfTimeUnit::Minutes | CfTimeUnit::Hours => count * 1000,
        _ => count,
    };
    assert(ms == count_millis(count, time_ref.unit));
    match time_ref.calendar {
        CfCalendar::Standard => {
            let r = standard_calendar_shift(time_ref.epoch, ms);
            proof {
                if time_ref.epoch.nanosecond < 1_000_000_000 && r is Some {
                    assert forall|c2: i64|
                        #![trigger shifted_epoch(c2, *time_ref)]
                        count <= c2 && count_in_range(c2, time_ref.unit) && shifted_epoch(
                            c2,
                            *time_ref,
                        ) is Some implies epoch_le(
                        r.unwrap(),
                        shifted_epoch(c2, *time_ref).unwrap(),
                    ) by {
                        let ms2 = count_millis(c2, time_ref.unit);
                        assert(shifted_epoch(c2, *time_ref) == standard_shift(time_ref.epoch, ms2));
                        assert(ms <= ms2 && ms2 != i64::MIN);
                    }
                }
            }
            r
        },
        _ => {
            let r = naive_add_millis(time_ref.epoch, ms);
            proof {
                if time_ref.epoch.nanosecond < 1_000_000_000 && r is Some {
                    assert forall|c2: i64|
                        #![trigger shifted_epoch(c2, *time_ref)]
                        count <= c2 && count_in_range(c2, time_ref.unit) && shifted_epoch(
                            c2,
                            *time_ref,
                        ) is Some implies epoch_le(
                        r.unwrap(),
                        shifted_epoch(c2, *time_ref).unwrap(),
                    ) by {
                        let ms2 = count_millis(c2, time_ref.unit);
                        assert(shifted_epoch(c2, *time_ref) == chrono_add_millis(time_ref.epoch, ms2));
                        assert(ms <= ms2 && ms2 != i64::MIN);
                    }
                }
            }
            r
        },
    }
}

/// The calendars other than the standard one decode by the Gregorian
/// calendar alike: two references that differ only in such a calendar
/// decode every count to the same epoch.
pub proof fn non_standard_calendars_decode_alike(count: i64, a: CfTimeRef, b: CfTimeRef)
    requires
        a.unit == b.unit,
        a.epoch == b.epoch,
        a.calendar != CfCalendar::Standard,
        b.calendar != CfCalendar::Standard,
    ensures
        shifted_epoch(count, a) == shifted_epoch(count, b),
{
}

/// From the reform on, the standard calendar is the Gregorian one: where
/// the epoch and the shifted epoch both fall on or after 1582-10-15, the
/// standard and the proleptic Gregorian calendars decode alike.
pub proof fn standard_is_gregorian_after_reform(count: i64, a: CfTimeRef, b: CfTimeRef)
    requires
        a.unit == b.unit,
        a.epoch == b.epoch,
        a.calendar == CfCalendar::Standard,
        b.calendar == CfCalendar::ProlepticGregorian,
        !before_reform(a.epoch),
        chrono_add_millis(a.epoch, count_millis(count, a.unit)) matches Some(t) && !before_reform(t),
    ensures
        shifted_epoch(count, a) == shifted_epoch(count, b),
{
}

/// Reading a Julian epoch on the Gregorian calendar keeps its day (its day
/// number) and its time of day.
pub proof fn julian_to_gregorian_keeps_the_day(e: Epoch)
    requires
        julian_to_gregorian(e) is Some,
    ensures
        ({
            let g = julian_to_gregorian(e).unwrap();
            &&& gregorian_day_number(g.year as int, g.month as int, g.day as int)
                == julian_day_number(e.year as int, e.month as int, e.day as int)
            &&& g.hour == e.hour && g.minute == e.minute && g.second == e.second
            &&& g.nanosecond == e.nanosecond
        }),
{
    gregorian_day_round_trip(julian_day_number(e.year as int, e.month as int, e.day as int));
}

/// Reading a Gregorian epoch on the Julian calendar keeps its day (its day
/// number) and its time of day.
pub proof fn gregorian_to_julian_keeps_the_day(e: Epoch)
    requires
        gregorian_to_julian(e) is Some,
    ensures
        ({
            let t = gregorian_to_julian(e).unwrap();
            &&& julian_day_number(t.year as int, t.month as int, t.day as int)
                == gregorian_day_number(e.year as int, e.month as int, e.day as int)
            &&& t.hour == e.hour && t.minute == e.minute && t.second == e.second
            &&& t.nanosecond == e.nanosecond
        }),
{
    julian_day_round_trip(gregorian_day_number(e.year as int, e.month as int, e.day as int));
}

/// The calendar handed to `parse_time_units` is the one that the parsed
/// reference carries, and it has no say in whether the units parse.
pub proof fn units_parse_independent_of_calendar(units: Seq<char>, a: CfCalendar, b: CfCalendar)
    ensures
        time_units_outcome(units, a) is Ok <==> time_units_outcome(units, b) is Ok,
        time_units_outcome(units, a) matches Ok(t) ==> t.calendar == a,
{
}

/// Time units that read `name + " since " + rest`, once trimmed and
/// lower-cased, with a unit name free of whitespace: the unit text is `name`
/// and the date text is `rest`, trimmed.
proof fn units_split(units: Seq<char>, name: Seq<char>, rest: Seq<char>)
    requires
        unicode_lowercase(trim_ws(units)) == name + " since "@ + rest,
        name.len() > 0,
        forall|i: int| 0 <= i < name.len() ==> !is_white_space(#[trigger] name[i]),
    ensures
        ({
            let lower = unicode_lowercase(trim_ws(units));
            &&& find_first(lower, " since "@) == Some(name.len() as int)
            &&& trim_ws(lower.subrange(0, name.len() as int)) == name
            &&& trim_ws(lower.subrange((name.len() + " since "@.len()) as int, lower.len() as int))
                == trim_ws(rest)
        }),
{
    let lower = unicode_lowercase(trim_ws(units));
    let n = name.len() as int;
    reveal_strlit(" since ");
    assert(is_white_space(' '));
    assert forall|i: int| 0 <= i < n implies lower[i] != " since "@[0] by {
        assert(lower[i] == name[i]);
    }
    assert(lower.subrange(n, n + 7) =~= " since "@);
    assert(occurs_at(lower, " since "@, n));
    find_from_first_match(lower, " since "@, 0, n);
    assert(lower.subrange(0, n) =~= name);
    assert(!is_white_space(name[0]) && !is_white_space(name[n - 1]));
    trim_of_unpadded(name);
    assert(lower.subrange(n + 7, lower.len() as int) =~= rest);
}

/// Units that read `name + " since " + rest` with a known unit name parse
/// to that unit, from the epoch that `rest` spells, where it spells one.
proof fn named_unit_parses(units: Seq<char>, calendar: CfCalendar, name: Seq<char>, rest: Seq<char>)
    requires
        unicode_lowercase(trim_ws(units)) == name + " since "@ + rest,
        name.len() > 0,
        forall|i: int| 0 <= i < name.len() ==> !is_white_space(#[trigger] name[i]),
        unit_of_name(name) is Some,
        epoch_of_text(trim_ws(rest)) is Some,
    ensures
        time_units_outcome(units, calendar) == Ok::<CfTimeRef, Seq<char>>(
            (CfTimeRef {
                unit: unit_of_name(name).unwrap(),
                epoch: epoch_of_text(trim_ws(rest)).unwrap(),
                calendar,
            }),
        ),
{
    units_split(units, name, rest);
}

/// "second", "seconds" and "s" name seconds: units that read
/// "<name> since <date>" (trimmed, lower-cased), with a date that parses,
/// give a reference in seconds from that date, on the calendar handed in.
pub proof fn second_names_parse_as_seconds(
    units: Seq<char>,
    calendar: CfCalendar,
    name: Seq<char>,
    rest: Seq<char>,
)
    requires
        name == "second"@ || name == "seconds"@ || name == "s"@,
        unicode_lowercase(trim_ws(units)) == name + " since "@ + rest,
        epoch_of_text(trim_ws(rest)) is Some,
    ensures
        time_units_outcome(units, calendar) == Ok::<CfTimeRef, Seq<char>>(
            (CfTimeRef {
                unit: CfTimeUnit::Seconds,
                epoch: epoch_of_text(trim_ws(rest)).unwrap(),
                calendar,
            }),
        ),
{
    reveal_strlit("second");
    reveal_strlit("seconds");
    reveal_strlit("s");
    assert(unit_of_name(name) == Some(CfTimeUnit::Seconds));
    assert forall|i: int| 0 <= i < name.len() implies !is_white_space(#[trigger] name[i]) by {}
    named_unit_parses(units, calendar, name, rest);
}

/// "minute", "minutes" and "min" name minutes: units that read
/// "<name> since <date>" (trimmed, lower-cased), with a date that parses,
/// give a reference in minutes from that date, on the calendar handed in.
pub proof fn minute_names_parse_as_minutes(
    units: Seq<char>,
    calendar: CfCalendar,
    name: Seq<char>,
    rest: Seq<char>,
)
    requires
        name == "minute"@ || name == "minutes"@ || name == "min"@,
        unicode_lowercase(trim_ws(units)) == name + " since "@ + rest,
        epoch_of_text(trim_ws(rest)) is Some,
    ensures
        time_units_outcome(units, calendar) == Ok::<CfTimeRef, Seq<char>>(
            (CfTimeRef {
                unit: CfTimeUnit::Minutes,
                epoch: epoch_of_text(trim_ws(rest)).unwrap(),
                calendar,
            }),
        ),
{
    reveal_strlit("second");
    reveal_strlit("seconds");
    reveal_strlit("s");
    reveal_strlit("minute");
    reveal_strlit("minutes");
    reveal_strlit("min");
    assert("minute"@[0] == 'm' && "second"@[0] == 's');
    assert("minutes"@[0] == 'm' && "seconds"@[0] == 's');
    assert(unit_of_name(name) == Some(CfTimeUnit::Minutes));
    assert forall|i: int| 0 <= i < name.len() implies !is_white_space(#[trigger] name[i]) by {}
    named_unit_parses(units, calendar, name, rest);
}

/// "hour", "hours", "hr" and "h" name hours: units that read
/// "<name> since <date>" (trimmed, lower-cased), with a date that parses,
/// give a reference in hours from that date, on the calendar handed in.
pub proof fn hour_names_parse_as_hours(
    units: Seq<char>,
    calendar: CfCalendar,
    name: Seq<char>,
    rest: Seq<char>,
)
    requires
        name == "hour"@ || name == "hours"@ || name == "hr"@ || name == "h"@,
        unicode_lowercase(trim_ws(units)) == name + " since "@ + rest,
        epoch_of_text(trim_ws(rest)) is Some,
    ensures
        time_units_outcome(units, calendar) == Ok::<CfTimeRef, Seq<char>>(
            (CfTimeRef {
                unit: CfTimeUnit::Hours,
                epoch: epoch_of_text(trim_ws(rest)).unwrap(),
                calendar,
            }),
        ),
{
    reveal_strlit("second");
    reveal_strlit("seconds");
    reveal_strlit("s");
    reveal_strlit("minute");
    reveal_strlit("minutes");
    reveal_strlit("min");
    reveal_strlit("hour");
    reveal_strlit("hours");
    reveal_strlit("hr");
    reveal_strlit("h");
    assert("h"@[0] == 'h' && "s"@[0] == 's');
    assert(unit_of_name(name) == Some(CfTimeUnit::Hours));
    assert forall|i: int| 0 <= i < name.len() implies !is_white_space(#[trigger] name[i]) by {}
    named_unit_parses(units, calendar, name, rest);
}

/// "day", "days" and "d" name days: units that read "<name> since <date>"
/// (trimmed, lower-cased), with a date that parses, give a reference in days
/// from that date, on the calendar handed in.
pub proof fn day_names_parse_as_days(
    units: Seq<char>,
    calendar: CfCalendar,
    name: Seq<char>,
    rest: Seq<char>,
)
    requires
        name == "day"@ || name == "days"@ || name == "d"@,
        unicode_lowercase(trim_ws(units)) == name + " since "@ + rest,
        epoch_of_text(trim_ws(rest)) is Some,
    ensures
        time_units_outcome(units, calendar) == Ok::<CfTimeRef, Seq<char>>(
            (CfTimeRef {
                unit: CfTimeUnit::Days,
                epoch: epoch_of_text(trim_ws(rest)).unwrap(),
                calendar,
            }),
        ),
{
    reveal_strlit("second");
    reveal_strlit("seconds");
    reveal_strlit("s");
    reveal_strlit("minute");
    reveal_strlit("minutes");
    reveal_strlit("min");
    reveal_strlit("hour");
    reveal_strlit("hours");
    reveal_strlit("hr");
    reveal_strlit("h");
    reveal_strlit("day");
    reveal_strlit("days");
    reveal_strlit("d");
    assert("day"@[0] == 'd' && "min"@[0] == 'm');
    assert("days"@[0] == 'd' && "hour"@[0] == 'h');
    assert("d"@[0] == 'd' && "s"@[0] == 's');
    assert("d"@[0] == 'd' && "h"@[0] == 'h');
    assert(unit_of_name(name) == Some(CfTimeUnit::Days));
    assert forall|i: int| 0 <= i < name.len() implies !is_white_space(#[trigger] name[i]) by {}
    named_unit_parses(units, calendar, name, rest);
}

/// "month" and "months" name months: units that read
/// "<name> since <date>" (trimmed, lower-cased), with a date that parses,
/// give a reference in months from that date, on the calendar handed in.
pub proof fn month_names_parse_as_months(
    units: Seq<char>,
    calendar: CfCalendar,
    name: Seq<char>,
    rest: Seq<char>,
)
    requires
        name == "month"@ || name == "months"@,
        unicode_lowercase(trim_ws(units)) == name + " since "@ + rest,
        epoch_of_text(trim_ws(rest)) is Some,
    ensures
        time_units_outcome(units, calendar) == Ok::<CfTimeRef, Seq<char>>(
            (CfTimeRef {
                unit: CfTimeUnit::Months,
                epoch: epoch_of_text(trim_ws(rest)).unwrap(),
                calendar,
            }),
        ),
{
    reveal_strlit("second");
    reveal_strlit("seconds");
    reveal_strlit("s");
    reveal_strlit("minute");
    reveal_strlit("minutes");
    reveal_strlit("min");
    reveal_strlit("hour");
    reveal_strlit("hours");
    reveal_strlit("hr");
    reveal_strlit("h");
    reveal_strlit("day");
    reveal_strlit("days");
    reveal_strlit("d");
    reveal_strlit("month");
    reveal_strlit("months");
    assert("month"@[0] == 'm' && "hours"@[0] == 'h');
    assert("months"@[0] == 'm' && "second"@[0] == 's');
    assert("months"@[1] == 'o' && "minute"@[1] == 'i');
    assert(unit_of_name(name) == Some(CfTimeUnit::Months));
    assert forall|i: int| 0 <= i < name.len() implies !is_white_space(#[trigger] name[i]) by {}
    named_unit_parses(units, calendar, name, rest);
}

/// Any other unit name is refused, and the error names it: units that read
/// "<name> since <rest>" (trimmed, lower-cased), with a unit name free of
/// whitespace, give "unsupported CF time unit '<name>'".
pub proof fn unknown_unit_names_are_refused(
    units: Seq<char>,
    calendar: CfCalendar,
    name: Seq<char>,
    rest: Seq<char>,
)
    requires
        unicode_lowercase(trim_ws(units)) == name + " since "@ + rest,
        name.len() > 0,
        forall|i: int| 0 <= i < name.len() ==> !is_white_space(#[trigger] name[i]),
        name != "second"@,
        name != "seconds"@,
        name != "s"@,
        name != "minute"@,
        name != "minutes"@,
        name != "min"@,
        name != "hour"@,
        name != "hours"@,
        name != "hr"@,
        name != "h"@,
        name != "day"@,
        name != "days"@,
        name != "d"@,
        name != "month"@,
        name != "months"@,
    ensures
        time_units_outcome(units, calendar) == Err::<CfTimeRef, Seq<char>>(
            "unsupported CF time unit '"@ + name + "'"@,
        ),
{
    units_split(units, name, rest);
}

/// The calendar names, read trimmed and lower-cased: "standard" and
/// "gregorian" name the standard calendar, "proleptic_gregorian" the
/// proleptic Gregorian one, "noleap" and "365_day" the one without leap
/// years, "all_leap" and "366_day" the one with only leap years, "360_day"
/// the one of twelve 30-day months and "julian" the Julian one; any other
/// name falls back to the standard calendar.
pub proof fn calendar_names(s: Seq<char>)
    ensures
        ({
            let n = unicode_lowercase(trim_ws(s));
            &&& n == "standard"@
                || n == "gregorian"@ ==> calendar_of_name(n) == CfCalendar::Standard
            &&& n == "proleptic_gregorian"@ ==> calendar_of_name(n) == CfCalendar::ProlepticGregorian
            &&& n == "noleap"@ || n == "365_day"@ ==> calendar_of_name(n) == CfCalendar::NoLeap
            &&& n == "all_leap"@ || n == "366_day"@ ==> calendar_of_name(n) == CfCalendar::AllLeap
            &&& n == "360_day"@ ==> calendar_of_name(n) == CfCalendar::Day360
            &&& n == "julian"@ ==> calendar_of_name(n) == CfCalendar::Julian
            &&& n != "standard"@ && n != "gregorian"@ && n != "proleptic_gregorian"@
                && n != "noleap"@ && n != "365_day"@ && n != "all_leap"@ && n != "366_day"@
                && n != "360_day"@ && n != "julian"@
                ==> calendar_of_name(n) == CfCalendar::Standard
        }),
{
    let n = unicode_lowercase(trim_ws(s));
    assert(n == "standard"@
        || n == "gregorian"@ ==> calendar_of_name(n) == CfCalendar::Standard) by {
        reveal_strlit("standard");
        assert("standard"@.len() == 8);
        reveal_strlit("gregorian");
        assert("gregorian"@.len() == 9);
    }
    assert(n == "proleptic_gregorian"@ ==> calendar_of_name(n) == CfCalendar::ProlepticGregorian) by {
        reveal_strlit("standard");
        assert("standard"@.len() == 8);
        reveal_strlit("gregorian");
        assert("gregorian"@.len() == 9);
        reveal_strlit("proleptic_gregorian");
        assert("proleptic_gregorian"@.len() == 19);
    }
    assert(n == "noleap"@ || n == "365_day"@ ==> calendar_of_name(n) == CfCalendar::NoLeap) by {
        reveal_strlit("standard");
        assert("standard"@.len() == 8);
        reveal_strlit("gregorian");
        assert("gregorian"@.len() == 9);
        reveal_strlit("proleptic_gregorian");
        assert("proleptic_gregorian"@.len() == 19);
        reveal_strlit("noleap");
        assert("noleap"@.len() == 6);
        reveal_strlit("365_day");
        assert("365_day"@.len() == 7);
    }
    assert(n == "all_leap"@ || n == "366_day"@ ==> calendar_of_name(n) == CfCalendar::AllLeap) by {
        reveal_strlit("standard");
        assert("standard"@.len() == 8);
        reveal_strlit("gregorian");
        assert("gregorian"@.len() == 9);
        reveal_strlit("proleptic_gregorian");
        assert("proleptic_gregorian"@.len() == 19);
        reveal_strlit("noleap");
        assert("noleap"@.len() == 6);
        reveal_strlit("365_day");
        assert("365_day"@.len() == 7);
        reveal_strlit("all_leap");
        assert("all_leap"@.len() == 8);
        reveal_strlit("366_day");
        assert("366_day"@.len() == 7);
        assert("all_leap"@[0] == 'a' && "standard"@[0] == 's');
        assert("366_day"@[2] == '6' && "365_day"@[2] == '5');
    }
    assert(n == "360_day"@ ==> calendar_of_name(n) == CfCalendar::Day360) by {
        reveal_strlit("standard");
        assert("standard"@.len() == 8);
        reveal_strlit("gregorian");
        assert("gregorian"@.len() == 9);
        reveal_strlit("proleptic_gregorian");
        assert("proleptic_gregorian"@.len() == 19);
        reveal_strlit("noleap");
        assert("noleap"@.len() == 6);
        reveal_strlit("365_day");
        assert("365_day"@.len() == 7);
        reveal_strlit("all_leap");
        assert("all_leap"@.len() == 8);
        reveal_strlit("366_day");
        assert("366_day"@.len() == 7);
        reveal_strlit("360_day");
        assert("360_day"@.len() == 7);
        assert("360_day"@[2] == '0' && "365_day"@[2] == '5');
        assert("360_day"@[2] == '0' && "366_day"@[2] == '6');
    }
    assert(n == "julian"@ ==> calendar_of_name(n) == CfCalendar::Julian) by {
        reveal_strlit("standard");
        assert("standard"@.len() == 8);
        reveal_strlit("gregorian");
        assert("gregorian"@.len() == 9);
        reveal_strlit("proleptic_gregorian");
        assert("proleptic_gregorian"@.len() == 19);
        reveal_strlit("noleap");
        assert("noleap"@.len() == 6);
        reveal_strlit("365_day");
        assert("365_day"@.len() == 7);
        reveal_strlit("all_leap");
        assert("all_leap"@.len() == 8);
        reveal_strlit("366_day");
        assert("366_day"@.len() == 7);
        reveal_strlit("360_day");
        assert("360_day"@.len() == 7);
        reveal_strlit("julian");
        assert("julian"@.len() == 6);
        assert("julian"@[0] == 'j' && "noleap"@[0] == 'n');
    }
}

/// Counts of seconds, days and months units are milliseconds, counts of
/// minutes and hours units whole seconds: decoding shifts the epoch by that
/// many milliseconds, on the standard calendar with Julian dates before the
/// reform (`standard_shift`), on the others by chrono's Gregorian arithmetic.
pub proof fn counts_are_milliseconds(count: i64, time_ref: CfTimeRef)
    requires
        count_in_range(count, time_ref.unit),
    ensures
        time_ref.unit == CfTimeUnit::Seconds || time_ref.unit == CfTimeUnit::Days || time_ref.unit
            == CfTimeUnit::Months ==> shifted_epoch(count, time_ref) == if time_ref.calendar
            == CfCalendar::Standard {
            standard_shift(time_ref.epoch, count)
        } else {
            chrono_add_millis(time_ref.epoch, count)
        },
        time_ref.unit == CfTimeUnit::Minutes || time_ref.unit == CfTimeUnit::Hours ==> 1000 * count
            <= i64::MAX && shifted_epoch(count, time_ref) == if time_ref.calendar
            == CfCalendar::Standard {
            standard_shift(time_ref.epoch, (1000 * count) as i64)
        } else {
            chrono_add_millis(time_ref.epoch, (1000 * count) as i64)
        },
{
}

/// Months, seconds and days units count alike, in milliseconds: two
/// references that differ only in such a unit decode every count to the
/// same epoch.
pub proof fn millisecond_units_decode_alike(count: i64, a: CfTimeRef, b: CfTimeRef)
    requires
        a.epoch == b.epoch,
        a.calendar == b.calendar,
        a.unit == CfTimeUnit::Seconds || a.unit == CfTimeUnit::Days || a.unit == CfTimeUnit::Months,
        b.unit == CfTimeUnit::Seconds || b.unit == CfTimeUnit::Days || b.unit == CfTimeUnit::Months,
    ensures
        shifted_epoch(count, a) == shifted_epoch(count, b),
{
}

/// The epoch formats are tried in turn, the first that chrono accepts
/// deciding: date and time with a fraction of a second, with whole seconds,
/// the same two with a `T` between date and time, date with hours and
/// minutes, a date read as a date-time, and at last a bare date, read as
/// midnight; a text that none of them accepts spells no epoch.
pub proof fn epoch_formats_in_order(s: Seq<char>)
    ensures
        chrono_datetime_parse(s, "%Y-%m-%d %H:%M:%S%.f"@) is Some
            ==> epoch_of_text(s) == chrono_datetime_parse(s, "%Y-%m-%d %H:%M:%S%.f"@),
        chrono_datetime_parse(s, "%Y-%m-%d %H:%M:%S%.f"@) is None && chrono_datetime_parse(s, "%Y-%m-%d %H:%M:%S"@) is Some
            ==> epoch_of_text(s) == chrono_datetime_parse(s, "%Y-%m-%d %H:%M:%S"@),
        chrono_datetime_parse(s, "%Y-%m-%d %H:%M:%S%.f"@) is None && chrono_datetime_parse(s, "%Y-%m-%d %H:%M:%S"@) is None && chrono_datetime_parse(s, "%Y-%m-%dT%H:%M:%S%.f"@) is Some
            ==> epoch_of_text(s) == chrono_datetime_parse(s, "%Y-%m-%dT%H:%M:%S%.f"@),
        chrono_datetime_parse(s, "%Y-%m-%d %H:%M:%S%.f"@) is None && chrono_datetime_parse(s, "%Y-%m-%d %H:%M:%S"@) is None && chrono_datetime_parse(s, "%Y-%m-%dT%H:%M:%S%.f"@) is None && chrono_datetime_parse(s, "%Y-%m-%dT%H:%M:%S"@) is Some
            ==> epoch_of_text(s) == chrono_datetime_parse(s, "%Y-%m-%dT%H:%M:%S"@),
        chrono_datetime_parse(s, "%Y-%m-%d %H:%M:%S%.f"@) is None && chrono_datetime_parse(s, "%Y-%m-%d %H:%M:%S"@) is None && chrono_datetime_parse(s, "%Y-%m-%dT%H:%M:%S%.f"@) is None && chrono_datetime_parse(s, "%Y-%m-%dT%H:%M:%S"@) is None && chrono_datetime_parse(s, "%Y-%m-%d %H:%M"@) is Some
            ==> epoch_of_text(s) == chrono_datetime_parse(s, "%Y-%m-%d %H:%M"@),
        chrono_datetime_parse(s, "%Y-%m-%d %H:%M:%S%.f"@) is None && chrono_datetime_parse(s, "%Y-%m-%d %H:%M:%S"@) is None && chrono_datetime_parse(s, "%Y-%m-%dT%H:%M:%S%.f"@) is None && chrono_datetime_parse(s, "%Y-%m-%dT%H:%M:%S"@) is None && chrono_datetime_parse(s, "%Y-%m-%d %H:%M"@) is None && chrono_datetime_parse(s, "%Y-%m-%d"@) is Some
            ==> epoch_of_text(s) == chrono_datetime_parse(s, "%Y-%m-%d"@),
        chrono_datetime_parse(s, "%Y-%m-%d %H:%M:%S%.f"@) is None && chrono_datetime_parse(s, "%Y-%m-%d %H:%M:%S"@) is None && chrono_datetime_parse(s, "%Y-%m-%dT%H:%M:%S%.f"@) is None && chrono_datetime_parse(s, "%Y-%m-%dT%H:%M:%S"@) is None && chrono_datetime_parse(s, "%Y-%m-%d %H:%M"@) is None && chrono_datetime_parse(s, "%Y-%m-%d"@) is None
            && chrono_date_parse(s, "%Y-%m-%d"@) is Some ==> ({
            let d = chrono_date_parse(s, "%Y-%m-%d"@).unwrap();
            epoch_of_text(s) == Some(
                (Epoch { year: d.0, month: d.1, day: d.2, hour: 0, minute: 0, second: 0, nanosecond: 0 }),
            )
        }),
        chrono_datetime_parse(s, "%Y-%m-%d %H:%M:%S%.f"@) is None && chrono_datetime_parse(s, "%Y-%m-%d %H:%M:%S"@) is None && chrono_datetime_parse(s, "%Y-%m-%dT%H:%M:%S%.f"@) is None && chrono_datetime_parse(s, "%Y-%m-%dT%H:%M:%S"@) is None && chrono_datetime_parse(s, "%Y-%m-%d %H:%M"@) is None && chrono_datetime_parse(s, "%Y-%m-%d"@) is None
            && chrono_date_parse(s, "%Y-%m-%d"@) is None ==> epoch_of_text(s) is None,
{
}

/// Units that hold no " since " (once trimmed and lower-cased) are refused,
/// with "invalid CF time units '<units>': expected '<unit> since <date>'".
pub proof fn units_without_since_are_refused(units: Seq<char>, calendar: CfCalendar)
    requires
        forall|i: int| !occurs_at(unicode_lowercase(trim_ws(units)), " since "@, i),
    ensures
        time_units_outcome(units, calendar) == Err::<CfTimeRef, Seq<char>>(
            "invalid CF time units '"@ + units + "': expected '<unit> since <date>'"@,
        ),
{
    let lower = unicode_lowercase(trim_ws(units));
    if let Some(i) = find_first(lower, " since "@) {
        found_occurs(lower, " since "@, 0, i);
    }
}

/// Units with a known unit name whose date part spells no epoch are
/// refused, with "cannot parse CF epoch '<date>'", the date part trimmed.
pub proof fn unparseable_epochs_are_refused(
    units: Seq<char>,
    calendar: CfCalendar,
    name: Seq<char>,
    rest: Seq<char>,
)
    requires
        name == "second"@ || name == "seconds"@ || name == "s"@ || name == "minute"@
            || name == "minutes"@ || name == "min"@ || name == "hour"@ || name == "hours"@
            || name == "hr"@ || name == "h"@ || name == "day"@ || name == "days"@ || name == "d"@
            || name == "month"@ || name == "months"@,
        unicode_lowercase(trim_ws(units)) == name + " since "@ + rest,
        epoch_of_text(trim_ws(rest)) is None,
    ensures
        time_units_outcome(units, calendar) == Err::<CfTimeRef, Seq<char>>(
            "cannot parse CF epoch '"@ + trim_ws(rest) + "'"@,
        ),
{
    reveal_strlit("second");
    reveal_strlit("seconds");
    reveal_strlit("s");
    reveal_strlit("minute");
    reveal_strlit("minutes");
    reveal_strlit("min");
    reveal_strlit("hour");
    reveal_strlit("hours");
    reveal_strlit("hr");
    reveal_strlit("h");
    reveal_strlit("day");
    reveal_strlit("days");
    reveal_strlit("d");
    reveal_strlit("month");
    reveal_strlit("months");
    assert forall|i: int| 0 <= i < name.len() implies !is_white_space(#[trigger] name[i]) by {}
    units_split(units, name, rest);
}

/// The standard calendar switches at the Gregorian reform: an epoch dated
/// before 1582-10-15 is a Julian date and stands for the Gregorian instant
/// of the same day, one dated 1582-10-15 or later is a Gregorian date and
/// stands for itself; the other calendars read every epoch as it is.
pub proof fn standard_calendar_switches_at_reform(e: Epoch, calendar: CfCalendar)
    ensures
        calendar == CfCalendar::Standard && date_lt(epoch_date(e), (1582, 10, 15))
            ==> gregorian_instant(e, calendar) == julian_to_gregorian(e),
        calendar == CfCalendar::Standard && !date_lt(epoch_date(e), (1582, 10, 15))
            ==> gregorian_instant(e, calendar) == Some(e),
        calendar != CfCalendar::Standard ==> gregorian_instant(e, calendar) == Some(e),
{
}

/// Before the reform the standard calendar counts Julian days: shifting a
/// Julian epoch to an instant before 1582-10-15 gives the Julian date of
/// that instant's day, at its time of day.
pub proof fn standard_shift_stays_julian_before_reform(e: Epoch, ms: i64, t: Epoch)
    requires
        date_lt(epoch_date(e), (1582, 10, 15)),
        julian_to_gregorian(e) matches Some(g) && chrono_add_millis(g, ms) == Some(t),
        date_lt(epoch_date(t), (1582, 10, 15)),
        gregorian_to_julian(t) is Some,
    ensures
        standard_shift(e, ms) matches Some(l) && julian_day_number(l.year as int, l.month as int, l.day as int)
            == gregorian_day_number(t.year as int, t.month as int, t.day as int) && l.hour == t.hour
            && l.minute == t.minute && l.second == t.second && l.nanosecond == t.nanosecond,
{
    gregorian_to_julian_keeps_the_day(t);
}

/// On the standard calendar a count of zero gives a Julian epoch before
/// 1582-10-05 back (1582-10-05 to 1582-10-14 are no dates of that
/// calendar), where chrono gives its Gregorian reading back for a zero
/// shift.
pub proof fn zero_count_keeps_julian_epoch(e: Epoch)
    requires
        is_julian_date(e.year as int, e.month as int, e.day as int),
        date_lt(epoch_date(e), (1582, 10, 5)),
        julian_to_gregorian(e) matches Some(g) && chrono_add_millis(g, 0) == Some(g),
    ensures
        standard_shift(e, 0) == Some(e),
{
    let g = julian_to_gregorian(e).unwrap();
    let j = julian_day_number(e.year as int, e.month as int, e.day as int);
    julian_to_gregorian_keeps_the_day(e);
    reform_day_facts();
    assert(julian_day_number(1582, 10, 5) == 2299161);
    julian_day_number_increases(e.year as int, e.month as int, e.day as int, 1582, 10, 5);
    gregorian_date_of_day_increases(j, 2299161);
    gregorian_date_round_trip(1582, 10, 15);
    julian_date_round_trip(e.year as int, e.month as int, e.day as int);
    assert(before_reform(e));
    assert(before_reform(g));
}

} // verus!
