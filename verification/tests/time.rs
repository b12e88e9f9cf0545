use chrono::{Datelike, NaiveDate, NaiveDateTime, Timelike};
use netcdf_reader::cf::time::{
    gregorian_epoch_to_julian, gregorian_reading, is_before_reform, julian_epoch_to_gregorian, standard_calendar_shift,
    decode_time_count, parse_epoch, parse_time_units, unit_from_name, CfCalendar, CfTimeRef,
    CfTimeUnit, Epoch,
};
use netcdf_reader::cf::axes::{identify_axis, CfAxisType};
use netcdf_reader::cf::calendar::{
    floor_div, gregorian_date, gregorian_day, julian_date, julian_date_is_valid, julian_day,
};
use netcdf_reader::error::Error;
use netcdf_reader::types::{NcAttrValue, NcAttribute, NcType, NcVariable};
use netcdf_reader::text::{find, trim};

fn epoch_of(dt: NaiveDateTime) -> Epoch {
    Epoch {
        year: dt.year(),
        month: dt.month(),
        day: dt.day(),
        hour: dt.hour(),
        minute: dt.minute(),
        second: dt.second(),
        nanosecond: dt.nanosecond(),
    }
}

fn naive_of(e: Epoch) -> NaiveDateTime {
    NaiveDate::from_ymd_opt(e.year, e.month, e.day)
        .unwrap()
        .and_hms_nano_opt(e.hour, e.minute, e.second, e.nanosecond)
        .unwrap()
}

fn invalid_message(r: Result<CfTimeRef, Error>) -> String {
    match r {
        Err(Error::InvalidData(m)) => m,
        other => panic!("unexpected result {:?}", other),
    }
}

#[test]
fn test_parse_days_since() {
    let tr = parse_time_units("days since 1970-01-01", CfCalendar::Standard).unwrap();
    assert_eq!(tr.unit, CfTimeUnit::Days);
    assert_eq!(
        tr.epoch,
        epoch_of(
            NaiveDate::from_ymd_opt(1970, 1, 1)
                .unwrap()
                .and_hms_opt(0, 0, 0)
                .unwrap()
        )
    );
}

#[test]
fn test_parse_hours_since_with_time() {
    let tr = parse_time_units("hours since 2000-01-01 00:00:00", CfCalendar::Standard).unwrap();
    assert_eq!(tr.unit, CfTimeUnit::Hours);
    assert_eq!(
        tr.epoch,
        epoch_of(
            NaiveDate::from_ymd_opt(2000, 1, 1)
                .unwrap()
                .and_hms_opt(0, 0, 0)
                .unwrap()
        )
    );
}

#[test]
fn test_decode_days() {
    let tr = parse_time_units("days since 1970-01-01", CfCalendar::Standard).unwrap();
    // 365.0 days, as the millisecond count that decoding a day value takes
    let dt = naive_of(decode_time_count(365 * 86_400_000, &tr).unwrap());
    assert_eq!(dt.format("%Y-%m-%d").to_string(), "1971-01-01");
}

#[test]
fn test_decode_hours() {
    let tr = parse_time_units("hours since 2000-01-01 00:00:00", CfCalendar::Standard).unwrap();
    // 24.0 hours, as the second count that decoding an hour value takes
    let dt = naive_of(decode_time_count(24 * 3600, &tr).unwrap());
    assert_eq!(dt.format("%Y-%m-%d").to_string(), "2000-01-02");
}

#[test]
fn test_calendar_from_str() {
    assert_eq!(CfCalendar::parse("standard"), CfCalendar::Standard);
    assert_eq!(CfCalendar::parse("noleap"), CfCalendar::NoLeap);
    assert_eq!(CfCalendar::parse("365_day"), CfCalendar::NoLeap);
    assert_eq!(CfCalendar::parse("360_day"), CfCalendar::Day360);
    assert_eq!(
        CfCalendar::parse("proleptic_gregorian"),
        CfCalendar::ProlepticGregorian
    );
}

#[test]
fn test_invalid_units() {
    assert!(parse_time_units("invalid", CfCalendar::Standard).is_err());
    assert!(parse_time_units("furlongs since yesterday", CfCalendar::Standard).is_err());
}

#[test]
fn calendar_names_are_trimmed_and_lower_cased() {
    assert_eq!(CfCalendar::parse("  NoLeap "), CfCalendar::NoLeap);
    assert_eq!(CfCalendar::parse("GREGORIAN"), CfCalendar::Standard);
    assert_eq!(CfCalendar::parse("All_Leap"), CfCalendar::AllLeap);
    assert_eq!(CfCalendar::parse("366_day"), CfCalendar::AllLeap);
    assert_eq!(CfCalendar::parse("julian"), CfCalendar::Julian);
    assert_eq!(CfCalendar::parse("martian"), CfCalendar::Standard);
    assert_eq!(CfCalendar::parse(""), CfCalendar::Standard);
}

#[test]
fn units_and_epochs_in_several_forms() {
    // the whole string is lower-cased, so a 'T' separator no longer parses
    assert!(parse_time_units("seconds since 1999-12-31T23:59:58.5", CfCalendar::Julian).is_err());
    assert!(parse_epoch("1999-12-31T23:59:58.5").is_ok());
    let tr = parse_time_units("  Seconds SINCE 1999-12-31 23:59:58.5 ", CfCalendar::Julian).unwrap();
    assert_eq!(tr.unit, CfTimeUnit::Seconds);
    assert_eq!(tr.calendar, CfCalendar::Julian);
    assert_eq!(
        tr.epoch,
        Epoch { year: 1999, month: 12, day: 31, hour: 23, minute: 59, second: 58, nanosecond: 500_000_000 }
    );
    let tr = parse_time_units("min since 2020-02-29 06:30", CfCalendar::NoLeap).unwrap();
    assert_eq!(tr.unit, CfTimeUnit::Minutes);
    assert_eq!(
        tr.epoch,
        Epoch { year: 2020, month: 2, day: 29, hour: 6, minute: 30, second: 0, nanosecond: 0 }
    );
    assert_eq!(parse_time_units("months since 1-1-1", CfCalendar::Day360).unwrap().unit, CfTimeUnit::Months);
    assert_eq!(parse_time_units("h since 2000-01-01", CfCalendar::Standard).unwrap().unit, CfTimeUnit::Hours);
}

#[test]
fn time_units_error_messages() {
    assert_eq!(
        invalid_message(parse_time_units("invalid", CfCalendar::Standard)),
        "invalid CF time units 'invalid': expected '<unit> since <date>'"
    );
    assert_eq!(
        invalid_message(parse_time_units("furlongs since yesterday", CfCalendar::Standard)),
        "unsupported CF time unit 'furlongs'"
    );
    assert_eq!(
        invalid_message(parse_time_units("days since yesterday", CfCalendar::Standard)),
        "cannot parse CF epoch 'yesterday'"
    );
    assert_eq!(
        invalid_message(parse_time_units("days since 1970-13-01", CfCalendar::Standard)),
        "cannot parse CF epoch '1970-13-01'"
    );
}

#[test]
fn epoch_formats() {
    assert_eq!(
        parse_epoch("2001-02-03 04:05:06").unwrap(),
        Epoch { year: 2001, month: 2, day: 3, hour: 4, minute: 5, second: 6, nanosecond: 0 }
    );
    assert_eq!(
        parse_epoch("2001-02-03").unwrap(),
        Epoch { year: 2001, month: 2, day: 3, hour: 0, minute: 0, second: 0, nanosecond: 0 }
    );
    match parse_epoch("2001/02/03") {
        Err(Error::InvalidData(m)) => assert_eq!(m, "cannot parse CF epoch '2001/02/03'"),
        other => panic!("unexpected {:?}", other),
    }
}

#[test]
fn decoding_counts_by_unit() {
    let base = Epoch { year: 2000, month: 1, day: 1, hour: 0, minute: 0, second: 0, nanosecond: 0 };
    let secs = CfTimeRef { unit: CfTimeUnit::Seconds, epoch: base, calendar: CfCalendar::Standard };
    assert_eq!(
        decode_time_count(1500, &secs).unwrap(),
        Epoch { year: 2000, month: 1, day: 1, hour: 0, minute: 0, second: 1, nanosecond: 500_000_000 }
    );
    assert_eq!(
        decode_time_count(-1000, &secs).unwrap(),
        Epoch { year: 1999, month: 12, day: 31, hour: 23, minute: 59, second: 59, nanosecond: 0 }
    );
    let mins = CfTimeRef { unit: CfTimeUnit::Minutes, epoch: base, calendar: CfCalendar::Standard };
    assert_eq!(
        decode_time_count(90, &mins).unwrap(),
        Epoch { year: 2000, month: 1, day: 1, hour: 0, minute: 1, second: 30, nanosecond: 0 }
    );
    assert_eq!(decode_time_count(i64::MAX, &secs), None);
}

#[test]
fn non_standard_calendars_decode_alike() {
    let base = Epoch { year: 2000, month: 2, day: 28, hour: 0, minute: 0, second: 0, nanosecond: 0 };
    let a = CfTimeRef { unit: CfTimeUnit::Days, epoch: base, calendar: CfCalendar::Day360 };
    let b = CfTimeRef { unit: CfTimeUnit::Days, epoch: base, calendar: CfCalendar::NoLeap };
    let day = 86_400_000;
    assert_eq!(decode_time_count(day, &a), decode_time_count(day, &b));
    assert_eq!(decode_time_count(day, &b).unwrap().day, 29);
}

#[test]
fn parsed_time_units_mark_a_time_axis() {
    let units = "Days Since 1970-01-01";
    assert!(parse_time_units(units, CfCalendar::Standard).is_ok());
    let var = NcVariable {
        name: "t".into(),
        dimensions: vec![],
        dtype: NcType::Double,
        attributes: vec![NcAttribute { name: "units".into(), value: NcAttrValue::Chars(units.into()) }],
        data_offset: 0,
        _data_size: 0,
        is_record_var: false,
        record_size: 0,
    };
    assert_eq!(identify_axis(&var), CfAxisType::T);
}

#[test]
fn unit_names() {
    assert_eq!(unit_from_name("hr"), Some(CfTimeUnit::Hours));
    assert_eq!(unit_from_name("d"), Some(CfTimeUnit::Days));
    assert_eq!(unit_from_name("Days"), None);
    assert_eq!(unit_from_name("weeks"), None);
}

#[test]
fn text_helpers() {
    assert_eq!(trim("\u{3000} a b\u{85}"), "a b");
    assert_eq!(trim("   "), "");
    assert_eq!(find("days since x", " since "), Some(4));
    assert_eq!(find("déjà since x", " since "), Some(4));
    assert_eq!(find("days", " since "), None);
}

fn days_since(epoch: &str, calendar: CfCalendar) -> CfTimeRef {
    parse_time_units(&format!("days since {}", epoch), calendar).unwrap()
}

fn date(y: i32, m: u32, d: u32) -> Epoch {
    Epoch { year: y, month: m, day: d, hour: 0, minute: 0, second: 0, nanosecond: 0 }
}

#[test]
fn standard_calendar_crosses_the_reform() {
    let day = 86_400_000;
    let tr = days_since("1582-10-04", CfCalendar::Standard);
    assert_eq!(decode_time_count(day, &tr), Some(date(1582, 10, 15)));
    assert_eq!(decode_time_count(0, &tr), Some(date(1582, 10, 4)));
    let tr = days_since("1582-10-15", CfCalendar::Standard);
    assert_eq!(decode_time_count(-day, &tr), Some(date(1582, 10, 4)));
    // the proleptic Gregorian calendar has no gap
    let tr = days_since("1582-10-04", CfCalendar::ProlepticGregorian);
    assert_eq!(decode_time_count(day, &tr), Some(date(1582, 10, 5)));
}

#[test]
fn standard_calendar_keeps_julian_leap_days() {
    let day = 86_400_000;
    let tr = days_since("1500-03-01", CfCalendar::Standard);
    assert_eq!(decode_time_count(-day, &tr), Some(date(1500, 2, 29)));
    let tr = days_since("1500-03-01", CfCalendar::ProlepticGregorian);
    assert_eq!(decode_time_count(-day, &tr), Some(date(1500, 2, 28)));
    let tr = days_since("1970-01-01", CfCalendar::Standard);
    assert_eq!(decode_time_count(365 * day, &tr), Some(date(1971, 1, 1)));
}

#[test]
fn standard_calendar_rejects_dates_that_are_not_julian() {
    let tr = CfTimeRef { unit: CfTimeUnit::Days, epoch: date(1582, 2, 30), calendar: CfCalendar::Standard };
    assert_eq!(decode_time_count(0, &tr), None);
}

#[test]
fn calendar_day_numbers() {
    assert_eq!(gregorian_day(2000, 1, 1), 2451545);
    assert_eq!(julian_day(2000, 1, 1), 2451558);
    assert_eq!(julian_day(1582, 10, 4) + 1, gregorian_day(1582, 10, 15));
    assert_eq!(gregorian_date(2451545), (2000, 1, 1));
    assert_eq!(julian_date(2451558), (2000, 1, 1));
    assert_eq!(julian_date(julian_day(-4712, 1, 1)), (-4712, 1, 1));
    assert_eq!(julian_day(-4712, 1, 1), 0);
    assert_eq!(gregorian_date(gregorian_day(-10000, 2, 29)), (-10000, 2, 29));
    assert_eq!(julian_date(julian_day(-10000, 2, 29)), (-10000, 2, 29));
}

#[test]
fn julian_and_gregorian_readings() {
    let mut e = date(1582, 10, 4);
    e.hour = 12;
    let g = julian_epoch_to_gregorian(e).unwrap();
    assert_eq!((g.year, g.month, g.day, g.hour), (1582, 10, 14, 12));
    assert_eq!(gregorian_epoch_to_julian(g), Some(e));
    assert_eq!(julian_epoch_to_gregorian(date(1900, 2, 29)), Some(date(1900, 3, 13)));
    assert_eq!(julian_epoch_to_gregorian(date(1900, 13, 1)), None);
    assert!(is_before_reform(&date(1582, 10, 14)));
    assert!(!is_before_reform(&date(1582, 10, 15)));
    assert!(julian_date_is_valid(1900, 2, 29));
    assert!(!julian_date_is_valid(1901, 2, 29));
    assert!(!julian_date_is_valid(2000, 4, 31));
    assert_eq!(floor_div(-7, 2), -4);
    assert_eq!(floor_div(7, 2), 3);
    assert_eq!(standard_calendar_shift(date(2000, 1, 1), 86_400_000), Some(date(2000, 1, 2)));
}

#[test]
fn gregorian_reading_of_decoded_epochs() {
    assert_eq!(gregorian_reading(date(1500, 2, 29), CfCalendar::Standard), Some(date(1500, 3, 10)));
    assert_eq!(gregorian_reading(date(1500, 2, 28), CfCalendar::ProlepticGregorian), Some(date(1500, 2, 28)));
    assert_eq!(gregorian_reading(date(1600, 1, 1), CfCalendar::Standard), Some(date(1600, 1, 1)));
    assert_eq!(gregorian_reading(date(1500, 2, 30), CfCalendar::Standard), None);
}

#[test]
fn decoding_keeps_the_order_of_counts() {
    let day = 86_400_000;
    for cal in [CfCalendar::Standard, CfCalendar::ProlepticGregorian, CfCalendar::NoLeap] {
        let tr = days_since("1582-10-01", cal);
        let mut last = decode_time_count(-40 * day, &tr).unwrap();
        for k in -39..40 {
            let next = decode_time_count(k * day, &tr).unwrap();
            let key = |e: Epoch| (e.year, e.month, e.day, e.hour, e.minute, e.second, e.nanosecond);
            assert!(key(last) <= key(next), "{:?} then {:?}", last, next);
            last = next;
        }
        assert_eq!(decode_time_count(0, &tr), Some(date(1582, 10, 1)));
    }
}
