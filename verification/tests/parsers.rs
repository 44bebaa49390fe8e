//! The scalar parsers: dates, durations, enumerated tokens and integers.

use ical_event::datetime::parse_datetime;
use ical_event::duration::parse_duration;
use ical_event::text::{parse_i32_value, parse_u8_value};
use ical_event::{CivilDate, DateMaybeTime, EventError, EventStatus, EventTransparency, Instant, Span};

#[test]
fn date8_gives_date_variant() {
    let r = parse_datetime("20230115").unwrap();
    assert_eq!(
        r,
        DateMaybeTime::Date(CivilDate { year: 2023, month: 1, day: 15 })
    );
}

#[test]
fn date8_leap_day() {
    let r = parse_datetime("20240229").unwrap();
    assert_eq!(
        r,
        DateMaybeTime::Date(CivilDate { year: 2024, month: 2, day: 29 })
    );
}

#[test]
fn utc_form_gives_literal_instant() {
    let r = parse_datetime("20230115T103000Z").unwrap();
    assert_eq!(
        r,
        DateMaybeTime::DateTime(Instant {
            year: 2023,
            month: 1,
            day: 15,
            hour: 10,
            minute: 30,
            second: 0,
        })
    );
}

#[test]
fn zoneless_form_gives_instant() {
    // Midday is outside every usual daylight-saving gap, so the local
    // reading resolves whatever the machine's time zone is.
    let r = parse_datetime("20230615T120000").unwrap();
    assert!(matches!(r, DateMaybeTime::DateTime(_)));
}

#[test]
fn fallback_parses_rfc3339() {
    let r = parse_datetime("2023-01-15T10:30:00Z").unwrap();
    assert_eq!(
        r,
        DateMaybeTime::DateTime(Instant {
            year: 2023,
            month: 1,
            day: 15,
            hour: 10,
            minute: 30,
            second: 0,
        })
    );
}

#[test]
fn garbage_date_is_format_error() {
    assert_eq!(parse_datetime("not a date").unwrap_err(), EventError::FormatError);
}

#[test]
fn duration_round_trip() {
    let r = parse_duration("P1DT2H3M4S").unwrap();
    assert_eq!(r, Span { seconds: 86400 + 2 * 3600 + 3 * 60 + 4 });
    assert_eq!(r.seconds, 93784);
}

#[test]
fn duration_zero() {
    assert_eq!(parse_duration("P0D").unwrap(), Span { seconds: 0 });
    assert_eq!(parse_duration("P").unwrap(), Span { seconds: 0 });
    assert_eq!(parse_duration("PT").unwrap(), Span { seconds: 0 });
}

#[test]
fn duration_time_only() {
    assert_eq!(parse_duration("PT15M").unwrap(), Span { seconds: 900 });
    assert_eq!(parse_duration("PT1H30M").unwrap(), Span { seconds: 5400 });
}

#[test]
fn duration_trailing_garbage_rejected() {
    assert_eq!(parse_duration("P1DX").unwrap_err(), EventError::FormatError);
    assert_eq!(parse_duration("P1D2H").unwrap_err(), EventError::FormatError);
    assert_eq!(parse_duration("XP1D").unwrap_err(), EventError::FormatError);
    assert_eq!(parse_duration("P1").unwrap_err(), EventError::FormatError);
    assert_eq!(parse_duration("").unwrap_err(), EventError::FormatError);
}

#[test]
fn duration_overflow_rejected() {
    assert_eq!(
        parse_duration("P99999999999999999999999999D").unwrap_err(),
        EventError::FormatError
    );
}

#[test]
fn status_tokens_case_insensitive() {
    assert_eq!(EventStatus::from_str("TENTATIVE"), Ok(EventStatus::Tentative));
    assert_eq!(EventStatus::from_str("confirmed"), Ok(EventStatus::Confirmed));
    assert_eq!(EventStatus::from_str("Cancelled"), Ok(EventStatus::Cancelled));
    assert_eq!(EventStatus::from_str("done"), Err(()));
}

#[test]
fn transparency_tokens_case_insensitive() {
    assert_eq!(
        EventTransparency::from_str("opaque"),
        Ok(EventTransparency::Opaque)
    );
    assert_eq!(
        EventTransparency::from_str("TRANSPARENT"),
        Ok(EventTransparency::Transparent)
    );
    assert_eq!(EventTransparency::from_str("solid"), Err(()));
}

#[test]
fn u8_values() {
    assert_eq!(parse_u8_value("0"), Some(0));
    assert_eq!(parse_u8_value("9"), Some(9));
    assert_eq!(parse_u8_value("+255"), Some(255));
    assert_eq!(parse_u8_value("256"), None);
    assert_eq!(parse_u8_value(""), None);
    assert_eq!(parse_u8_value("-1"), None);
    assert_eq!(parse_u8_value("1a"), None);
}

#[test]
fn i32_values() {
    assert_eq!(parse_i32_value("0"), Some(0));
    assert_eq!(parse_i32_value("-12"), Some(-12));
    assert_eq!(parse_i32_value("+7"), Some(7));
    assert_eq!(parse_i32_value("2147483647"), Some(2147483647));
    assert_eq!(parse_i32_value("2147483648"), None);
    assert_eq!(parse_i32_value("-2147483648"), Some(-2147483648));
    assert_eq!(parse_i32_value("-2147483649"), None);
    assert_eq!(parse_i32_value("two"), None);
}
