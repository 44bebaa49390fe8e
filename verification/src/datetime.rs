//! Dates and instants, and the verified date/date-time parser with its
//! ordered disambiguation policy: 8-digit civil date first, then an explicit
//! UTC date-time, then a zoneless date-time read in the machine's time zone,
//! then a best-effort external parse.

use vstd::prelude::*;
use chrono::Datelike;
use chrono::Timelike;
use crate::error::EventError;
use crate::text::{digits_end, digits_val, is_digit, lemma_digits_end, lemma_digits_val_bounds,
    read_fixed, scan_digits};

verus! {

/// A calendar date with no time-of-day and no time zone.
#[derive(Clone, Copy, Debug, PartialEq, Eq, Structural)]
pub struct CivilDate {
    pub year: i32,
    pub month: u8,
    pub day: u8,
}

/// An absolute point in time, normalized to UTC, as a civil reading.
#[derive(Clone, Copy, Debug, PartialEq, Eq, Structural)]
pub struct Instant {
    pub year: i32,
    pub month: u8,
    pub day: u8,
    pub hour: u8,
    pub minute: u8,
    pub second: u8,
}

/// An event happens either on a whole day or at a precise instant. The
/// variant is fixed at parse time; no coercion happens afterwards.
#[derive(Clone, Copy, Debug, PartialEq, Eq, Structural)]
pub enum DateMaybeTime {
    /// Event with a date and a time.
    DateTime(Instant),
    /// Event with a date only.
    Date(CivilDate),
}

pub open spec fn is_leap_year(y: int) -> bool {
    (y % 4 == 0 && y % 100 != 0) || y % 400 == 0
}

pub open spec fn days_in_month(y: int, m: int) -> int {
    if m == 2 {
        if is_leap_year(y) {
            29
        } else {
            28
        }
    } else if m == 4 || m == 6 || m == 9 || m == 11 {
        30
    } else {
        31
    }
}

pub open spec fn valid_ymd(y: int, m: int, d: int) -> bool {
    1 <= m <= 12 && 1 <= d <= days_in_month(y, m)
}

pub open spec fn valid_hms(h: int, mi: int, s: int) -> bool {
    0 <= h <= 23 && 0 <= mi <= 59 && 0 <= s <= 59
}

impl CivilDate {
    pub open spec fn wf(self) -> bool {
        valid_ymd(self.year as int, self.month as int, self.day as int)
    }
}

impl Instant {
    pub open spec fn wf(self) -> bool {
        valid_ymd(self.year as int, self.month as int, self.day as int) && valid_hms(
            self.hour as int,
            self.minute as int,
            self.second as int,
        )
    }
}

impl DateMaybeTime {
    pub open spec fn wf(self) -> bool {
        match self {
            DateMaybeTime::DateTime(i) => i.wf(),
            DateMaybeTime::Date(d) => d.wf(),
        }
    }
}

/// A pure calendar date in its 8-digit form `YYYYMMDD`, naming a real date.
pub open spec fn is_date8(s: Seq<char>) -> bool {
    s.len() == 8 && digits_end(s, 0) == 8 && valid_ymd(
        digits_val(s.subrange(0, 4)),
        digits_val(s.subrange(4, 6)),
        digits_val(s.subrange(6, 8)),
    )
}

pub open spec fn date8_value(s: Seq<char>) -> CivilDate {
    CivilDate {
        year: digits_val(s.subrange(0, 4)) as i32,
        month: digits_val(s.subrange(4, 6)) as u8,
        day: digits_val(s.subrange(6, 8)) as u8,
    }
}

/// A date-time with an explicit UTC marker, `YYYYMMDDTHHMMSSZ`, naming a real
/// date and a real wall-clock time.
pub open spec fn is_datetime_utc(s: Seq<char>) -> bool {
    s.len() == 16 && s[8] == 'T' && s[15] == 'Z' && digits_end(s, 0) == 8 && digits_end(s, 9)
        == 15 && valid_ymd(
        digits_val(s.subrange(0, 4)),
        digits_val(s.subrange(4, 6)),
        digits_val(s.subrange(6, 8)),
    ) && valid_hms(
        digits_val(s.subrange(9, 11)),
        digits_val(s.subrange(11, 13)),
        digits_val(s.subrange(13, 15)),
    )
}

pub open spec fn datetime_utc_value(s: Seq<char>) -> Instant {
    Instant {
        year: digits_val(s.subrange(0, 4)) as i32,
        month: digits_val(s.subrange(4, 6)) as u8,
        day: digits_val(s.subrange(6, 8)) as u8,
        hour: digits_val(s.subrange(9, 11)) as u8,
        minute: digits_val(s.subrange(11, 13)) as u8,
        second: digits_val(s.subrange(13, 15)) as u8,
    }
}

/// A date-time with no zone marker, `YYYYMMDDTHHMMSS`, naming a real date and
/// a real wall-clock time; it is read in the machine's time zone.
pub open spec fn is_datetime_local(s: Seq<char>) -> bool {
    s.len() == 15 && s[8] == 'T' && digits_end(s, 0) == 8 && digits_end(s, 9) == 15 && valid_ymd(
        digits_val(s.subrange(0, 4)),
        digits_val(s.subrange(4, 6)),
        digits_val(s.subrange(6, 8)),
    ) && valid_hms(
        digits_val(s.subrange(9, 11)),
        digits_val(s.subrange(11, 13)),
        digits_val(s.subrange(13, 15)),
    )
}

/// What `parse_datetime` returns, rule by rule, first match winning: the
/// 8-digit date gives the `Date` variant; the 16-character UTC form gives the
/// literal wall-clock instant; the zoneless form resolves in the machine's
/// time zone or fails recoverably; everything else goes to the best-effort
/// external parser, whose failure is a format error.
pub open spec fn datetime_post(s: Seq<char>, r: Result<DateMaybeTime, EventError>) -> bool {
    if is_date8(s) {
        r == Ok::<DateMaybeTime, EventError>(DateMaybeTime::Date(date8_value(s)))
    } else if is_datetime_utc(s) {
        r == Ok::<DateMaybeTime, EventError>(DateMaybeTime::DateTime(datetime_utc_value(s)))
    } else if is_datetime_local(s) {
        (r matches Ok(d) && d matches DateMaybeTime::DateTime(i) && i.wf()) || r == Err::<
            DateMaybeTime,
            EventError,
        >(EventError::TimeZoneError)
    } else {
        (r matches Ok(d) && d matches DateMaybeTime::DateTime(i) && i.wf()) || r == Err::<
            DateMaybeTime,
            EventError,
        >(EventError::FormatError)
    }
}

/// Every valid 8-digit date string yields the `Date` variant, with no time
/// component — never an instant.
pub proof fn lemma_date8_gives_date(s: Seq<char>, r: Result<DateMaybeTime, EventError>)
    requires
        datetime_post(s, r),
        is_date8(s),
    ensures
        r == Ok::<DateMaybeTime, EventError>(DateMaybeTime::Date(date8_value(s))),
{
}

/// Every `YYYYMMDDTHHMMSSZ` string yields an instant equal to its literal
/// wall-clock reading, in UTC.
pub proof fn lemma_utc_gives_instant(s: Seq<char>, r: Result<DateMaybeTime, EventError>)
    requires
        datetime_post(s, r),
        is_datetime_utc(s),
    ensures
        r == Ok::<DateMaybeTime, EventError>(DateMaybeTime::DateTime(datetime_utc_value(s))),
{
}

/// Relies on chrono's `TimeZone::from_local_datetime` for `Local`: reads a
/// civil date and time in the machine's time zone and converts the single
/// unambiguous resolution to UTC; an ambiguous or nonexistent local reading,
/// or an unrepresentable date, yields nothing. The outcome depends on the
/// machine's time zone, so nothing more is claimed than well-formedness.
#[verifier::external_body]
fn local_civil_to_utc(y: i32, mo: u8, d: u8, h: u8, mi: u8, s: u8) -> (r: Option<Instant>)
    ensures
        r matches Some(i) ==> i.wf(),
{
    let nd = chrono::NaiveDate::from_ymd_opt(y, mo as u32, d as u32)?;
    let ndt = nd.and_hms_opt(h as u32, mi as u32, s as u32)?;
    match chrono::TimeZone::from_local_datetime(&chrono::Local, &ndt) {
        chrono::LocalResult::Single(dt) => {
            let u = dt.with_timezone(&chrono::Utc);
            Some(Instant { year: u.year(), month: u.month() as u8, day: u.day() as u8,
                hour: u.hour() as u8, minute: u.minute() as u8, second: u.second() as u8 })
        },
        _ => None,
    }
}

/// Relies on `dateparser::parse`: a best-effort parse of a date-time string,
/// normalized to UTC. Zoneless readings there depend on the machine's time
/// zone and clock, so nothing more is claimed than well-formedness.
#[verifier::external_body]
fn fallback_parse(s: &str) -> (r: Option<Instant>)
    ensures
        r matches Some(i) ==> i.wf(),
{
    match dateparser::parse(s) {
        Ok(u) => Some(Instant { year: u.year(), month: u.month() as u8, day: u.day() as u8,
            hour: u.hour() as u8, minute: u.minute() as u8, second: u.second() as u8 }),
        Err(_) => None,
    }
}

/// Days in a month, executably.
#[verifier::rlimit(30)]
pub fn days_in_month_of(y: i32, m: u8) -> (d: u8)
    requires
        y >= 0,
    ensures
        d as int == days_in_month(y as int, m as int),
{
    if m == 2 {
        if (y % 4 == 0 && y % 100 != 0) || y % 400 == 0 {
            29
        } else {
            28
        }
    } else if m == 4 || m == 6 || m == 9 || m == 11 {
        30
    } else {
        31
    }
}

/// Parses a property value as a date or date-time, by the ordered rules of
/// `datetime_post`.
pub fn parse_datetime(s: &str) -> (r: Result<DateMaybeTime, EventError>)
    ensures
        datetime_post(s@, r),
        r matches Ok(d) ==> d.wf(),
{
    let n: usize = s.unicode_len();
    // Rule: pure 8-digit calendar date.
    if n == 8 && scan_digits(s, 0) == 8 {
        proof {
            lemma_digits_end(s@, 0);
        }
        let y = read_fixed(s, 0, 4);
        let mo = read_fixed(s, 4, 6);
        let d = read_fixed(s, 6, 8);
        if 1 <= mo && mo <= 12 && 1 <= d && d <= days_in_month_of(y as i32, mo as u8) as u32 {
            return Ok(DateMaybeTime::Date(CivilDate { year: y as i32, month: mo as u8, day: d as u8 }));
        }
        // An 8-digit string that names no real date falls through to the
        // best-effort parser.
    }
    // Rule: explicit UTC date-time.
    if n == 16 && s.get_char(8) == 'T' && s.get_char(15) == 'Z' && scan_digits(s, 0) == 8
        && scan_digits(s, 9) == 15 {
        proof {
            lemma_digits_end(s@, 0);
            lemma_digits_end(s@, 9);
        }
        let y = read_fixed(s, 0, 4);
        let mo = read_fixed(s, 4, 6);
        let d = read_fixed(s, 6, 8);
        let h = read_fixed(s, 9, 11);
        let mi = read_fixed(s, 11, 13);
        let sec = read_fixed(s, 13, 15);
        if 1 <= mo && mo <= 12 && 1 <= d && d <= days_in_month_of(y as i32, mo as u8) as u32 && h
            <= 23 && mi <= 59 && sec <= 59 {
            return Ok(DateMaybeTime::DateTime(Instant {
                year: y as i32,
                month: mo as u8,
                day: d as u8,
                hour: h as u8,
                minute: mi as u8,
                second: sec as u8,
            }));
        }
    }
    // Rule: zoneless date-time, read in the machine's time zone.
    if n == 15 && s.get_char(8) == 'T' && scan_digits(s, 0) == 8 && scan_digits(s, 9) == 15 {
        proof {
            lemma_digits_end(s@, 0);
            lemma_digits_end(s@, 9);
        }
        let y = read_fixed(s, 0, 4);
        let mo = read_fixed(s, 4, 6);
        let d = read_fixed(s, 6, 8);
        let h = read_fixed(s, 9, 11);
        let mi = read_fixed(s, 11, 13);
        let sec = read_fixed(s, 13, 15);
        if 1 <= mo && mo <= 12 && 1 <= d && d <= days_in_month_of(y as i32, mo as u8) as u32 && h
            <= 23 && mi <= 59 && sec <= 59 {
            return match local_civil_to_utc(y as i32, mo as u8, d as u8, h as u8, mi as u8,
                sec as u8) {
                Some(i) => Ok(DateMaybeTime::DateTime(i)),
                None => Err(EventError::TimeZoneError),
            };
        }
    }
    // Rule: best-effort external parse.
    match fallback_parse(s) {
        Some(i) => Ok(DateMaybeTime::DateTime(i)),
        None => Err(EventError::FormatError),
    }
}

} // verus!
