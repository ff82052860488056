//! Calendar dates and clock times as the timetable encodes them.
use vstd::prelude::*;
use crate::json::{err, ParseError, ParseErrorKind};
use crate::text::{decimal, push_two_digits, two_digits};

verus! {

/// A calendar date of the proleptic Gregorian calendar.
#[derive(Debug, Clone, Copy, PartialEq, Eq, Structural)]
pub struct Date {
    pub year: u32,
    pub month: u32,
    pub day: u32,
}

/// A time of day to the minute.
#[derive(Debug, Clone, Copy, PartialEq, Eq, Structural)]
pub struct ClockTime {
    pub hour: u32,
    pub minute: u32,
}

pub open spec fn is_leap_year(y: int) -> bool {
    y % 4 == 0 && (y % 100 != 0 || y % 400 == 0)
}

pub open spec fn days_in_month(y: int, m: int) -> int {
    if m == 2 {
        if is_leap_year(y) {
            29
        } else {
            28
        }
    } else if m == 4 || m == 6 || m == 9 || m == 11 {
        30
    } else {
        31
    }
}

pub open spec fn is_calendar_date(y: int, m: int, d: int) -> bool {
    1 <= m <= 12 && 1 <= d <= days_in_month(y, m)
}

/// Relies on chrono's `NaiveDate::from_ymd_opt`, which gives a date exactly
/// when the day exists in its month of that year (years within its range).
#[verifier::external_body]
fn calendar_date_exists(year: i32, month: u32, day: u32) -> (r: bool)
    requires
        1 <= year <= 9999,
    ensures
        r == is_calendar_date(year as int, month as int, day as int),
{
    chrono::NaiveDate::from_ymd_opt(year, month, day).is_some()
}

/// Relies on chrono's `NaiveTime::from_hms_opt`, which gives a time exactly
/// when the hour is below 24 and minute and second are below 60.
#[verifier::external_body]
fn clock_time_exists(hour: u32, minute: u32) -> (r: bool)
    ensures
        r == (hour < 24 && minute < 60),
{
    chrono::NaiveTime::from_hms_opt(hour, minute, 0).is_some()
}

/// A time encoded as the integer HHMM without zero padding: three or four
/// decimal digits, the last two of them the minutes.
pub open spec fn decode_time_spec(n: u64, field: &'static str) -> Result<ClockTime, ParseError> {
    if 100 <= n <= 9999 && n / 100 < 24 && n % 100 < 60 {
        Ok(ClockTime { hour: (n / 100) as u32, minute: (n % 100) as u32 })
    } else {
        err(ParseErrorKind::MalformedValue, field)
    }
}

/// A date encoded as the integer YYYYMMDD.
pub open spec fn decode_date_spec(n: u64, field: &'static str) -> Result<Date, ParseError> {
    let y = n / 10000;
    let m = (n / 100) % 100;
    let d = n % 100;
    if 1000 <= y <= 9999 && is_calendar_date(y as int, m as int, d as int) {
        Ok(Date { year: y as u32, month: m as u32, day: d as u32 })
    } else {
        err(ParseErrorKind::MalformedValue, field)
    }
}

pub fn decode_time(n: u64, field: &'static str) -> (r: Result<ClockTime, ParseError>)
    ensures
        r == decode_time_spec(n, field),
{
    if n < 100 || n > 9999 {
        return Err(ParseError { kind: ParseErrorKind::MalformedValue, field });
    }
    let hour = (n / 100) as u32;
    let minute = (n % 100) as u32;
    if clock_time_exists(hour, minute) {
        Ok(ClockTime { hour, minute })
    } else {
        Err(ParseError { kind: ParseErrorKind::MalformedValue, field })
    }
}

pub fn decode_date(n: u64, field: &'static str) -> (r: Result<Date, ParseError>)
    ensures
        r == decode_date_spec(n, field),
{
    let y = n / 10000;
    let m = (n / 100) % 100;
    let d = n % 100;
    if y < 1000 || y > 9999 {
        return Err(ParseError { kind: ParseErrorKind::MalformedValue, field });
    }
    if calendar_date_exists(y as i32, m as u32, d as u32) {
        Ok(Date { year: y as u32, month: m as u32, day: d as u32 })
    } else {
        Err(ParseError { kind: ParseErrorKind::MalformedValue, field })
    }
}

/// `HH:MM`, zero-padded.
pub open spec fn hhmm(t: ClockTime) -> Seq<char> {
    two_digits(t.hour as nat) + seq![':'] + two_digits(t.minute as nat)
}

impl ClockTime {
    pub open spec fn wf(&self) -> bool {
        self.hour < 24 && self.minute < 60
    }

    /// Appends the time as `HH:MM`.
    pub fn push_hhmm(&self, out: &mut String)
        ensures
            final(out)@ == old(out)@ + hhmm(*self),
    {
        push_two_digits(out, self.hour);
        proof {
            reveal_strlit(":");
        }
        out.append(":");
        push_two_digits(out, self.minute);
        assert(final(out)@ =~= old(out)@ + hhmm(*self));
    }
}

proof fn lemma_decimal_len_small(n: nat)
    requires
        n < 10000,
    ensures
        n < 10 ==> decimal(n).len() == 1,
        10 <= n < 100 ==> decimal(n).len() == 2,
        100 <= n < 1000 ==> decimal(n).len() == 3,
        1000 <= n ==> decimal(n).len() == 4,
    decreases n,
{
    if n >= 10 {
        lemma_decimal_len_small(n / 10);
    }
}

proof fn lemma_decimal_len_large(n: nat)
    requires
        n >= 1000,
    ensures
        decimal(n).len() >= 4,
        n >= 10000 ==> decimal(n).len() >= 5,
    decreases n,
{
    if n >= 10000 {
        lemma_decimal_len_large(n / 10);
    } else {
        lemma_decimal_len_small(n);
    }
}

/// The range that time decoding accepts is exactly the integers written with
/// three or four decimal digits.
pub proof fn lemma_time_digit_count(n: u64)
    ensures
        (100 <= n <= 9999) <==> (decimal(n as nat).len() == 3 || decimal(n as nat).len() == 4),
{
    if n < 10000 {
        lemma_decimal_len_small(n as nat);
    } else {
        lemma_decimal_len_large(n as nat);
    }
}

} // verus!
