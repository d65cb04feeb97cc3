//! Calendar dates and the count of days between them.
//!
//! Reading a date from text and subtracting two dates are done by chrono; the
//! two functions that call it state what is taken on trust from it.

use chrono::Datelike;
use chrono::NaiveDate;
use vstd::prelude::*;

verus! {

/// The earliest year a calendar date may lie in.
pub const MIN_YEAR: i32 = -262143;

/// The latest year a calendar date may lie in.
pub const MAX_YEAR: i32 = 262142;

/// Leap years of the proleptic Gregorian calendar.
pub open spec fn is_leap_year(year: int) -> bool {
    year % 4 == 0 && (year % 100 != 0 || year % 400 == 0)
}

/// The number of days of a month. Months are numbered from 1 to 12; for any
/// other number the value is 31 and means nothing.
pub open spec fn days_in_month(year: int, month: int) -> int {
    if month == 2 {
        if is_leap_year(year) {
            29
        } else {
            28
        }
    } else if month == 4 || month == 6 || month == 9 || month == 11 {
        30
    } else {
        31
    }
}

/// The days of `year` that lie before the first day of `month`.
pub open spec fn days_before_month(year: int, month: int) -> int
    decreases month,
{
    if month <= 1 {
        0
    } else {
        days_before_month(year, month - 1) + days_in_month(year, month - 1)
    }
}

/// The days between the start of year 1 and the start of `year`.
pub open spec fn days_before_year(year: int) -> int {
    let y = year - 1;
    365 * y + y / 4 - y / 100 + y / 400
}

/// Whether year, month and day name a day of the calendar within the
/// supported range of years.
pub open spec fn valid_ymd(year: int, month: int, day: int) -> bool {
    &&& MIN_YEAR <= year <= MAX_YEAR
    &&& 1 <= month <= 12
    &&& 1 <= day <= days_in_month(year, month)
}

/// A day of the proleptic Gregorian calendar, held as plain numbers.
#[derive(Clone, Copy, Debug, PartialEq, Eq, Structural)]
pub struct CalendarDate {
    pub year: i32,
    pub month: u32,
    pub day: u32,
}

impl CalendarDate {
    /// The date names a day that exists.
    pub open spec fn wf(&self) -> bool {
        valid_ymd(self.year as int, self.month as int, self.day as int)
    }

    /// The position of the day on the calendar, counted in days, with
    /// 1 January of year 1 as day 1.
    pub open spec fn day_number(&self) -> int {
        days_before_year(self.year as int) + days_before_month(
            self.year as int,
            self.month as int,
        ) + self.day
    }

    /// Makes a date from year, month and day, or `None` where no such day
    /// exists.
    pub fn new(year: i32, month: u32, day: u32) -> (r: Option<CalendarDate>)
        ensures
            r == (if valid_ymd(year as int, month as int, day as int) {
                Some(CalendarDate { year, month, day })
            } else {
                None
            }),
    {
        if year < MIN_YEAR || year > MAX_YEAR || month < 1 || month > 12 || day < 1 {
            return None;
        }
        if day > month_length(year, month) {
            return None;
        }
        Some(CalendarDate { year, month, day })
    }

    /// Computes the day number of the date.
    pub fn day_count(&self) -> (r: i64)
        requires
            self.wf(),
        ensures
            r == self.day_number(),
    {
        // Shifting by a multiple of 400 years keeps the divisions on
        // non-negative numbers.
        let y: i64 = self.year as i64 - 1;
        let shifted: i64 = y + 262_400;
        let leap_days: i64 = (shifted / 4 - 65_600) - (shifted / 100 - 2_624) + (shifted / 400
            - 656);
        let mut within: i64 = 0;
        let mut m: u32 = 1;
        while m < self.month
            invariant
                self.wf(),
                1 <= m <= self.month,
                within == days_before_month(self.year as int, m as int),
                0 <= within <= 31 * (m - 1),
            decreases self.month - m,
        {
            within = within + month_length(self.year, m) as i64;
            m += 1;
        }
        365 * y + leap_days + within + self.day as i64
    }
}

/// The day after `date`.
pub open spec fn next_day(date: CalendarDate) -> CalendarDate {
    if date.day < days_in_month(date.year as int, date.month as int) {
        CalendarDate { year: date.year, month: date.month, day: (date.day + 1) as u32 }
    } else if date.month < 12 {
        CalendarDate { year: date.year, month: (date.month + 1) as u32, day: 1 }
    } else {
        CalendarDate { year: (date.year + 1) as i32, month: 1, day: 1 }
    }
}

/// Day numbers count calendar days: the day after any date, across the ends
/// of months and years and over leap days, has the next day number.
pub proof fn lemma_next_day_is_one_later(date: CalendarDate)
    requires
        date.wf(),
        date.year < MAX_YEAR || date.month < 12 || date.day < 31,
    ensures
        next_day(date).wf(),
        next_day(date).day_number() == date.day_number() + 1,
{
    reveal_with_fuel(days_before_month, 13);
}

/// The days left are zero on the target day itself and one on the day before
/// it, whatever the time of day.
pub proof fn lemma_days_until_is_calendar_exact(today: CalendarDate)
    requires
        today.wf(),
        today.year < MAX_YEAR || today.month < 12 || today.day < 31,
    ensures
        days_until(Some(today), today) == Some(0int),
        days_until(Some(next_day(today)), today) == Some(1int),
{
    lemma_next_day_is_one_later(today);
}

/// Whether `year` is a leap year.
pub fn leap_year(year: i32) -> (r: bool)
    ensures
        r == is_leap_year(year as int),
{
    // Shifting by a multiple of 400 keeps the remainders and avoids negatives.
    let shifted: i64 = year as i64 + 2_147_484_000;
    shifted % 4 == 0 && (shifted % 100 != 0 || shifted % 400 == 0)
}

/// The number of days of a month.
pub fn month_length(year: i32, month: u32) -> (r: u32)
    ensures
        r == days_in_month(year as int, month as int),
{
    if month == 2 {
        if leap_year(year) {
            29
        } else {
            28
        }
    } else if month == 4 || month == 6 || month == 9 || month == 11 {
        30
    } else {
        31
    }
}

/// Decimal digits `0` to `9`.
pub open spec fn is_digit(c: char) -> bool {
    '0' <= c && c <= '9'
}

/// The number a decimal digit stands for.
pub open spec fn digit_value(c: char) -> int {
    c as int - '0' as int
}

/// The strict ten-character shape `YYYY-MM-DD`: four digits, a hyphen, two
/// digits, a hyphen, two digits.
pub open spec fn is_iso_shape(text: Seq<char>) -> bool {
    &&& text.len() == 10
    &&& is_digit(text[0])
    &&& is_digit(text[1])
    &&& is_digit(text[2])
    &&& is_digit(text[3])
    &&& text[4] == '-'
    &&& is_digit(text[5])
    &&& is_digit(text[6])
    &&& text[7] == '-'
    &&& is_digit(text[8])
    &&& is_digit(text[9])
}

/// The date that a text of the strict shape names, or `None` where its
/// numbers name no day of the calendar.
pub open spec fn iso_date(text: Seq<char>) -> Option<CalendarDate>
    recommends
        is_iso_shape(text),
{
    let year = 1000 * digit_value(text[0]) + 100 * digit_value(text[1]) + 10 * digit_value(text[2])
        + digit_value(text[3]);
    let month = 10 * digit_value(text[5]) + digit_value(text[6]);
    let day = 10 * digit_value(text[8]) + digit_value(text[9]);
    if valid_ymd(year, month, day) {
        Some(CalendarDate { year: year as i32, month: month as u32, day: day as u32 })
    } else {
        None
    }
}

/// What chrono's `NaiveDate::parse_from_str` reads from `text` under the
/// format `%Y-%m-%d`: the date as year, month and day, or `None` where it
/// reports an error. Its grammar is more lenient than the strict shape (it
/// takes a sign and shorter numbers, for instance), so it is named rather
/// than written out.
pub uninterp spec fn parsed_date(text: Seq<char>) -> Option<CalendarDate>;

/// Calls chrono's `NaiveDate::parse_from_str` with the format `%Y-%m-%d`.
///
/// Trusted, not proved: the result is the named parse of the text; a date
/// that comes back is a day that exists within chrono's range of years; a text
/// of the strict shape `YYYY-MM-DD` is read digit by digit and accepted exactly
/// when its numbers name a day of the calendar; the empty text is refused.
#[verifier::external_body]
pub(crate) fn parse_date(text: &str) -> (r: Option<CalendarDate>)
    ensures
        r == parsed_date(text@),
        r matches Some(d) ==> d.wf(),
        is_iso_shape(text@) ==> r == iso_date(text@),
        text@.len() == 0 ==> r is None,
{
    match NaiveDate::parse_from_str(text, "%Y-%m-%d") {
        Ok(d) => Some(CalendarDate { year: d.year(), month: d.month(), day: d.day() }),
        Err(_) => None,
    }
}

/// Calls chrono's `NaiveDate::signed_duration_since` and `TimeDelta::num_days`
/// on the two dates.
///
/// Trusted, not proved: the result is the number of calendar days from `today`
/// to `target`, that is the difference of their day numbers in the proleptic
/// Gregorian calendar.
#[verifier::external_body]
pub(crate) fn signed_days_between(target: &CalendarDate, today: &CalendarDate) -> (r: i64)
    requires
        target.wf(),
        today.wf(),
    ensures
        r == target.day_number() - today.day_number(),
{
    let target_day = NaiveDate::from_ymd_opt(target.year, target.month, target.day).unwrap();
    let today_day = NaiveDate::from_ymd_opt(today.year, today.month, today.day).unwrap();
    target_day.signed_duration_since(today_day).num_days()
}

/// The days left until a target date that may or may not have been readable.
pub open spec fn days_until(parsed: Option<CalendarDate>, today: CalendarDate) -> Option<int> {
    match parsed {
        Some(target) => Some(target.day_number() - today.day_number()),
        None => None,
    }
}

/// The integer behind an optional machine integer.
pub open spec fn as_int(n: Option<i64>) -> Option<int> {
    match n {
        Some(v) => Some(v as int),
        None => None,
    }
}

/// The signed number of calendar days from `today` to an already parsed
/// target date: positive before the target, zero on the day, negative after.
/// `None` where the target could not be read.
pub fn days_until_parsed(parsed: Option<CalendarDate>, today: &CalendarDate) -> (r: Option<i64>)
    requires
        today.wf(),
        parsed matches Some(d) ==> d.wf(),
    ensures
        as_int(r) == days_until(parsed, *today),
{
    match parsed {
        Some(target) => Some(signed_days_between(&target, today)),
        None => None,
    }
}

/// The signed number of calendar days from `today` to the date written in
/// `dday_str`, or `None` where the text cannot be read as a date.
///
/// The count is by calendar days, so the time of day never shifts it. For a
/// text of the strict shape `YYYY-MM-DD` the result is spelled out: the
/// difference of the day numbers where the text names a day that exists, and
/// `None` where it does not.
pub fn calc_days_until(dday_str: &str, today: &CalendarDate) -> (r: Option<i64>)
    requires
        today.wf(),
    ensures
        as_int(r) == days_until(parsed_date(dday_str@), *today),
        is_iso_shape(dday_str@) ==> as_int(r) == days_until(iso_date(dday_str@), *today),
        dday_str@.len() == 0 ==> r is None,
{
    let parsed = parse_date(dday_str);
    days_until_parsed(parsed, today)
}

} // verus!
