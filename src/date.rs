//! Calendar dates, read from `YYYY-MM-DD` text and written out in words.

use vstd::prelude::*;
use chrono::Datelike;

verus! {

/// A day of the proleptic Gregorian calendar.
#[derive(Clone, Copy, Debug, PartialEq, Eq, Structural)]
pub struct CalendarDate {
    pub year: i32,
    pub month: u32,
    pub day: u32,
}

pub open spec fn is_leap_year(y: int) -> bool {
    (y % 4 == 0 && y % 100 != 0) || y % 400 == 0
}

pub open spec fn days_in_month(y: int, m: int) -> int {
    if m == 2 {
        if is_leap_year(y) {
            29
        } else {
            28
        }
    } else if m == 4 || m == 6 || m == 9 || m == 11 {
        30
    } else {
        31
    }
}

/// The dates that chrono's `NaiveDate` can hold: years -262143 to 262142.
pub open spec fn is_valid_date(d: CalendarDate) -> bool {
    &&& -262143 <= d.year <= 262142
    &&& 1 <= d.month <= 12
    &&& 1 <= d.day <= days_in_month(d.year as int, d.month as int)
}

/// `a` is a later day than `b`.
pub open spec fn later_day(a: CalendarDate, b: CalendarDate) -> bool {
    a.year > b.year || (a.year == b.year && (a.month > b.month || (a.month == b.month
        && a.day > b.day)))
}

/// `a` sorts above `b` when newest come first; a missing date is the
/// earliest of all.
pub open spec fn later_date(a: Option<CalendarDate>, b: Option<CalendarDate>) -> bool {
    match (a, b) {
        (Some(x), Some(y)) => later_day(x, y),
        (Some(_), None) => true,
        _ => false,
    }
}

/// The date that `NaiveDate::parse_from_str` reads from a text with the
/// format `%Y-%m-%d`, if it reads one.
pub uninterp spec fn parsed_date(s: Seq<char>) -> Option<CalendarDate>;

/// The English name of month `m`, 1 being January.
pub open spec fn month_name(m: u32) -> Seq<char> {
    if m == 1 {
        "January"@
    } else if m == 2 {
        "February"@
    } else if m == 3 {
        "March"@
    } else if m == 4 {
        "April"@
    } else if m == 5 {
        "May"@
    } else if m == 6 {
        "June"@
    } else if m == 7 {
        "July"@
    } else if m == 8 {
        "August"@
    } else if m == 9 {
        "September"@
    } else if m == 10 {
        "October"@
    } else if m == 11 {
        "November"@
    } else {
        "December"@
    }
}

pub open spec fn digit_char(d: nat) -> char {
    ((d + 48) as u32) as char
}

/// The decimal digits of `n`, without leading zeros.
pub open spec fn decimal(n: nat) -> Seq<char>
    decreases n,
{
    if n < 10 {
        seq![digit_char(n)]
    } else {
        decimal(n / 10).push(digit_char(n % 10))
    }
}

/// The digits of `n` with zeros in front up to four characters.
pub open spec fn four_digits(n: nat) -> Seq<char> {
    let d = decimal(n);
    if d.len() < 4 {
        Seq::new((4 - d.len()) as nat, |i: int| '0') + d
    } else {
        d
    }
}

/// A year as `%Y` writes it: four digits at least, with a sign outside
/// 0 to 9999.
pub open spec fn year_text(y: int) -> Seq<char> {
    if 0 <= y <= 9999 {
        four_digits(y as nat)
    } else if y > 9999 {
        seq!['+'] + four_digits(y as nat)
    } else {
        seq!['-'] + four_digits((-y) as nat)
    }
}

/// A date as `%B %-d, %Y` writes it, such as `March 5, 2024`.
pub open spec fn long_date(year: i32, month: u32, day: u32) -> Seq<char> {
    month_name(month) + seq![' '] + decimal(day as nat) + ", "@ + year_text(year as int)
}

/// Relies on chrono's `NaiveDate::parse_from_str` with the format
/// `%Y-%m-%d`, and on its `Datelike` accessors for the fields of the date it
/// gives back; every `NaiveDate` is a valid date in chrono's range.
#[verifier::external_body]
pub(crate) fn parse_ymd(s: &str) -> (r: Option<CalendarDate>)
    ensures
        r == parsed_date(s@),
        r matches Some(d) ==> is_valid_date(d),
{
    match chrono::NaiveDate::parse_from_str(s, "%Y-%m-%d") {
        Ok(d) => Some(CalendarDate { year: d.year(), month: d.month(), day: d.day() }),
        Err(_) => None,
    }
}

/// Relies on chrono's `NaiveDate::format` with `%B %-d, %Y`: the English
/// month name, the day without padding, and the year zero-padded to four
/// digits with a sign outside 0 to 9999. The date is built with
/// `NaiveDate::from_ymd_opt`, which gives one for every valid year, month
/// and day.
#[verifier::external_body]
pub(crate) fn format_long(d: CalendarDate) -> (r: String)
    requires
        is_valid_date(d),
    ensures
        r@ == long_date(d.year, d.month, d.day),
{
    match chrono::NaiveDate::from_ymd_opt(d.year, d.month, d.day) {
        Some(x) => x.format("%B %-d, %Y").to_string(),
        None => String::new(),
    }
}

/// The text shown for a stored date: in words where it parses, else as
/// stored.
pub open spec fn display_date(value: Seq<char>) -> Seq<char> {
    match parsed_date(value) {
        Some(d) => long_date(d.year, d.month, d.day),
        None => value,
    }
}

/// The date shown on a page: `Month D, Year` where the text is a
/// `YYYY-MM-DD` date, else the text unchanged.
pub fn format_date_full(value: &str) -> (r: String)
    ensures
        r@ == display_date(value@),
{
    match parse_ymd(value) {
        Some(d) => format_long(d),
        None => value.to_owned(),
    }
}

/// Whether a post with date `a` goes above one with date `b` on the date
/// alone.
pub fn is_later_date(a: Option<CalendarDate>, b: Option<CalendarDate>) -> (r: bool)
    ensures
        r == later_date(a, b),
{
    match (a, b) {
        (Some(x), Some(y)) => x.year > y.year || (x.year == y.year && (x.month > y.month || (
        x.month == y.month && x.day > y.day))),
        (Some(_), None) => true,
        _ => false,
    }
}

pub proof fn lemma_later_date_order(
    a: Option<CalendarDate>,
    b: Option<CalendarDate>,
    c: Option<CalendarDate>,
)
    ensures
        !later_date(a, a),
        later_date(a, b) && later_date(b, c) ==> later_date(a, c),
        !later_date(a, b) && !later_date(b, a) ==> a == b,
{
}

} // verus!
