//! Calendar dates and the month arithmetic the schedule generator uses.
//!
//! Dates are plain `(year, month, day)` triples in the proleptic Gregorian
//! calendar. The generator walks month by month, so the only arithmetic
//! needed is "first day of the next month", "the month's due date with an
//! explicit fallback for days the month does not have", and day stepping
//! for weekly series.

use vstd::prelude::*;

use crate::strutil::{spec_digit_char, spec_zero_padded, zero_padded_string};

verus! {

/// A calendar date. `month` is 1-based (1 = January), `day` is 1-based.
#[derive(Clone, Copy, Debug, PartialEq, Eq, Structural)]
pub struct Date {
    pub year: i32,
    pub month: u32,
    pub day: u32,
}

/// Gregorian leap-year rule.
pub open spec fn spec_is_leap_year(year: int) -> bool {
    (year % 4 == 0 && year % 100 != 0) || year % 400 == 0
}

/// Number of days in the given month of the given year.
pub open spec fn spec_days_in_month(year: int, month: int) -> int {
    if month == 2 {
        if spec_is_leap_year(year) {
            29
        } else {
            28
        }
    } else if month == 4 || month == 6 || month == 9 || month == 11 {
        30
    } else {
        31
    }
}

/// A well-formed calendar date with a year the engine can do month
/// arithmetic on without overflow.
pub open spec fn valid_date(d: Date) -> bool {
    &&& 1 <= d.year <= 9999
    &&& 1 <= d.month <= 12
    &&& 1 <= d.day <= spec_days_in_month(d.year as int, d.month as int)
}

pub fn is_leap_year(year: i32) -> (r: bool)
    requires
        0 <= year,
    ensures
        r == spec_is_leap_year(year as int),
{
    (year % 4 == 0 && year % 100 != 0) || year % 400 == 0
}

pub fn days_in_month(year: i32, month: u32) -> (r: u32)
    requires
        0 <= year,
        1 <= month <= 12,
    ensures
        r == spec_days_in_month(year as int, month as int),
{
    if month == 2 {
        if is_leap_year(year) {
            29
        } else {
            28
        }
    } else if month == 4 || month == 6 || month == 9 || month == 11 {
        30
    } else {
        31
    }
}

pub fn check_valid_date(d: Date) -> (r: bool)
    ensures
        r == valid_date(d),
{
    1 <= d.year && d.year <= 9999 && 1 <= d.month && d.month <= 12 && 1 <= d.day
        && d.day <= days_in_month(d.year, d.month)
}

/// Strict calendar order on dates.
pub open spec fn date_lt(a: Date, b: Date) -> bool {
    ||| a.year < b.year
    ||| (a.year == b.year && a.month < b.month)
    ||| (a.year == b.year && a.month == b.month && a.day < b.day)
}

/// Calendar order on dates (less than or equal).
pub open spec fn date_le(a: Date, b: Date) -> bool {
    date_lt(a, b) || a == b
}

pub fn date_before(a: &Date, b: &Date) -> (r: bool)
    ensures
        r == date_lt(*a, *b),
{
    a.year < b.year || (a.year == b.year && a.month < b.month) || (a.year == b.year && a.month
        == b.month && a.day < b.day)
}

pub fn date_before_eq(a: &Date, b: &Date) -> (r: bool)
    ensures
        r == date_le(*a, *b),
{
    a.year < b.year || (a.year == b.year && a.month < b.month) || (a.year == b.year && a.month
        == b.month && a.day <= b.day)
}

/// The first day of the month after the month of `d`.
pub open spec fn spec_next_month(d: Date) -> Date {
    if d.month == 12 {
        Date { year: (d.year + 1) as i32, month: 1, day: 1 }
    } else {
        Date { year: d.year, month: (d.month + 1) as u32, day: 1 }
    }
}

/// Advance to the first day of the following month.
pub fn next_month(d: Date) -> (r: Date)
    requires
        valid_date(d),
        d.year < 9999 || d.month < 12,
    ensures
        r == spec_next_month(d),
        valid_date(r),
{
    if d.month == 12 {
        Date { year: d.year + 1, month: 1, day: 1 }
    } else {
        Date { year: d.year, month: d.month + 1, day: 1 }
    }
}

/// The due date inside the month of `cursor` for the wanted day of month.
///
/// When the month is too short for `due_day` the engine falls back to the
/// cursor date itself (the first of the month), rather than clamping to the
/// month's last day; this fallback is a deliberate rule the schedule
/// generator's callers rely on.
pub open spec fn spec_due_date_in_month(cursor: Date, due_day: int) -> Date {
    if 1 <= due_day <= spec_days_in_month(cursor.year as int, cursor.month as int) {
        Date { year: cursor.year, month: cursor.month, day: due_day as u32 }
    } else {
        cursor
    }
}

pub fn due_date_in_month(cursor: Date, due_day: u32) -> (r: Date)
    requires
        valid_date(cursor),
    ensures
        r == spec_due_date_in_month(cursor, due_day as int),
        valid_date(r),
        r.year == cursor.year && r.month == cursor.month,
{
    if 1 <= due_day && due_day <= days_in_month(cursor.year, cursor.month) {
        Date { year: cursor.year, month: cursor.month, day: due_day }
    } else {
        cursor
    }
}

/// The `YYYY-MM-DD` rendering of a date.
pub open spec fn spec_date_string(d: Date) -> Seq<char> {
    spec_zero_padded(d.year as int, 4) + seq!['-'] + spec_zero_padded(d.month as int, 2)
        + seq!['-'] + spec_zero_padded(d.day as int, 2)
}

/// Render a date as `YYYY-MM-DD`.
pub fn date_string(d: Date) -> (r: String)
    requires
        valid_date(d),
    ensures
        r@ == spec_date_string(d),
{
    let mut s = zero_padded_string(d.year as u64, 4);
    s.push('-');
    let month_part = zero_padded_string(d.month as u64, 2);
    s.append(month_part.as_str());
    s.push('-');
    let day_part = zero_padded_string(d.day as u64, 2);
    s.append(day_part.as_str());
    proof {
        assert(s@ =~= spec_date_string(d));
    }
    s
}

/// The numeric value of a decimal digit character, or nothing.
pub open spec fn spec_digit_value(c: char) -> Option<int> {
    if c == '0' {
        Some(0int)
    } else if c == '1' {
        Some(1int)
    } else if c == '2' {
        Some(2int)
    } else if c == '3' {
        Some(3int)
    } else if c == '4' {
        Some(4int)
    } else if c == '5' {
        Some(5int)
    } else if c == '6' {
        Some(6int)
    } else if c == '7' {
        Some(7int)
    } else if c == '8' {
        Some(8int)
    } else if c == '9' {
        Some(9int)
    } else {
        None
    }
}

fn digit_value(c: char) -> (r: Option<u32>)
    ensures
        spec_digit_value(c) is Some <==> r is Some,
        r is Some ==> r->Some_0 as int == spec_digit_value(c)->Some_0 && r->Some_0 < 10,
{
    if c == '0' {
        Some(0)
    } else if c == '1' {
        Some(1)
    } else if c == '2' {
        Some(2)
    } else if c == '3' {
        Some(3)
    } else if c == '4' {
        Some(4)
    } else if c == '5' {
        Some(5)
    } else if c == '6' {
        Some(6)
    } else if c == '7' {
        Some(7)
    } else if c == '8' {
        Some(8)
    } else if c == '9' {
        Some(9)
    } else {
        None
    }
}

/// Whether `s` is exactly `YYYY-MM-DD` with decimal digits in the numeric
/// positions; if so, the date it spells.
pub open spec fn spec_parse_iso_date(s: Seq<char>) -> Option<Date> {
    if s.len() == 10 && s[4] == '-' && s[7] == '-' && spec_digit_value(s[0]) is Some
        && spec_digit_value(s[1]) is Some && spec_digit_value(s[2]) is Some && spec_digit_value(
        s[3],
    ) is Some && spec_digit_value(s[5]) is Some && spec_digit_value(s[6]) is Some
        && spec_digit_value(s[8]) is Some && spec_digit_value(s[9]) is Some {
        let year = spec_digit_value(s[0])->Some_0 * 1000 + spec_digit_value(s[1])->Some_0 * 100
            + spec_digit_value(s[2])->Some_0 * 10 + spec_digit_value(s[3])->Some_0;
        let month = spec_digit_value(s[5])->Some_0 * 10 + spec_digit_value(s[6])->Some_0;
        let day = spec_digit_value(s[8])->Some_0 * 10 + spec_digit_value(s[9])->Some_0;
        let d = Date { year: year as i32, month: month as u32, day: day as u32 };
        if valid_date(d) {
            Some(d)
        } else {
            None
        }
    } else {
        None
    }
}

/// Parse a `YYYY-MM-DD` date text into a well-formed date.
pub fn parse_iso_date(s: &str) -> (r: Option<Date>)
    ensures
        r is Some <==> spec_parse_iso_date(s@) is Some,
        r is Some ==> r->Some_0 == spec_parse_iso_date(s@)->Some_0 && valid_date(r->Some_0),
{
    if s.unicode_len() != 10 {
        return None;
    }
    if s.get_char(4) != '-' || s.get_char(7) != '-' {
        return None;
    }
    let d0 = digit_value(s.get_char(0));
    let d1 = digit_value(s.get_char(1));
    let d2 = digit_value(s.get_char(2));
    let d3 = digit_value(s.get_char(3));
    let d5 = digit_value(s.get_char(5));
    let d6 = digit_value(s.get_char(6));
    let d8 = digit_value(s.get_char(8));
    let d9 = digit_value(s.get_char(9));
    match (d0, d1, d2, d3, d5, d6, d8, d9) {
        (
            Some(y0),
            Some(y1),
            Some(y2),
            Some(y3),
            Some(m0),
            Some(m1),
            Some(a0),
            Some(a1),
        ) => {
            let year = y0 * 1000 + y1 * 100 + y2 * 10 + y3;
            let month = m0 * 10 + m1;
            let day = a0 * 10 + a1;
            let d = Date { year: year as i32, month, day };
            if check_valid_date(d) {
                Some(d)
            } else {
                None
            }
        },
        _ => None,
    }
}

/// The position of `d`'s month on the unbounded month line.
pub open spec fn month_index(d: Date) -> int {
    d.year * 12 + d.month
}

/// The number of days from 1970-01-01 to `d` in the proleptic Gregorian
/// calendar (negative for earlier dates), by era decomposition: years
/// are counted from March so that leap days fall at the end of the
/// shifted year, 400-year eras repeat exactly, and the constant moves
/// the origin from 0000-03-01 to 1970-01-01.
pub open spec fn spec_days_from_civil(d: Date) -> int {
    let y = if d.month <= 2 {
        d.year - 1
    } else {
        d.year as int
    };
    let era = y / 400;
    let yoe = y - era * 400;
    let mp = if d.month > 2 {
        d.month - 3
    } else {
        d.month + 9
    };
    let doy = (153 * mp + 2) / 5 + d.day - 1;
    let doe = yoe * 365 + yoe / 4 - yoe / 100 + doy;
    era * 146097 + doe - 719468
}

/// Days from the Unix epoch to `d`.
pub fn days_from_civil(d: Date) -> (r: i64)
    requires
        valid_date(d),
    ensures
        r == spec_days_from_civil(d),
        -800_000 <= r <= 3_000_000,
{
    let year = d.year as i64;
    let month = d.month as i64;
    let day = d.day as i64;
    let y: i64 = if month <= 2 {
        year - 1
    } else {
        year
    };
    let era: i64 = y / 400;
    let yoe: i64 = y - era * 400;
    let mp: i64 = if month > 2 {
        month - 3
    } else {
        month + 9
    };
    let doy: i64 = (153 * mp + 2) / 5 + day - 1;
    let doe: i64 = yoe * 365 + yoe / 4 - yoe / 100 + doy;
    era * 146097 + doe - 719468
}

/// The day after `d`.
pub open spec fn spec_next_day(d: Date) -> Date {
    if d.day < spec_days_in_month(d.year as int, d.month as int) {
        Date { year: d.year, month: d.month, day: (d.day + 1) as u32 }
    } else {
        spec_next_month(d)
    }
}

pub fn next_day(d: Date) -> (r: Date)
    requires
        valid_date(d),
        d.year < 9999 || d.month < 12 || d.day < 31,
    ensures
        r == spec_next_day(d),
        valid_date(r),
{
    if d.day < days_in_month(d.year, d.month) {
        Date { year: d.year, month: d.month, day: d.day + 1 }
    } else {
        next_month(d)
    }
}

} // verus!
