//! Calendar dates and the strict `YYYY-MM-DD` parser used at the
//! data-access boundary.
//!
//! A due date crosses the boundary as a string; it is parsed and validated
//! here, before any row is written. The accepted shape is exactly ten
//! characters, four year digits, two month digits and two day digits
//! separated by `-`, naming a real day of the proleptic Gregorian calendar.

use vstd::prelude::*;

use crate::models::DbError;

verus! {

/// A calendar date with its fields held as plain integers.
#[derive(Clone, Copy, Debug, PartialEq, Eq, Structural)]
pub struct Date {
    pub year: u32,
    pub month: u32,
    pub day: u32,
}

/// Whether `y` is a leap year of the Gregorian calendar.
pub open spec fn is_leap_year(y: int) -> bool {
    (y % 4 == 0 && y % 100 != 0) || y % 400 == 0
}

/// The number of days in month `m` of year `y`, for `m` between 1 and 12.
pub open spec fn days_in_month(y: int, m: int) -> int {
    if m == 2 {
        if is_leap_year(y) {
            29
        } else {
            28
        }
    } else if m == 4 || m == 6 || m == 9 || m == 11 {
        30
    } else {
        31
    }
}

/// Whether year `y`, month `m`, day `d` name a real calendar day that four,
/// two and two digits can write.
pub open spec fn is_valid_ymd(y: int, m: int, d: int) -> bool {
    &&& 0 <= y <= 9999
    &&& 1 <= m <= 12
    &&& 1 <= d <= days_in_month(y, m)
}

impl Date {
    /// Whether this value names a real calendar day.
    pub open spec fn valid(&self) -> bool {
        is_valid_ymd(self.year as int, self.month as int, self.day as int)
    }
}

/// Whether `c` is a decimal digit.
pub open spec fn is_digit(c: char) -> bool {
    48 <= c as int && c as int <= 57
}

/// The value of the decimal digit `c`.
pub open spec fn digit_val(c: char) -> int {
    c as int - 48
}

/// Whether `s` has the shape `YYYY-MM-DD`: ten characters, digits in the
/// year, month and day positions, `-` between the groups.
pub open spec fn is_date_shaped(s: Seq<char>) -> bool {
    &&& s.len() == 10
    &&& is_digit(s[0]) && is_digit(s[1]) && is_digit(s[2]) && is_digit(s[3])
    &&& s[4] == '-'
    &&& is_digit(s[5]) && is_digit(s[6])
    &&& s[7] == '-'
    &&& is_digit(s[8]) && is_digit(s[9])
}

/// The year written by the first four characters of a date-shaped string.
pub open spec fn year_of(s: Seq<char>) -> int {
    digit_val(s[0]) * 1000 + digit_val(s[1]) * 100 + digit_val(s[2]) * 10 + digit_val(s[3])
}

/// The month written by characters five and six of a date-shaped string.
pub open spec fn month_of(s: Seq<char>) -> int {
    digit_val(s[5]) * 10 + digit_val(s[6])
}

/// The day written by the last two characters of a date-shaped string.
pub open spec fn day_of(s: Seq<char>) -> int {
    digit_val(s[8]) * 10 + digit_val(s[9])
}

/// Whether `s` is a well-formed due-date string: `YYYY-MM-DD` in shape and
/// naming a real calendar day.
pub open spec fn is_valid_date_string(s: Seq<char>) -> bool {
    &&& is_date_shaped(s)
    &&& is_valid_ymd(year_of(s), month_of(s), day_of(s))
}

/// The date a valid due-date string names.
pub open spec fn date_of(s: Seq<char>) -> Date {
    Date { year: year_of(s) as u32, month: month_of(s) as u32, day: day_of(s) as u32 }
}

/// The value of `c` as a decimal digit, or `None` where `c` is no digit.
fn digit(c: char) -> (r: Option<u32>)
    ensures
        is_digit(c) <==> r is Some,
        is_digit(c) ==> r == Some(digit_val(c) as u32),
{
    let v = c as u32;
    if 48 <= v && v <= 57 {
        Some(v - 48)
    } else {
        None
    }
}

/// The number of days in month `m` of year `y`.
fn days_in_month_count(y: u32, m: u32) -> (d: u32)
    requires
        1 <= m <= 12,
    ensures
        d as int == days_in_month(y as int, m as int),
{
    if m == 2 {
        if (y % 4 == 0 && y % 100 != 0) || y % 400 == 0 {
            29
        } else {
            28
        }
    } else if m == 4 || m == 6 || m == 9 || m == 11 {
        30
    } else {
        31
    }
}

/// Parses a due-date string of the strict shape `YYYY-MM-DD`.
///
/// Succeeds exactly on the well-formed strings, returning the date the
/// string names; every other input is rejected as a validation error.
pub fn parse_date(s: &str) -> (r: Result<Date, DbError>)
    ensures
        is_valid_date_string(s@) ==> r == Ok::<Date, DbError>(date_of(s@)),
        !is_valid_date_string(s@) ==> r == Err::<Date, DbError>(DbError::ValidationError),
        r matches Ok(d) ==> d.valid(),
{
    if s.unicode_len() != 10 {
        return Err(DbError::ValidationError);
    }
    if s.get_char(4) != '-' || s.get_char(7) != '-' {
        return Err(DbError::ValidationError);
    }
    let d0 = digit(s.get_char(0));
    let d1 = digit(s.get_char(1));
    let d2 = digit(s.get_char(2));
    let d3 = digit(s.get_char(3));
    let d5 = digit(s.get_char(5));
    let d6 = digit(s.get_char(6));
    let d8 = digit(s.get_char(8));
    let d9 = digit(s.get_char(9));
    match (d0, d1, d2, d3, d5, d6, d8, d9) {
        (Some(y3), Some(y2), Some(y1), Some(y0), Some(m1), Some(m0), Some(a1), Some(a0)) => {
            let year = y3 * 1000 + y2 * 100 + y1 * 10 + y0;
            let month = m1 * 10 + m0;
            let day = a1 * 10 + a0;
            if month < 1 || month > 12 {
                return Err(DbError::ValidationError);
            }
            if day < 1 || day > days_in_month_count(year, month) {
                return Err(DbError::ValidationError);
            }
            Ok(Date { year, month, day })
        },
        _ => Err(DbError::ValidationError),
    }
}

} // verus!
