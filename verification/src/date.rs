//! Calendar dates for lease terms, held as plain year, month and day
//! numbers, with the `YYYY-MM-DD` grammar that lease input must satisfy.

use vstd::prelude::*;
use crate::text::{digit_val, is_digit};

verus! {

/// A calendar date. A value is only handed out when [`date_valid`] holds of
/// it.
#[derive(Clone, Copy, PartialEq, Eq, Structural, Debug)]
pub struct Date {
    pub year: u32,
    pub month: u32,
    pub day: u32,
}

/// Whether a year is a leap year in the Gregorian calendar.
pub open spec fn leap_year(y: int) -> bool {
    y % 4 == 0 && (y % 100 != 0 || y % 400 == 0)
}

/// The number of days in a month of a given year.
pub open spec fn days_in_month(y: int, m: int) -> int {
    if m == 2 {
        if leap_year(y) {
            29
        } else {
            28
        }
    } else if m == 4 || m == 6 || m == 9 || m == 11 {
        30
    } else {
        31
    }
}

/// Whether year, month and day name a real calendar date that the
/// four-digit-year grammar can carry.
pub open spec fn date_valid(y: int, m: int, d: int) -> bool {
    &&& 0 <= y <= 9999
    &&& 1 <= m <= 12
    &&& 1 <= d <= days_in_month(y, m)
}

impl Date {
    /// Validity of this date value.
    pub open spec fn wf(self) -> bool {
        date_valid(self.year as int, self.month as int, self.day as int)
    }
}

/// The reading of a string as a `YYYY-MM-DD` date: defined exactly when the
/// string has that shape and names a real calendar date.
pub open spec fn parse_date_spec(s: Seq<char>) -> Option<Date> {
    if s.len() == 10 && is_digit(s[0]) && is_digit(s[1]) && is_digit(s[2]) && is_digit(s[3]) && s[4]
        == '-' && is_digit(s[5]) && is_digit(s[6]) && s[7] == '-' && is_digit(s[8]) && is_digit(
        s[9],
    ) {
        let y = digit_val(s[0]) * 1000 + digit_val(s[1]) * 100 + digit_val(s[2]) * 10 + digit_val(
            s[3],
        );
        let m = digit_val(s[5]) * 10 + digit_val(s[6]);
        let d = digit_val(s[8]) * 10 + digit_val(s[9]);
        if date_valid(y, m, d) {
            Some(Date { year: y as u32, month: m as u32, day: d as u32 })
        } else {
            None
        }
    } else {
        None
    }
}

/// Read one digit of the string, or report that the character there is not a
/// digit.
fn read_digit(s: &str, i: usize) -> (r: Option<u32>)
    requires
        i < s@.len(),
    ensures
        r is Some <==> is_digit(s@[i as int]),
        r is Some ==> r->0 == digit_val(s@[i as int]) && r->0 <= 9,
{
    let c = s.get_char(i);
    let x = c as u32;
    if 48 <= x && x <= 57 {
        Some(x - 48)
    } else {
        None
    }
}

/// Parse a `YYYY-MM-DD` date; any other shape, or a triple that names no
/// real calendar date, is refused. The grammar is deliberately strict:
/// exactly four, two and two digits, so unpadded fields such as `2024-1-1`
/// are malformed input and earn the field error.
pub fn parse_date(s: &str) -> (r: Option<Date>)
    ensures
        r == parse_date_spec(s@),
        r is Some ==> r->0.wf(),
{
    let n = s.unicode_len();
    if n != 10 {
        return None;
    }
    let d0 = match read_digit(s, 0) {
        Some(v) => v,
        None => { return None; },
    };
    let d1 = match read_digit(s, 1) {
        Some(v) => v,
        None => { return None; },
    };
    let d2 = match read_digit(s, 2) {
        Some(v) => v,
        None => { return None; },
    };
    let d3 = match read_digit(s, 3) {
        Some(v) => v,
        None => { return None; },
    };
    if s.get_char(4) != '-' {
        return None;
    }
    let d5 = match read_digit(s, 5) {
        Some(v) => v,
        None => { return None; },
    };
    let d6 = match read_digit(s, 6) {
        Some(v) => v,
        None => { return None; },
    };
    if s.get_char(7) != '-' {
        return None;
    }
    let d8 = match read_digit(s, 8) {
        Some(v) => v,
        None => { return None; },
    };
    let d9 = match read_digit(s, 9) {
        Some(v) => v,
        None => { return None; },
    };
    let y = d0 * 1000 + d1 * 100 + d2 * 10 + d3;
    let m = d5 * 10 + d6;
    let d = d8 * 10 + d9;
    if check_date(y, m, d) {
        Some(Date { year: y, month: m, day: d })
    } else {
        None
    }
}

/// Decide [`date_valid`] on concrete numbers.
pub fn check_date(y: u32, m: u32, d: u32) -> (r: bool)
    ensures
        r == date_valid(y as int, m as int, d as int),
{
    if y > 9999 || m < 1 || m > 12 || d < 1 {
        return false;
    }
    let dim: u32 = if m == 2 {
        if y % 4 == 0 && (y % 100 != 0 || y % 400 == 0) {
            29
        } else {
            28
        }
    } else if m == 4 || m == 6 || m == 9 || m == 11 {
        30
    } else {
        31
    };
    d <= dim
}

} // verus!
