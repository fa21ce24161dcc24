//! Calendar dates: a plain year/month/day value with Gregorian validity,
//! and the ISO `YYYY-MM-DD` text form used by the remote ledger.

use vstd::prelude::*;
use crate::text::{dec_digits, digit_char, push_u64_padded, zero_pad};

verus! {

/// A Gregorian leap year.
pub open spec fn is_leap_year(y: int) -> bool {
    y % 4 == 0 && (y % 100 != 0 || y % 400 == 0)
}

/// The number of days of month `m` of year `y`.
pub open spec fn spec_days_in_month(y: int, m: int) -> int {
    if m == 2 {
        if is_leap_year(y) {
            29
        } else {
            28
        }
    } else if m == 4 || m == 6 || m == 9 || m == 11 {
        30
    } else {
        31
    }
}

/// A calendar date.
#[derive(Clone, Copy, Debug, PartialEq, Eq, Structural)]
pub struct Date {
    pub year: u32,
    pub month: u32,
    pub day: u32,
}

impl Date {
    /// A valid Gregorian date with a four-digit year.
    pub open spec fn wf(self) -> bool {
        &&& self.year <= 9999
        &&& 1 <= self.month <= 12
        &&& 1 <= self.day <= spec_days_in_month(self.year as int, self.month as int)
    }

    /// Builds a date, `None` unless it is a valid Gregorian date with a
    /// four-digit year.
    pub fn new(year: u32, month: u32, day: u32) -> (r: Option<Date>)
        ensures
            r is Some <==> (Date { year, month, day }).wf(),
            r is Some ==> r->0 == (Date { year, month, day }),
    {
        let d = Date { year, month, day };
        if year <= 9999 && 1 <= month && month <= 12 && 1 <= day && day <= days_in_month(
            year,
            month,
        ) {
            Some(d)
        } else {
            None
        }
    }
}

/// The number of days of month `m` of year `y`.
pub fn days_in_month(y: u32, m: u32) -> (r: u32)
    ensures
        r == spec_days_in_month(y as int, m as int),
{
    if m == 2 {
        if y % 4 == 0 && (y % 100 != 0 || y % 400 == 0) {
            29
        } else {
            28
        }
    } else if m == 4 || m == 6 || m == 9 || m == 11 {
        30
    } else {
        31
    }
}

/// The numeric value of a decimal digit character, or none.
pub open spec fn spec_digit_val(c: char) -> Option<int> {
    if '0' <= c && c <= '9' {
        Some(c as int - '0' as int)
    } else {
        None
    }
}

/// Maps a decimal digit character to its value; `None` for anything else.
pub fn digit_val(c: char) -> (r: Option<u32>)
    ensures
        r is Some <==> spec_digit_val(c) is Some,
        r is Some ==> r->0 == spec_digit_val(c)->0 && r->0 <= 9,
{
    match c {
        '0' => Some(0),
        '1' => Some(1),
        '2' => Some(2),
        '3' => Some(3),
        '4' => Some(4),
        '5' => Some(5),
        '6' => Some(6),
        '7' => Some(7),
        '8' => Some(8),
        '9' => Some(9),
        _ => None,
    }
}

/// Whether `s` has the shape `YYYY-MM-DD`: ten characters, digits in the
/// date fields and `'-'` between them.
pub open spec fn is_iso_date_shape(s: Seq<char>) -> bool {
    &&& s.len() == 10
    &&& spec_digit_val(s[0]) is Some
    &&& spec_digit_val(s[1]) is Some
    &&& spec_digit_val(s[2]) is Some
    &&& spec_digit_val(s[3]) is Some
    &&& s[4] == '-'
    &&& spec_digit_val(s[5]) is Some
    &&& spec_digit_val(s[6]) is Some
    &&& s[7] == '-'
    &&& spec_digit_val(s[8]) is Some
    &&& spec_digit_val(s[9]) is Some
}

/// The date denoted by an ISO `YYYY-MM-DD` string, unvalidated.
pub open spec fn iso_date_fields(s: Seq<char>) -> Date
    recommends
        is_iso_date_shape(s),
{
    Date {
        year: (spec_digit_val(s[0])->0 * 1000 + spec_digit_val(s[1])->0 * 100 + spec_digit_val(
            s[2],
        )->0 * 10 + spec_digit_val(s[3])->0) as u32,
        month: (spec_digit_val(s[5])->0 * 10 + spec_digit_val(s[6])->0) as u32,
        day: (spec_digit_val(s[8])->0 * 10 + spec_digit_val(s[9])->0) as u32,
    }
}

/// What `parse_iso_date` accepts: a well-shaped ISO string denoting a valid
/// Gregorian date.
pub open spec fn spec_parse_iso_date(s: Seq<char>) -> Option<Date> {
    if is_iso_date_shape(s) && iso_date_fields(s).wf() {
        Some(iso_date_fields(s))
    } else {
        None
    }
}

/// The error of `parse_iso_date`: the input was not a valid `YYYY-MM-DD`
/// date.
#[derive(Clone, Copy, Debug, PartialEq, Eq, Structural)]
pub enum DateParseError {
    Invalid,
}

/// Parses an ISO `YYYY-MM-DD` date string; anything else, including a
/// well-shaped string that is no valid Gregorian date, is a parse error.
pub fn parse_iso_date(iso_date: &str) -> (r: Result<Date, DateParseError>)
    ensures
        r is Ok <==> spec_parse_iso_date(iso_date@) is Some,
        r is Ok ==> r->Ok_0 == spec_parse_iso_date(iso_date@)->0,
{
    if iso_date.unicode_len() != 10 {
        return Err(DateParseError::Invalid);
    }
    if iso_date.get_char(4) != '-' || iso_date.get_char(7) != '-' {
        return Err(DateParseError::Invalid);
    }
    let d0 = digit_val(iso_date.get_char(0));
    let d1 = digit_val(iso_date.get_char(1));
    let d2 = digit_val(iso_date.get_char(2));
    let d3 = digit_val(iso_date.get_char(3));
    let d5 = digit_val(iso_date.get_char(5));
    let d6 = digit_val(iso_date.get_char(6));
    let d8 = digit_val(iso_date.get_char(8));
    let d9 = digit_val(iso_date.get_char(9));
    match (d0, d1, d2, d3, d5, d6, d8, d9) {
        (
            Some(y0),
            Some(y1),
            Some(y2),
            Some(y3),
            Some(m0),
            Some(m1),
            Some(a0),
            Some(a1),
        ) => {
            let year = y0 * 1000 + y1 * 100 + y2 * 10 + y3;
            let month = m0 * 10 + m1;
            let day = a0 * 10 + a1;
            match Date::new(year, month, day) {
                Some(date) => Ok(date),
                None => Err(DateParseError::Invalid),
            }
        },
        _ => Err(DateParseError::Invalid),
    }
}

/// The ISO `YYYY-MM-DD` text of a date.
pub open spec fn spec_format_iso_date(d: Date) -> Seq<char> {
    zero_pad(dec_digits(d.year as nat), 4) + seq!['-'] + zero_pad(dec_digits(d.month as nat), 2)
        + seq!['-'] + zero_pad(dec_digits(d.day as nat), 2)
}

/// Renders a date as ISO `YYYY-MM-DD`.
pub fn format_iso_date(date: Date) -> (r: String)
    ensures
        r@ == spec_format_iso_date(date),
{
    let mut s = String::new();
    push_u64_padded(&mut s, date.year as u64, 4);
    s.append("-");
    push_u64_padded(&mut s, date.month as u64, 2);
    s.append("-");
    push_u64_padded(&mut s, date.day as u64, 2);
    proof {
        reveal_strlit("-");
        assert(s@ =~= spec_format_iso_date(date));
    }
    s
}

} // verus!
