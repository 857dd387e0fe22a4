//! Calendar dates as plain values, and `chrono`'s `%y%m%d` parsing.
use vstd::prelude::*;

verus! {

/// A calendar date (proleptic Gregorian).
#[derive(Debug, Clone, Copy, PartialEq, Eq, Structural)]
pub struct ExpirationDate {
    pub year: i32,
    pub month: u32,
    pub day: u32,
}

/// `c` is one of `'0'..='9'`.
pub open spec fn is_digit(c: char) -> bool {
    '0' <= c <= '9'
}

/// The value of a decimal digit.
pub open spec fn digit_value(c: char) -> int {
    (c as u32) - ('0' as u32)
}

/// Gregorian leap years.
pub open spec fn is_leap_year(y: int) -> bool {
    (y % 4 == 0 && y % 100 != 0) || y % 400 == 0
}

/// The number of days in month `m` of year `y`.
pub open spec fn days_in_month(y: int, m: int) -> int {
    if m == 2 {
        if is_leap_year(y) {
            29
        } else {
            28
        }
    } else if m == 4 || m == 6 || m == 9 || m == 11 {
        30
    } else {
        31
    }
}

/// The date written by six digits `yymmdd`, two-digit years below 70 falling in
/// the 2000s and the others in the 1900s; `None` where month or day is out of
/// range.
pub open spec fn date_of_yymmdd(s: Seq<char>) -> Option<ExpirationDate> {
    let yy = digit_value(s[0]) * 10 + digit_value(s[1]);
    let mm = digit_value(s[2]) * 10 + digit_value(s[3]);
    let dd = digit_value(s[4]) * 10 + digit_value(s[5]);
    let year = if yy < 70 {
        2000 + yy
    } else {
        1900 + yy
    };
    if 1 <= mm <= 12 && 1 <= dd <= days_in_month(year, mm) {
        Some(ExpirationDate { year: year as i32, month: mm as u32, day: dd as u32 })
    } else {
        None
    }
}

/// Six ASCII digits.
pub open spec fn is_six_digits(s: Seq<char>) -> bool {
    s.len() == 6 && forall|i: int| 0 <= i < 6 ==> is_digit(#[trigger] s[i])
}

/// What `chrono::NaiveDate::parse_from_str(s, "%y%m%d")` gives for a string.
pub uninterp spec fn naive_date_from_yymmdd(s: Seq<char>) -> Option<ExpirationDate>;

/// What reading a `yymmdd` date gives: the stated date for six ASCII digits,
/// `chrono`'s result, as named, for any other text.
pub open spec fn yymmdd_date(s: Seq<char>) -> Option<ExpirationDate> {
    if is_six_digits(s) {
        date_of_yymmdd(s)
    } else {
        naive_date_from_yymmdd(s)
    }
}

/// `chrono::NaiveDate::parse_from_str` with the format `"%y%m%d"`. Its result
/// is named by `naive_date_from_yymmdd`; for six ASCII digits the contract
/// states it: chrono reads two digits for each field, takes a two-digit year
/// below 70 as 20xx and the others as 19xx, and rejects a month or a day out of
/// range. For other strings (chrono skips leading whitespace before each field
/// and reads one or two digits) the result is left to the name.
#[verifier::external_body]
pub fn parse_yymmdd(s: &Vec<char>) -> (r: Option<ExpirationDate>)
    ensures
        r == naive_date_from_yymmdd(s@),
        is_six_digits(s@) ==> r == date_of_yymmdd(s@),
{
    let text: String = s.iter().collect();
    match chrono::NaiveDate::parse_from_str(&text, "%y%m%d") {
        Ok(d) => Some(
            ExpirationDate {
                year: chrono::Datelike::year(&d),
                month: chrono::Datelike::month(&d),
                day: chrono::Datelike::day(&d),
            },
        ),
        Err(_) => None,
    }
}

} // verus!
