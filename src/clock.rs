//! Dates, through chrono: reading the year and month of an RFC 3339
//! timestamp, and the current time.

use vstd::prelude::*;

verus! {

/// Whether chrono accepts `s` as an RFC 3339 date and time.
pub uninterp spec fn rfc3339_accepts(s: Seq<char>) -> bool;

pub open spec fn is_digit(c: char) -> bool {
    '0' <= c && c <= '9'
}

pub open spec fn digit_value(c: char) -> int {
    (c as u32) as int - ('0' as u32) as int
}

/// The text starts with a date: four digits, a dash, two digits.
pub open spec fn has_date_prefix(s: Seq<char>) -> bool {
    &&& s.len() >= 7
    &&& is_digit(s[0]) && is_digit(s[1]) && is_digit(s[2]) && is_digit(s[3])
    &&& s[4] == '-'
    &&& is_digit(s[5]) && is_digit(s[6])
}

/// The year written in the first four characters.
pub open spec fn written_year(s: Seq<char>) -> int {
    1000 * digit_value(s[0]) + 100 * digit_value(s[1]) + 10 * digit_value(s[2]) + digit_value(s[3])
}

/// The month written in the sixth and seventh characters.
pub open spec fn written_month(s: Seq<char>) -> int {
    10 * digit_value(s[5]) + digit_value(s[6])
}

/// Relies on chrono's `DateTime::parse_from_rfc3339`, read through `Datelike::year`
/// and `Datelike::month`: the text is accepted or not as a function of itself, and
/// an accepted text starts with its date as written (four year digits, a dash, a
/// month of two digits between 1 and 12), which is the date the result reports.
#[verifier::external_body]
pub(crate) fn parse_year_month(timestamp: &str) -> (r: Option<(i32, u32)>)
    ensures
        r is Some <==> rfc3339_accepts(timestamp@),
        r matches Some((y, m)) ==> {
            &&& has_date_prefix(timestamp@)
            &&& y == written_year(timestamp@)
            &&& m == written_month(timestamp@)
            &&& 1 <= m <= 12
        },
{
    match chrono::DateTime::parse_from_rfc3339(timestamp) {
        Ok(t) => Some((chrono::Datelike::year(&t), chrono::Datelike::month(&t))),
        Err(_) => None,
    }
}

/// Relies on chrono's `Utc::now` and `DateTime::to_rfc3339`: the current time as
/// RFC 3339 text. Nothing is promised of the value.
#[verifier::external_body]
pub(crate) fn now_rfc3339() -> (r: String) {
    chrono::Utc::now().to_rfc3339()
}

} // verus!
