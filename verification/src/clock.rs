use chrono::Local;
use vstd::prelude::*;

verus! {

pub open spec fn is_digit(c: char) -> bool {
    '0' <= c && c <= '9'
}

/// Text of the form that the `chrono` format `%Y%m%d %H:%M:%S` gives: a
/// year of four digits, or a sign followed by at least four digits; then
/// two digits each of month and day, a space, and two digits each of hour,
/// minute and second separated by colons.
pub open spec fn is_clock_text(s: Seq<char>) -> bool {
    let y = s.len() - 13;
    &&& s.len() >= 17
    &&& if s[0] == '+' || s[0] == '-' {
        y >= 5
    } else {
        y == 4 && is_digit(s[0])
    }
    &&& forall|i: int| 1 <= i < y ==> is_digit(#[trigger] s[i])
    &&& is_digit(s[y]) && is_digit(s[y + 1]) && is_digit(s[y + 2]) && is_digit(s[y + 3])
    &&& s[y + 4] == ' '
    &&& is_digit(s[y + 5]) && is_digit(s[y + 6])
    &&& s[y + 7] == ':'
    &&& is_digit(s[y + 8]) && is_digit(s[y + 9])
    &&& s[y + 10] == ':'
    &&& is_digit(s[y + 11]) && is_digit(s[y + 12])
}

/// The local wall-clock time as `chrono` writes it with the format
/// `%Y%m%d %H:%M:%S` (`Local::now().format(..).to_string()`). The time
/// itself depends on the clock and the machine's time zone; only the form
/// of the text, which chrono's documentation of the format fixes, is
/// claimed.
#[verifier::external_body]
pub(crate) fn local_timestamp() -> (s: String)
    ensures
        is_clock_text(s@),
{
    Local::now().format("%Y%m%d %H:%M:%S").to_string()
}

} // verus!
