//! The time of day.

use crate::text;
use vstd::prelude::*;

verus! {

/// A decimal digit.
pub open spec fn digit(c: char) -> bool {
    '0' <= c <= '9'
}

/// A UTC time in ISO 8601 form, to the second, such as
/// `2026-06-18T10:00:00Z`. A year beyond four digits has a `+` before it.
pub open spec fn utc_time(text: Seq<char>) -> bool {
    let n = text.len() as int;
    &&& n >= 20
    &&& text[n - 16] == '-'
    &&& text[n - 13] == '-'
    &&& text[n - 10] == 'T'
    &&& text[n - 7] == ':'
    &&& text[n - 4] == ':'
    &&& text[n - 1] == 'Z'
    &&& forall|i: int|
        0 <= i < n && i != n - 16 && i != n - 13 && i != n - 10 && i != n - 7 && i != n - 4 && i
            != n - 1 ==> digit(#[trigger] text[i]) || (i == 0 && n > 20 && text[i] == '+')
}

/// The current UTC time in ISO 8601 form, to the second.
///
/// Calls `chrono::Utc::now` and formats the result: the year in four digits
/// or, with a sign, in more; the rest of the date and the time in two digits
/// each. Which time it is, is not stated. `Utc::now` panics where the system
/// clock stands before 1970, which no argument of this function decides.
#[verifier::external_body]
fn utc_now() -> (text: String)
    ensures
        utc_time(text@),
{
    chrono::Utc::now().format("%Y-%m-%dT%H:%M:%SZ").to_string()
}

/// Generate an ISO 8601 UTC timestamp string.
pub fn format_timestamp() -> (timestamp: String)
    ensures
        utc_time(timestamp@),
{
    utc_now()
}

/// A UTC time stands on one line.
pub proof fn utc_times_are_one_line(text: Seq<char>)
    requires
        utc_time(text),
    ensures
        text::unbroken(text),
{
}

} // verus!
