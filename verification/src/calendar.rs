//! Writing a date picked on a calendar: the month's name and the due-date text.
use vstd::prelude::*;

use crate::text::{push_signed, push_zero_padded, signed_decimal, zero_padded};

verus! {

/// The English abbreviation of month `i + 1`.
pub open spec fn month_abbreviation(i: int) -> Seq<char> {
    if i == 0 {
        "Jan"@
    } else if i == 1 {
        "Feb"@
    } else if i == 2 {
        "Mar"@
    } else if i == 3 {
        "Apr"@
    } else if i == 4 {
        "May"@
    } else if i == 5 {
        "Jun"@
    } else if i == 6 {
        "Jul"@
    } else if i == 7 {
        "Aug"@
    } else if i == 8 {
        "Sep"@
    } else if i == 9 {
        "Oct"@
    } else if i == 10 {
        "Nov"@
    } else {
        "Dec"@
    }
}

/// The month shown for `month`: months below 1 count as January, above 12 as December.
pub open spec fn month_index(month: u32) -> int {
    if month == 0 {
        0
    } else if month > 12 {
        11
    } else {
        month - 1
    }
}

fn abbreviation(i: u32) -> (s: &'static str)
    requires
        i < 12,
    ensures
        s@ == month_abbreviation(i as int),
{
    if i == 0 {
        "Jan"
    } else if i == 1 {
        "Feb"
    } else if i == 2 {
        "Mar"
    } else if i == 3 {
        "Apr"
    } else if i == 4 {
        "May"
    } else if i == 5 {
        "Jun"
    } else if i == 6 {
        "Jul"
    } else if i == 7 {
        "Aug"
    } else if i == 8 {
        "Sep"
    } else if i == 9 {
        "Oct"
    } else if i == 10 {
        "Nov"
    } else {
        "Dec"
    }
}

/// The month and year as shown on the due-date button, such as `Sep 2026`.
pub fn month_name(month: u32, year: i32) -> (s: String)
    ensures
        s@ == month_abbreviation(month_index(month)) + " "@ + signed_decimal(year as int),
{
    let below: u32 = if month == 0 { 0 } else { month - 1 };
    let idx: u32 = if below > 11 { 11 } else { below };
    let mut s = String::from_str(abbreviation(idx));
    s.append(" ");
    push_signed(&mut s, year as i64);
    s
}

/// The due-date text for a day and time picked on the calendar: `YYYY-MM-DD HH:MM`.
pub open spec fn due_input_text(year: i32, month: u32, day: u32, hour: i32, minute: i32) -> Seq<char> {
    zero_padded(year as int, 4) + "-"@ + zero_padded(month as int, 2) + "-"@ + zero_padded(day as int, 2)
        + " "@ + zero_padded(hour as int, 2) + ":"@ + zero_padded(minute as int, 2)
}

/// Writes a picked day and time as a due date, `YYYY-MM-DD HH:MM`.
pub fn due_input(year: i32, month: u32, day: u32, hour: i32, minute: i32) -> (s: String)
    ensures
        s@ == due_input_text(year, month, day, hour, minute),
{
    let mut s = String::new();
    push_zero_padded(&mut s, year as i64, 4);
    s.append("-");
    push_zero_padded(&mut s, month as i64, 2);
    s.append("-");
    push_zero_padded(&mut s, day as i64, 2);
    s.append(" ");
    push_zero_padded(&mut s, hour as i64, 2);
    s.append(":");
    push_zero_padded(&mut s, minute as i64, 2);
    assert(s@ =~= due_input_text(year, month, day, hour, minute));
    s
}

} // verus!
