//! Reading a due date such as `2026-09-10 16:30` as a moment of local time.
use vstd::prelude::*;

use chrono::{Datelike, TimeZone, Timelike};

use crate::calendar::month_abbreviation;
use crate::text::{decimal, zeros, zero_padded};

verus! {

/// A date and time of day with no time zone, as chrono's `NaiveDateTime` holds it.
/// A leap second is a `second` of 59 with a `nanosecond` of a billion or more.
#[derive(Clone, Copy, Debug, PartialEq, Eq)]
pub struct DueTime {
    pub year: i32,
    pub month: u32,
    pub day: u32,
    pub hour: u32,
    pub minute: u32,
    pub second: u32,
    pub nanosecond: u32,
}

/// A leap year of the proleptic Gregorian calendar.
pub open spec fn is_leap_year(year: int) -> bool {
    year % 4 == 0 && (year % 100 != 0 || year % 400 == 0)
}

/// The number of days in a month of the proleptic Gregorian calendar.
pub open spec fn days_in_month(year: int, month: int) -> int {
    if month == 2 {
        if is_leap_year(year) { 29 } else { 28 }
    } else if month == 4 || month == 6 || month == 9 || month == 11 {
        30
    } else {
        31
    }
}

impl DueTime {
    /// The fields name a date and time that chrono can hold: a year in its range,
    /// a real calendar day, a time of day, and at most one leap second.
    pub open spec fn is_valid(self) -> bool {
        &&& -262143 <= self.year <= 262142
        &&& 1 <= self.month <= 12
        &&& 1 <= self.day <= days_in_month(self.year as int, self.month as int)
        &&& self.hour < 24
        &&& self.minute < 60
        &&& self.second < 60
        &&& (self.nanosecond < 1_000_000_000 || (self.second == 59 && self.nanosecond
            < 2_000_000_000))
    }
}

/// What chrono's `NaiveDateTime::parse_from_str(raw, fmt)` reads, if it accepts the text.
pub uninterp spec fn chrono_parse(raw: Seq<char>, fmt: Seq<char>) -> Option<DueTime>;

/// An ASCII digit.
pub open spec fn is_digit(c: char) -> bool {
    '0' <= c && c <= '9'
}

/// The value of an ASCII digit.
pub open spec fn digit_value(c: char) -> int {
    (c as int) - 48
}

/// The value of the digits `s[from..to]`.
pub open spec fn digits_value(s: Seq<char>, from: int, to: int) -> int
    decreases to - from,
{
    if to <= from {
        0
    } else {
        digits_value(s, from, to - 1) * 10 + digit_value(s[to - 1])
    }
}

/// The date and time that a text names in the plain form `YYYY-MM-DD HH:MM`,
/// every field written out in full with leading zeros, when it names a real
/// date and time.
pub open spec fn plain_minute_reading(s: Seq<char>) -> Option<DueTime> {
    if s.len() == 16 && is_digit(s[0]) && is_digit(s[1]) && is_digit(s[2]) && is_digit(s[3])
        && s[4] == '-' && is_digit(s[5]) && is_digit(s[6]) && s[7] == '-' && is_digit(s[8])
        && is_digit(s[9]) && s[10] == ' ' && is_digit(s[11]) && is_digit(s[12]) && s[13] == ':'
        && is_digit(s[14]) && is_digit(s[15]) {
        let t = DueTime {
            year: digits_value(s, 0, 4) as i32,
            month: digits_value(s, 5, 7) as u32,
            day: digits_value(s, 8, 10) as u32,
            hour: digits_value(s, 11, 13) as u32,
            minute: digits_value(s, 14, 16) as u32,
            second: 0,
            nanosecond: 0,
        };
        if t.is_valid() {
            Some(t)
        } else {
            None
        }
    } else {
        None
    }
}

/// `NaiveDateTime::parse_from_str` of chrono, with the parsed value taken apart
/// into its fields. Claimed: the result is a function of the text and the format
/// alone; whatever chrono parses has fields that name a valid date and time
/// (every `NaiveDateTime` has); and with the format `%Y-%m-%d %H:%M` a text in
/// the plain zero-padded form that names a real date and time is read as that
/// date and time at second 0 (as chrono's strftime documentation describes
/// each of these specifiers, and its parser reads up to 4 and 2 digits for them,
/// leaving omitted seconds at 0).
#[verifier::external_body]
fn parse_naive(raw: &str, fmt: &str) -> (r: Option<DueTime>)
    ensures
        r == chrono_parse(raw@, fmt@),
        r matches Some(t) ==> t.is_valid(),
        fmt@ == minute_format() && plain_minute_reading(raw@) is Some ==> r == plain_minute_reading(
            raw@,
        ),
{
    match chrono::NaiveDateTime::parse_from_str(raw, fmt) {
        Ok(n) => Some(
            DueTime {
                year: n.year(),
                month: n.month(),
                day: n.day(),
                hour: n.hour(),
                minute: n.minute(),
                second: n.second(),
                nanosecond: n.nanosecond(),
            },
        ),
        Err(_) => None,
    }
}

/// The number of leap years among the years 1 to `y` (counting back through
/// year 0 and below for `y < 1`, so that differences stay right).
pub open spec fn leap_years_through(y: int) -> int {
    y / 4 - y / 100 + y / 400
}

/// Days from 1970-01-01 to the first of January of year `y`, proleptic Gregorian.
pub open spec fn days_before_year(y: int) -> int {
    365 * (y - 1970) + leap_years_through(y - 1) - leap_years_through(1969)
}

/// Days from the first of January to the first of month `m` of year `y`.
pub open spec fn days_before_month(y: int, m: int) -> int {
    let common: int = if m <= 1 {
        0
    } else if m == 2 {
        31
    } else if m == 3 {
        59
    } else if m == 4 {
        90
    } else if m == 5 {
        120
    } else if m == 6 {
        151
    } else if m == 7 {
        181
    } else if m == 8 {
        212
    } else if m == 9 {
        243
    } else if m == 10 {
        273
    } else if m == 11 {
        304
    } else {
        334
    };
    if m > 2 && is_leap_year(y) {
        common + 1
    } else {
        common
    }
}

/// Days from 1970-01-01 to the date of `t`.
pub open spec fn days_since_epoch(t: DueTime) -> int {
    days_before_year(t.year as int) + days_before_month(t.year as int, t.month as int) + t.day - 1
}

/// The milliseconds from 1970-01-01 00:00 to the date and time `t`, read as if
/// it were UTC. A leap second counts as the second after 59.
pub open spec fn naive_epoch_millis(t: DueTime) -> int {
    let days = days_since_epoch(t);
    days * 86_400_000 + t.hour * 3_600_000 + t.minute * 60_000 + t.second * 1000 + t.nanosecond
        / 1_000_000
}

/// `ms` is the moment of the local date and time `t` in some zone: `t` read as
/// UTC, less an offset of whole seconds that is less than a day either way.
pub open spec fn is_local_moment(t: DueTime, ms: int) -> bool {
    let shift = naive_epoch_millis(t) - ms;
    &&& shift % 1000 == 0
    &&& -86_400_000 < shift < 86_400_000
}

/// `TimeZone::from_local_datetime` of chrono on the machine's `Local` zone,
/// then `single()` and `timestamp_millis()`: the milliseconds since the Unix
/// epoch of the one moment that the local date and time names, or `None` when
/// the local time is skipped or repeated by a change of offset. The value is
/// built with `NaiveDate::from_ymd_opt` and `and_hms_nano_opt`, which accept
/// every valid `DueTime`. Which moment comes out rests on the machine's time
/// zone; claimed is what holds in every zone: chrono takes the offset as a
/// `FixedOffset` (whole seconds, strictly within a day either way) and
/// subtracts it from the local date and time.
#[verifier::external_body]
fn local_millis(t: &DueTime) -> (r: Option<i64>)
    requires
        t.is_valid(),
    ensures
        r matches Some(ms) ==> is_local_moment(*t, ms as int),
{
    let date = chrono::NaiveDate::from_ymd_opt(t.year, t.month, t.day).expect("a valid date");
    let naive = date.and_hms_nano_opt(t.hour, t.minute, t.second, t.nanosecond).expect("a valid time");
    match chrono::Local.from_local_datetime(&naive).single() {
        Some(moment) => Some(moment.timestamp_millis()),
        None => None,
    }
}

/// The English abbreviation of a weekday, counted from Sunday.
pub open spec fn weekday_abbreviation(from_sunday: int) -> Seq<char> {
    if from_sunday == 0 {
        "Sun"@
    } else if from_sunday == 1 {
        "Mon"@
    } else if from_sunday == 2 {
        "Tue"@
    } else if from_sunday == 3 {
        "Wed"@
    } else if from_sunday == 4 {
        "Thu"@
    } else if from_sunday == 5 {
        "Fri"@
    } else {
        "Sat"@
    }
}

/// A year as chrono's `%Y` writes it: four digits with leading zeros for the
/// years 0 to 9999, and otherwise a sign before at least four digits.
pub open spec fn year_text(y: int) -> Seq<char> {
    if 0 <= y <= 9999 {
        zero_padded(y, 4)
    } else if y < 0 {
        seq!['-'] + zeros(4 - decimal((-y) as nat).len()) + decimal((-y) as nat)
    } else {
        seq!['+'] + zeros(4 - decimal(y as nat).len()) + decimal(y as nat)
    }
}

/// A due date as people read it, `%a %-d %b %Y %H:%M`: the weekday (1970-01-01
/// was a Thursday), the day without leading zero, the month, the year, and the
/// time of day in hours and minutes, such as `Sat 1 Aug 2026 14:00`.
pub open spec fn human_due_text(t: DueTime) -> Seq<char> {
    weekday_abbreviation((days_since_epoch(t) + 4) % 7) + " "@ + decimal(t.day as nat) + " "@
        + month_abbreviation(t.month - 1) + " "@ + year_text(t.year as int) + " "@ + zero_padded(
        t.hour as int,
        2,
    ) + ":"@ + zero_padded(t.minute as int, 2)
}

/// chrono's `NaiveDateTime::format(fmt)`, written out to a `String`. The value is
/// built as in `local_millis`. Only the format of the human-readable due date is
/// admitted. Claimed, as chrono's strftime documentation gives each specifier
/// and its formatting code writes them (English names, no locale): the text of
/// `human_due_text`. Writing this format cannot fail.
#[verifier::external_body]
fn format_naive(t: &DueTime, fmt: &str) -> (r: String)
    requires
        t.is_valid(),
        fmt@ == human_due_format(),
    ensures
        r@ == human_due_text(*t),
{
    let date = chrono::NaiveDate::from_ymd_opt(t.year, t.month, t.day).expect("a valid date");
    let naive = date.and_hms_nano_opt(t.hour, t.minute, t.second, t.nanosecond).expect("a valid time");
    naive.format(fmt).to_string()
}

/// The first format tried for a due date: `2026-09-10 16:30`.
pub open spec fn minute_format() -> Seq<char> {
    "%Y-%m-%d %H:%M"@
}

/// The second format tried for a due date: `2026-09-10 16:30:45`.
pub open spec fn second_format() -> Seq<char> {
    "%Y-%m-%d %H:%M:%S"@
}

/// How a due date is shown to people: `Thu 10 Sep 2026 16:30`.
pub open spec fn human_due_format() -> Seq<char> {
    "%a %-d %b %Y %H:%M"@
}

/// The date and time that a due-date text names, in the first format that reads it.
pub open spec fn due_reading(raw: Seq<char>) -> Option<DueTime> {
    match chrono_parse(raw, minute_format()) {
        Some(t) => Some(t),
        None => chrono_parse(raw, second_format()),
    }
}

/// Why a due date was refused; each holds the text that was given.
#[derive(Clone, Debug, PartialEq, Eq)]
pub enum DueError {
    /// Neither due-date format reads the text.
    Unparsable(String),
    /// The local time is skipped or repeated in the machine's time zone.
    NotInLocalTime(String),
}

/// The text of a due-date error message.
pub open spec fn due_error_message(e: DueError) -> Seq<char> {
    match e {
        DueError::Unparsable(raw) => "Could not parse due date: "@ + raw@,
        DueError::NotInLocalTime(raw) => "Due date is ambiguous or invalid in local time: "@ + raw@,
    }
}

impl DueError {
    /// The message shown for this error.
    pub fn message(&self) -> (m: String)
        ensures
            m@ == due_error_message(*self),
    {
        match self {
            DueError::Unparsable(raw) => {
                let mut m = String::from_str("Could not parse due date: ");
                m.append(raw.as_str());
                m
            },
            DueError::NotInLocalTime(raw) => {
                let mut m = String::from_str("Due date is ambiguous or invalid in local time: ");
                m.append(raw.as_str());
                m
            },
        }
    }
}

/// The due date once the local time zone has placed `t`: `millis` is the moment
/// it found, if it found exactly one. The answer is the moment in milliseconds
/// and the date written for people.
pub fn settle_due(raw: &str, t: &DueTime, millis: Option<i64>) -> (res: Result<(i64, String), DueError>)
    requires
        t.is_valid(),
        millis matches Some(ms) ==> is_local_moment(*t, ms as int),
    ensures
        res matches Ok((ms, _)) ==> is_local_moment(*t, ms as int),
        millis matches Some(ms) ==> (res matches Ok((m, human)) && m == ms && human@
            == human_due_text(*t)),
        millis is None ==> (res matches Err(DueError::NotInLocalTime(r)) && r@ == raw@),
{
    match millis {
        Some(ms) => {
            let human = format_naive(t, "%a %-d %b %Y %H:%M");
            Ok((ms, human))
        },
        None => Err(DueError::NotInLocalTime(String::from_str(raw))),
    }
}

/// Reads a due date given as `YYYY-MM-DD HH:MM` (or with seconds) in local time.
/// The answer is the moment in milliseconds since the Unix epoch and the date
/// written for people, such as `Sat 1 Aug 2026 14:00`.
pub fn parse_due(raw: &str) -> (res: Result<(i64, String), DueError>)
    ensures
        plain_minute_reading(raw@) is Some ==> due_reading(raw@) == plain_minute_reading(raw@),
        due_reading(raw@) is None ==> (res matches Err(DueError::Unparsable(r)) && r@ == raw@),
        due_reading(raw@) matches Some(t) ==> {
            ||| res matches Ok((ms, human)) && human@ == human_due_text(t)
                && is_local_moment(t, ms as int)
            ||| res matches Err(DueError::NotInLocalTime(r)) && r@ == raw@
        },
{
    let reading = match parse_naive(raw, "%Y-%m-%d %H:%M") {
        Some(t) => Some(t),
        None => parse_naive(raw, "%Y-%m-%d %H:%M:%S"),
    };
    match reading {
        None => Err(DueError::Unparsable(String::from_str(raw))),
        Some(t) => {
            let millis = local_millis(&t);
            settle_due(raw, &t, millis)
        },
    }
}

} // verus!

