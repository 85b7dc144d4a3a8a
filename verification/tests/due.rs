use joplin_dictate::due::{settle_due, DueError, DueTime};
use joplin_dictate::parse_due;

#[test]
fn parses_iso_due_date() {
    let (_ms, human) = parse_due("2026-08-01 14:00").unwrap();
    assert!(human.contains("2026 14:00"));
}

#[test]
fn due_date_with_seconds_is_read_too() {
    let (ms_minutes, human_minutes) = parse_due("2026-08-01 14:00").unwrap();
    let (ms_seconds, human_seconds) = parse_due("2026-08-01 14:00:30").unwrap();
    assert_eq!(ms_seconds - ms_minutes, 30_000);
    assert_eq!(human_minutes, human_seconds);
}

#[test]
fn human_due_date_names_the_weekday() {
    let (_ms, human) = parse_due("2026-09-10 16:30").unwrap();
    assert_eq!(human, "Thu 10 Sep 2026 16:30");
}

#[test]
fn unreadable_due_date_is_refused() {
    let err = parse_due("next tuesday").unwrap_err();
    assert_eq!(err, DueError::Unparsable("next tuesday".to_string()));
    assert_eq!(err.message(), "Could not parse due date: next tuesday");
    assert!(parse_due("2026-13-01 10:00").is_err());
    assert!(parse_due("2026-02-30 10:00").is_err());
}

#[test]
fn settle_due_reports_a_missing_local_time() {
    let t = DueTime { year: 2026, month: 3, day: 29, hour: 2, minute: 30, second: 0, nanosecond: 0 };
    let err = settle_due("2026-03-29 02:30", &t, None).unwrap_err();
    assert_eq!(err, DueError::NotInLocalTime("2026-03-29 02:30".to_string()));
    assert_eq!(
        err.message(),
        "Due date is ambiguous or invalid in local time: 2026-03-29 02:30"
    );
}

#[test]
fn settle_due_keeps_the_moment_and_writes_the_date() {
    let t = DueTime { year: 2026, month: 8, day: 1, hour: 14, minute: 0, second: 0, nanosecond: 0 };
    let (ms, human) = settle_due("2026-08-01 14:00", &t, Some(42)).unwrap();
    assert_eq!(ms, 42);
    assert_eq!(human, "Sat 1 Aug 2026 14:00");
}

#[test]
fn due_moment_is_the_date_less_a_zone_offset() {
    let naive = chrono::NaiveDateTime::parse_from_str("2026-08-01 14:00", "%Y-%m-%d %H:%M")
        .unwrap()
        .and_utc()
        .timestamp_millis();
    let (ms, _human) = parse_due("2026-08-01 14:00").unwrap();
    let shift = naive - ms;
    assert_eq!(shift % 1000, 0);
    assert!(-86_400_000 < shift && shift < 86_400_000);
}

fn human(year: i32, month: u32, day: u32, hour: u32, minute: u32) -> String {
    let t = DueTime { year, month, day, hour, minute, second: 0, nanosecond: 0 };
    settle_due("x", &t, Some(0)).unwrap().1
}

#[test]
fn human_due_date_pads_and_signs_the_year() {
    assert_eq!(human(5, 1, 1, 9, 5), "Sat 1 Jan 0005 09:05");
    assert_eq!(human(-5, 3, 1, 0, 0), "Wed 1 Mar -0005 00:00");
    assert_eq!(human(12345, 6, 7, 23, 59), "Thu 7 Jun +12345 23:59");
    assert_eq!(human(1969, 12, 31, 12, 30), "Wed 31 Dec 1969 12:30");
    assert_eq!(human(2000, 2, 29, 8, 0), "Tue 29 Feb 2000 08:00");
    assert_eq!(human(9999, 12, 31, 23, 0), "Fri 31 Dec 9999 23:00");
}

#[test]
fn plain_due_text_is_read_as_written() {
    let (ms, text) = parse_due("2026-08-01 14:00").unwrap();
    assert_eq!(text, "Sat 1 Aug 2026 14:00");
    assert_eq!(ms % 1000, 0);
}
