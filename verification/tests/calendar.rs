use joplin_dictate::calendar::{due_input, month_name};

#[test]
fn month_names_are_clamped() {
    assert_eq!(month_name(9, 2026), "Sep 2026");
    assert_eq!(month_name(1, 2026), "Jan 2026");
    assert_eq!(month_name(0, 2026), "Jan 2026");
    assert_eq!(month_name(12, -44), "Dec -44");
    assert_eq!(month_name(40, 7), "Dec 7");
}

#[test]
fn due_input_is_zero_padded() {
    assert_eq!(due_input(2026, 8, 1, 9, 5), "2026-08-01 09:05");
    assert_eq!(due_input(2026, 12, 31, 23, 59), "2026-12-31 23:59");
    assert_eq!(due_input(-5, 1, 2, 3, 4), "-005-01-02 03:04");
    assert_eq!(due_input(12345, 1, 2, -3, 4), "12345-01-02 -3:04");
    assert_eq!(due_input(2026, 8, 1, 9, 5), format!("{:04}-{:02}-{:02} {:02}:{:02}", 2026, 8, 1, 9, 5));
}
