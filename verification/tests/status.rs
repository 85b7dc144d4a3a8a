use joplin_dictate::status::{capture_failure_message, completion_message};
use joplin_dictate::CreatedNote;

fn note(is_todo: bool, due: Option<&str>) -> CreatedNote {
    CreatedNote {
        id: "abc".to_string(),
        title: "Shopping".to_string(),
        is_todo,
        due_human: due.map(str::to_string),
        body: "milk".to_string(),
    }
}

#[test]
fn completion_names_the_kind_title_and_due_date() {
    assert_eq!(
        completion_message(&Some(note(false, None))),
        "Created Joplin note: abc  |  Title: Shopping"
    );
    assert_eq!(
        completion_message(&Some(note(true, Some("Thu 10 Sep 2026 16:30")))),
        "Created Joplin to-do: abc  |  Title: Shopping  |  Due: Thu 10 Sep 2026 16:30"
    );
    assert_eq!(completion_message(&None), "No speech detected.");
}

#[test]
fn empty_recording_reports_the_recorder_errors() {
    assert_eq!(
        capture_failure_message("  \n"),
        "No audio captured — check microphone is connected and not muted"
    );
    assert_eq!(
        capture_failure_message("\nno such device\n"),
        "arecord error: no such device"
    );
}
