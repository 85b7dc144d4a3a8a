use joplin_dictate::due::DueError;
use joplin_dictate::workflow::{
    advance, check_audio, complete_note, prepare_note, Action, CreateResponse, Event, Stage,
    WorkflowError,
};
use joplin_dictate::joplin::ReadyError;
use joplin_dictate::{parse_due, Config, CreateOptions};
use std::path::PathBuf;

fn config(token: &str) -> Config {
    Config {
        whisper_dir: PathBuf::from("/w"),
        whisper_model: PathBuf::from("/w/models/ggml-base.en.bin"),
        whisper_bin: PathBuf::from("/w/build/bin/whisper-cli"),
        joplin_host: "http://127.0.0.1:41184".to_string(),
        joplin_token: token.to_string(),
    }
}

fn options() -> CreateOptions {
    CreateOptions { parent_id: None, title: None, is_todo: false, due: None, audio_file: None }
}

#[test]
fn empty_recording_is_refused() {
    assert_eq!(check_audio(0), Err(WorkflowError::NoAudio));
    assert_eq!(check_audio(44), Ok(()));
}

#[test]
fn silence_makes_no_note() {
    assert!(prepare_note(&options(), " [BLANK_AUDIO] \n").unwrap().is_none());
    // The due date is not even read when there is no speech.
    let mut o = options();
    o.due = Some("garbage".to_string());
    assert!(prepare_note(&o, "[Music]").unwrap().is_none());
}

#[test]
fn title_comes_from_first_line() {
    let p = prepare_note(&options(), "[noise] Call the plumber\r\nabout the sink").unwrap().unwrap();
    assert_eq!(p.payload.title, "Call the plumber");
    assert_eq!(p.payload.body, "Call the plumber\r\nabout the sink");
    assert_eq!(p.payload.is_todo, 0);
    assert_eq!(p.payload.parent_id, None);
    assert_eq!(p.payload.todo_due, None);
    assert_eq!(p.due_human, None);
}

#[test]
fn long_first_line_is_cut_to_80_characters() {
    let line: String = "é".repeat(100);
    let p = prepare_note(&options(), &line).unwrap().unwrap();
    assert_eq!(p.payload.title.chars().count(), 80);
    assert_eq!(p.payload.body, line);
}

#[test]
fn custom_title_wins_unless_blank() {
    let mut o = options();
    o.title = Some(" Meeting notes ".to_string());
    o.parent_id = Some("abc".to_string());
    let p = prepare_note(&o, "We agreed").unwrap().unwrap();
    assert_eq!(p.payload.title, " Meeting notes ");
    assert_eq!(p.payload.parent_id, Some("abc".to_string()));
    o.title = Some("   ".to_string());
    o.parent_id = Some(String::new());
    let p = prepare_note(&o, "We agreed").unwrap().unwrap();
    assert_eq!(p.payload.title, "We agreed");
    assert_eq!(p.payload.parent_id, None);
}

#[test]
fn due_date_makes_a_todo_with_a_due_line() {
    let mut o = options();
    o.due = Some("2026-09-15 09:00".to_string());
    let (ms, human) = parse_due("2026-09-15 09:00").unwrap();
    let p = prepare_note(&o, "Submit report").unwrap().unwrap();
    assert_eq!(p.payload.is_todo, 1);
    assert_eq!(p.payload.todo_due, Some(ms));
    assert_eq!(p.payload.body, format!("Due: {human}\n\nSubmit report"));
    assert_eq!(p.due_human, Some(human));
}

#[test]
fn blank_due_date_is_ignored_and_bad_one_refused() {
    let mut o = options();
    o.due = Some("  ".to_string());
    o.is_todo = true;
    let p = prepare_note(&o, "Water plants").unwrap().unwrap();
    assert_eq!(p.payload.is_todo, 1);
    assert_eq!(p.payload.todo_due, None);
    o.due = Some("tomorrow".to_string());
    assert_eq!(
        prepare_note(&o, "Water plants").unwrap_err(),
        WorkflowError::Due(DueError::Unparsable("tomorrow".to_string()))
    );
}

#[test]
fn created_note_takes_id_and_title_from_joplin() {
    let p = prepare_note(&options(), "Remember the keys").unwrap().unwrap();
    let missing = CreateResponse { id: None, title: Some("x".to_string()) };
    assert_eq!(complete_note(p.clone(), missing), Err(WorkflowError::MissingNoteId));
    let answer = CreateResponse { id: Some("n1".to_string()), title: None };
    let c = complete_note(p.clone(), answer).unwrap();
    assert_eq!(c.id, "n1");
    assert_eq!(c.title, "Remember the keys");
    assert!(!c.is_todo);
    assert_eq!(c.body, "Remember the keys");
    let renamed = CreateResponse { id: Some("n2".to_string()), title: Some("Keys".to_string()) };
    assert_eq!(complete_note(p, renamed).unwrap().title, "Keys");
}

#[test]
fn dictation_steps_from_audio_to_note() {
    let o = options();
    let (stage, action) = advance(&config("tok"), &o, Stage::AwaitingAudio, Event::AudioCaptured(1024));
    assert!(matches!(stage, Stage::AwaitingTranscript));
    assert!(matches!(action, Action::Transcribe));
    let (stage, action) = advance(&config("tok"), &o, stage, Event::TranscriptRead("Hello there".to_string()));
    match &action {
        Action::CreateNote(payload) => assert_eq!(payload.title, "Hello there"),
        other => panic!("unexpected {other:?}"),
    }
    let (stage, action) = advance(
        &config("tok"),
        &o,
        stage,
        Event::NoteCreated(CreateResponse { id: Some("id9".to_string()), title: None }),
    );
    assert!(matches!(stage, Stage::Finished));
    match action {
        Action::Complete(Some(note)) => {
            assert_eq!(note.id, "id9");
            assert_eq!(note.title, "Hello there");
        }
        other => panic!("unexpected {other:?}"),
    }
}

#[test]
fn dictation_stops_on_empty_audio_or_silence() {
    let o = options();
    let (stage, action) = advance(&config("tok"), &o, Stage::AwaitingAudio, Event::AudioCaptured(0));
    assert!(matches!(stage, Stage::Finished));
    assert!(matches!(action, Action::Fail(WorkflowError::NoAudio)));
    let (stage, action) =
        advance(&config("tok"), &o, Stage::AwaitingTranscript, Event::TranscriptRead("[Silence]".to_string()));
    assert!(matches!(stage, Stage::Finished));
    assert!(matches!(action, Action::Complete(None)));
}

#[test]
fn dictation_starts_with_readiness_and_ping() {
    let o = options();
    let probed = Event::Probed { joplin_installed: true, whisper_bin_exists: true, whisper_model_exists: true };
    let (stage, action) = advance(&config("tok"), &o, Stage::Start, probed.clone());
    assert!(matches!(stage, Stage::AwaitingPing));
    assert!(matches!(action, Action::Ping));
    let (stage, action) =
        advance(&config("tok"), &o, stage, Event::PingReply("{\"JoplinClipperServer\"}".to_string()));
    assert!(matches!(stage, Stage::AwaitingAudio));
    assert!(matches!(action, Action::CaptureAudio));

    let (stage, action) = advance(&config(" "), &o, Stage::Start, probed);
    assert!(matches!(stage, Stage::Finished));
    match action {
        Action::Fail(e) => assert_eq!(e, WorkflowError::Ready(ReadyError::TokenMissing)),
        other => panic!("unexpected {other:?}"),
    }
    let (_, action) =
        advance(&config("tok"), &o, Stage::AwaitingPing, Event::PingReply("nginx".to_string()));
    match action {
        Action::Fail(e) => assert_eq!(
            e.message("/b", "/m"),
            "Unexpected Joplin Web Clipper ping response: nginx"
        ),
        other => panic!("unexpected {other:?}"),
    }
}

#[test]
fn workflow_error_messages() {
    assert_eq!(WorkflowError::NoAudio.message("/b", "/m"), "No audio captured");
    assert_eq!(
        WorkflowError::MissingNoteId.message("/b", "/m"),
        "Joplin response did not include note ID"
    );
    assert_eq!(
        WorkflowError::Due(DueError::Unparsable("soon".to_string())).message("/b", "/m"),
        "Could not parse due date: soon"
    );
    assert_eq!(
        WorkflowError::Ready(ReadyError::WhisperModelMissing).message("/b", "/m/x.bin"),
        "Whisper model not found: /m/x.bin"
    );
}
