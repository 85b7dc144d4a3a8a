//! The decisions of a dictation: from recorded audio and its transcript to the
//! note that is sent to Joplin, and from Joplin's answer to the created note.
//! The recording, the transcription and the HTTP calls are made by the caller,
//! which feeds each result back in as an event.
use vstd::prelude::*;

use std::path::PathBuf;

use crate::due::{
    due_error_message, due_reading, human_due_text, is_local_moment, parse_due,
    DueError,
};
use crate::joplin::{check_ping_reply, clipper_signature, readiness, ready_error_text, Config, ReadyError};
use crate::text::contains;
use crate::text::{blank, chars_of, is_blank, is_white, lemma_trim_shape};
use crate::transcript::{
    derived_title, filter_transcript, filtered, lemma_derived_title_not_blank,
    lemma_title_is_one_line, title_from_transcript,
};

verus! {

/// What the user asked for.
#[derive(Debug, Clone)]
pub struct CreateOptions {
    /// The notebook to file the note in; empty means Joplin's default.
    pub parent_id: Option<String>,
    /// A title to use in place of the transcript's first line.
    pub title: Option<String>,
    /// Create a to-do rather than a note.
    pub is_todo: bool,
    /// A due date, `YYYY-MM-DD HH:MM`.
    pub due: Option<String>,
    /// A recording to use in place of the microphone.
    pub audio_file: Option<PathBuf>,
}

/// The note as it is sent to the Web Clipper (`POST /notes`).
#[derive(Debug, Clone, PartialEq, Eq)]
pub struct NotePayload {
    pub title: String,
    pub body: String,
    /// 1 for a to-do, 0 for a note.
    pub is_todo: i32,
    pub parent_id: Option<String>,
    /// The due moment in milliseconds since the Unix epoch.
    pub todo_due: Option<i64>,
}

/// A note ready to be sent, with the due date as it was shown in the body.
#[derive(Debug, Clone)]
pub struct PreparedNote {
    pub payload: NotePayload,
    pub due_human: Option<String>,
}

/// What the Web Clipper answers to `POST /notes`.
#[derive(Debug, Clone, PartialEq, Eq)]
pub struct CreateResponse {
    pub id: Option<String>,
    pub title: Option<String>,
}

/// The note that Joplin created.
#[derive(Debug, Clone, PartialEq, Eq)]
pub struct CreatedNote {
    pub id: String,
    pub title: String,
    pub is_todo: bool,
    pub due_human: Option<String>,
    pub body: String,
}

/// Why a dictation produced no note.
#[derive(Debug, Clone, PartialEq, Eq)]
pub enum WorkflowError {
    /// The recording is empty.
    NoAudio,
    /// The due date was refused.
    Due(DueError),
    /// Joplin's answer did not name the new note.
    MissingNoteId,
    /// The tools are not ready.
    Ready(ReadyError),
}

/// The message shown for a dictation error; `whisper_bin` and `whisper_model`
/// are the configured paths as displayed.
pub open spec fn workflow_error_text(
    e: WorkflowError,
    whisper_bin: Seq<char>,
    whisper_model: Seq<char>,
) -> Seq<char> {
    match e {
        WorkflowError::NoAudio => "No audio captured"@,
        WorkflowError::Due(d) => due_error_message(d),
        WorkflowError::MissingNoteId => "Joplin response did not include note ID"@,
        WorkflowError::Ready(r) => ready_error_text(r, whisper_bin, whisper_model),
    }
}

impl WorkflowError {
    /// The message shown for this error.
    pub fn message(&self, whisper_bin: &str, whisper_model: &str) -> (m: String)
        ensures
            m@ == workflow_error_text(*self, whisper_bin@, whisper_model@),
    {
        match self {
            WorkflowError::NoAudio => String::from_str("No audio captured"),
            WorkflowError::Due(d) => d.message(),
            WorkflowError::MissingNoteId => String::from_str("Joplin response did not include note ID"),
            WorkflowError::Ready(r) => r.message(whisper_bin, whisper_model),
        }
    }
}

// ---------------------------------------------------------------------------
// Models
// ---------------------------------------------------------------------------

/// The title of the note: the user's title unless it is blank, else the
/// transcript's first line.
pub open spec fn chosen_title(custom: Option<String>, text: Seq<char>) -> Seq<char> {
    match custom {
        Some(t) => if is_blank(t@) {
            derived_title(text)
        } else {
            t@
        },
        None => derived_title(text),
    }
}

/// The body of the note: the transcript, after a `Due:` line when there is a due date.
pub open spec fn note_body(text: Seq<char>, due_human: Option<Seq<char>>) -> Seq<char> {
    match due_human {
        Some(h) => "Due: "@ + h + "\n\n"@ + text,
        None => text,
    }
}

/// The due-date text the user gave, unless it is blank.
pub open spec fn requested_due(options: CreateOptions) -> Option<Seq<char>> {
    match options.due {
        Some(d) => if is_blank(d@) {
            None
        } else {
            Some(d@)
        },
        None => None,
    }
}

/// The notebook the user chose, unless the choice is empty.
pub open spec fn requested_parent(options: CreateOptions) -> Option<Seq<char>> {
    match options.parent_id {
        Some(p) => if p@.len() == 0 {
            None
        } else {
            Some(p@)
        },
        None => None,
    }
}

/// `p` is the note made of transcript `text`, with `due` the due moment and its
/// human-readable form, if any.
pub open spec fn is_note_for(
    p: PreparedNote,
    options: CreateOptions,
    text: Seq<char>,
    due: Option<(i64, Seq<char>)>,
) -> bool {
    let human = match due {
        Some(d) => Some(d.1),
        None => None,
    };
    &&& p.payload.title@ == chosen_title(options.title, text)
    &&& p.payload.body@ == note_body(text, human)
    &&& p.payload.is_todo == (if options.is_todo || due is Some { 1i32 } else { 0i32 })
    &&& p.payload.parent_id.deep_view() == requested_parent(options)
    &&& p.payload.todo_due == (match due {
        Some(d) => Some(d.0),
        None => None,
    })
    &&& p.due_human.deep_view() == human
}

/// The created note, from the note that was sent and Joplin's answer.
pub open spec fn is_created_from(c: CreatedNote, p: PreparedNote, r: CreateResponse) -> bool {
    &&& r.id matches Some(id) && c.id@ == id@
    &&& c.title@ == (match r.title {
        Some(t) => t@,
        None => p.payload.title@,
    })
    &&& c.is_todo == (p.payload.is_todo == 1)
    &&& c.due_human.deep_view() == p.due_human.deep_view()
    &&& c.body@ == p.payload.body@
}

// ---------------------------------------------------------------------------
// Decisions
// ---------------------------------------------------------------------------

/// A recording of `size` bytes can be transcribed only if it is not empty.
pub fn check_audio(size: u64) -> (res: Result<(), WorkflowError>)
    ensures
        size == 0 ==> res == Err::<(), WorkflowError>(WorkflowError::NoAudio),
        size > 0 ==> res is Ok,
{
    if size == 0 {
        Err(WorkflowError::NoAudio)
    } else {
        Ok(())
    }
}

/// Keeps a notebook choice only if it is not empty.
fn chosen_parent(parent: &Option<String>) -> (r: Option<String>)
    ensures
        r.deep_view() == (match parent {
            Some(p) => if p@.len() == 0 {
                None
            } else {
                Some(p@)
            },
            None => None,
        }),
{
    match parent {
        Some(p) => if p.as_str().is_empty() {
            None
        } else {
            Some(p.clone())
        },
        None => None,
    }
}

/// The note for a cleaned transcript `text` and the due date as it was read
/// (the moment in milliseconds and its human-readable form).
pub fn assemble_note(options: &CreateOptions, text: &str, due: Option<(i64, String)>) -> (p:
    PreparedNote)
    requires
        text@.len() > 0,
        !is_white(text@[0]),
    ensures
        is_note_for(
            p,
            *options,
            text@,
            match due {
                Some(d) => Some((d.0, d.1@)),
                None => None,
            },
        ),
        !is_blank(p.payload.title@),
{
    let title = match &options.title {
        Some(t) => if blank(t.as_str()) {
            title_from_transcript(&chars_of(text))
        } else {
            t.clone()
        },
        None => title_from_transcript(&chars_of(text)),
    };
    proof {
        lemma_derived_title_not_blank(text@);
    }
    let is_todo: i32 = if options.is_todo || due.is_some() { 1 } else { 0 };
    let parent_id = chosen_parent(&options.parent_id);
    match due {
        Some((ms, human)) => {
            let mut body = String::from_str("Due: ");
            body.append(human.as_str());
            body.append("\n\n");
            body.append(text);
            PreparedNote {
                payload: NotePayload { title, body, is_todo, parent_id, todo_due: Some(ms) },
                due_human: Some(human),
            }
        },
        None => {
            let body = String::from_str(text);
            PreparedNote {
                payload: NotePayload { title, body, is_todo, parent_id, todo_due: None },
                due_human: None,
            }
        },
    }
}

/// What may come of preparing the note for transcript `raw`: nothing when no
/// speech is left, the note when no due date is asked for, and otherwise the
/// note or the due-date error, as the due date reads in local time.
pub open spec fn prepare_outcome(
    options: CreateOptions,
    raw: Seq<char>,
    res: Result<Option<PreparedNote>, WorkflowError>,
) -> bool {
    &&& (filtered(raw).len() == 0 ==> res == Ok::<Option<PreparedNote>, WorkflowError>(None))
    &&& (filtered(raw).len() > 0 && requested_due(options) is None ==> (res matches Ok(Some(p))
            && is_note_for(p, options, filtered(raw), None)))
    &&& (filtered(raw).len() > 0 && requested_due(options) is Some ==> {
            let d = requested_due(options).unwrap();
            &&& due_reading(d) is None ==> (res matches Err(WorkflowError::Due(DueError::Unparsable(r)))
                && r@ == d)
            &&& due_reading(d) is Some ==> {
                let human = human_due_text(due_reading(d).unwrap());
                ||| (res matches Ok(Some(p)) && p.due_human.deep_view() == Some(human)
                    && p.payload.todo_due is Some && is_local_moment(
                    due_reading(d).unwrap(),
                    p.payload.todo_due.unwrap() as int,
                ) && is_note_for(
                    p,
                    options,
                    filtered(raw),
                    Some((p.payload.todo_due.unwrap(), human)),
                ))
                ||| (res matches Err(WorkflowError::Due(DueError::NotInLocalTime(r))) && r@ == d)
            }
        })
    &&& (res matches Ok(Some(p)) ==> !is_blank(p.payload.title@))
}

/// The note to send for the transcript `raw`, or `None` when no speech is left
/// once the noise markers are gone. A due date is read only when there is speech.
pub fn prepare_note(options: &CreateOptions, raw: &str) -> (res: Result<
    Option<PreparedNote>,
    WorkflowError,
>)
    ensures
        prepare_outcome(*options, raw@, res),
{
    let text = filter_transcript(raw);
    if text.as_str().is_empty() {
        return Ok(None);
    }
    proof {
        lemma_trim_shape(crate::transcript::strip_markers(raw@, crate::transcript::noise_markers()));
    }
    let due = match &options.due {
        Some(d) => if blank(d.as_str()) {
            None
        } else {
            match parse_due(d.as_str()) {
                Ok(reading) => Some(reading),
                Err(e) => {
                    return Err(WorkflowError::Due(e));
                },
            }
        },
        None => None,
    };
    let p = assemble_note(options, text.as_str(), due);
    Ok(Some(p))
}

/// What comes of Joplin's answer `r` to the note `p`: the created note, or an
/// error when the answer has no id.
pub open spec fn complete_outcome(
    p: PreparedNote,
    r: CreateResponse,
    res: Result<CreatedNote, WorkflowError>,
) -> bool {
    &&& (r.id is None ==> res == Err::<CreatedNote, WorkflowError>(WorkflowError::MissingNoteId))
    &&& (r.id is Some ==> (res matches Ok(c) && is_created_from(c, p, r)))
}

/// The created note, from the note that was sent and Joplin's answer; an answer
/// without an id is refused.
pub fn complete_note(prepared: PreparedNote, response: CreateResponse) -> (res: Result<
    CreatedNote,
    WorkflowError,
>)
    ensures
        complete_outcome(prepared, response, res),
{
    match response.id {
        None => Err(WorkflowError::MissingNoteId),
        Some(id) => {
            let title = match response.title {
                Some(t) => t,
                None => prepared.payload.title,
            };
            Ok(
                CreatedNote {
                    id,
                    title,
                    is_todo: prepared.payload.is_todo == 1,
                    due_human: prepared.due_human,
                    body: prepared.payload.body,
                },
            )
        },
    }
}

/// What a note built from transcript `text` holds: the user's title when it is
/// not blank, else a one-line beginning of the transcript of at most 80
/// characters; the transcript as body, after a `Due: ` line when there is a
/// due date; a to-do flag set exactly when a to-do or a due date was asked;
/// the due moment; and the notebook only when one was named.
pub proof fn lemma_note_contents(
    p: PreparedNote,
    options: CreateOptions,
    text: Seq<char>,
    due: Option<(i64, Seq<char>)>,
)
    requires
        is_note_for(p, options, text, due),
    ensures
        options.title is Some && !is_blank(options.title.unwrap()@) ==> p.payload.title@
            == options.title.unwrap()@,
        !(options.title is Some && !is_blank(options.title.unwrap()@)) ==> {
            &&& p.payload.title@.len() <= 80
            &&& p.payload.title@ == text.take(p.payload.title@.len() as int)
            &&& forall|i: int|
                0 <= i < p.payload.title@.len() ==> #[trigger] p.payload.title@[i] != '\n'
        },
        due is None ==> p.payload.body@ == text && p.payload.todo_due is None,
        due matches Some(d) ==> {
            &&& p.payload.body@.take(d.1.len() + 7int) == "Due: "@ + d.1 + "\n\n"@
            &&& p.payload.body@.skip(d.1.len() + 7int) == text
            &&& p.payload.todo_due == Some(d.0)
        },
        (p.payload.is_todo == 1) == (options.is_todo || due is Some),
        p.payload.is_todo == 0 || p.payload.is_todo == 1,
        options.parent_id is Some && options.parent_id.unwrap()@.len() > 0
            ==> p.payload.parent_id.deep_view() == Some(options.parent_id.unwrap()@),
        !(options.parent_id is Some && options.parent_id.unwrap()@.len() > 0)
            ==> p.payload.parent_id is None,
{
    lemma_title_is_one_line(text);
    reveal_strlit("Due: ");
    reveal_strlit("\n\n");
    match due {
        Some(d) => {
            let b = "Due: "@ + d.1 + "\n\n"@ + text;
            assert(b.take(d.1.len() + 7int) =~= "Due: "@ + d.1 + "\n\n"@);
            assert(b.skip(d.1.len() + 7int) =~= text);
        },
        None => {},
    }
}

/// A note that Joplin created from a prepared note is a to-do exactly when the
/// user asked for a to-do or gave a due date, and it carries the body and the
/// due date that were sent.
pub proof fn lemma_created_note_keeps_request(
    options: CreateOptions,
    text: Seq<char>,
    due: Option<(i64, Seq<char>)>,
    p: PreparedNote,
    r: CreateResponse,
    c: CreatedNote,
)
    requires
        is_note_for(p, options, text, due),
        is_created_from(c, p, r),
    ensures
        c.is_todo == (options.is_todo || due is Some),
        c.body@ == note_body(text, match due {
            Some(d) => Some(d.1),
            None => None,
        }),
        c.due_human.deep_view() == (match due {
            Some(d) => Some(d.1),
            None => None,
        }),
        r.title is None ==> c.title@ == chosen_title(options.title, text),
{
}

// ---------------------------------------------------------------------------
// The dictation as a sequence of steps
// ---------------------------------------------------------------------------

/// Where a dictation stands.
#[derive(Debug, Clone)]
pub enum Stage {
    /// Nothing is checked yet.
    Start,
    /// The local checks passed; the Web Clipper is being pinged.
    AwaitingPing,
    /// The recording is being made.
    AwaitingAudio,
    /// The recording is being transcribed.
    AwaitingTranscript,
    /// The note was sent to Joplin.
    AwaitingNote(PreparedNote),
    /// Nothing is left to do.
    Finished,
}

/// What the caller reports back.
#[derive(Debug, Clone)]
pub enum Event {
    /// What was found on the machine: Joplin installed, the whisper program,
    /// the whisper model.
    Probed { joplin_installed: bool, whisper_bin_exists: bool, whisper_model_exists: bool },
    /// The Web Clipper answered the ping with this text.
    PingReply(String),
    /// The recording is there, with its size in bytes.
    AudioCaptured(u64),
    /// whisper wrote this transcript.
    TranscriptRead(String),
    /// Joplin answered the note with this.
    NoteCreated(CreateResponse),
}

/// What the caller is to do next.
#[derive(Debug, Clone)]
pub enum Action {
    /// Ping the Web Clipper.
    Ping,
    /// Record from the microphone, or take the given recording.
    CaptureAudio,
    /// Run whisper on the recording.
    Transcribe,
    /// Send this note to Joplin.
    CreateNote(NotePayload),
    /// The dictation is over; the note, if one was made.
    Complete(Option<CreatedNote>),
    /// The dictation failed.
    Fail(WorkflowError),
}

/// The event that each stage waits for.
pub open spec fn awaits(stage: Stage, event: Event) -> bool {
    match stage {
        Stage::Start => event is Probed,
        Stage::AwaitingPing => event is PingReply,
        Stage::AwaitingAudio => event is AudioCaptured,
        Stage::AwaitingTranscript => event is TranscriptRead,
        Stage::AwaitingNote(_) => event is NoteCreated,
        Stage::Finished => false,
    }
}

/// A copy of a note payload, field by field.
fn copy_payload(p: &NotePayload) -> (r: NotePayload)
    ensures
        r == *p,
{
    let parent_id = match &p.parent_id {
        Some(id) => Some(id.clone()),
        None => None,
    };
    NotePayload {
        title: p.title.clone(),
        body: p.body.clone(),
        is_todo: p.is_todo,
        parent_id,
        todo_due: p.todo_due,
    }
}

/// One step of a dictation: the next stage and what the caller does next.
pub fn advance(config: &Config, options: &CreateOptions, stage: Stage, event: Event) -> (next: (
    Stage,
    Action,
))
    requires
        awaits(stage, event),
    ensures
        event matches Event::Probed { joplin_installed, whisper_bin_exists, whisper_model_exists }
            ==> (match readiness(
            joplin_installed,
            config.joplin_token@,
            whisper_bin_exists,
            whisper_model_exists,
        ) {
            Ok(()) => next.0 is AwaitingPing && next.1 is Ping,
            Err(e) => next.0 is Finished && next.1 == Action::Fail(WorkflowError::Ready(e)),
        }),
        event matches Event::PingReply(reply) ==> (if contains(reply@, clipper_signature()) {
            next.0 is AwaitingAudio && next.1 is CaptureAudio
        } else {
            next.0 is Finished && (next.1 matches Action::Fail(
                WorkflowError::Ready(ReadyError::UnexpectedPingReply(r)),
            ) && r@ == reply@)
        }),
        event matches Event::AudioCaptured(size) ==> (if size == 0 {
            next.0 is Finished && next.1 matches Action::Fail(WorkflowError::NoAudio)
        } else {
            next.0 is AwaitingTranscript && next.1 is Transcribe
        }),
        event matches Event::TranscriptRead(raw) ==> (exists|res: Result<Option<PreparedNote>, WorkflowError>|
            #[trigger] prepare_outcome(*options, raw@, res) && match res {
                Ok(None) => next.0 is Finished && next.1 matches Action::Complete(None),
                Ok(Some(p)) => next.0 == Stage::AwaitingNote(p) && next.1 == Action::CreateNote(p.payload),
                Err(e) => next.0 is Finished && next.1 == Action::Fail(e),
            }),
        event matches Event::NoteCreated(r) ==> (stage matches Stage::AwaitingNote(p) && exists|res: Result<CreatedNote, WorkflowError>|
            #[trigger] complete_outcome(p, r, res) && next.0 is Finished && match res {
                Ok(c) => next.1 == Action::Complete(Some(c)),
                Err(e) => next.1 == Action::Fail(e),
            }),
{
    match event {
        Event::Probed { joplin_installed, whisper_bin_exists, whisper_model_exists } => {
            match config.require_ready(joplin_installed, whisper_bin_exists, whisper_model_exists) {
                Ok(()) => (Stage::AwaitingPing, Action::Ping),
                Err(e) => (Stage::Finished, Action::Fail(WorkflowError::Ready(e))),
            }
        },
        Event::PingReply(reply) => match check_ping_reply(reply.as_str()) {
            Ok(()) => (Stage::AwaitingAudio, Action::CaptureAudio),
            Err(e) => (Stage::Finished, Action::Fail(WorkflowError::Ready(e))),
        },
        Event::AudioCaptured(size) => match check_audio(size) {
            Ok(()) => (Stage::AwaitingTranscript, Action::Transcribe),
            Err(e) => (Stage::Finished, Action::Fail(e)),
        },
        Event::TranscriptRead(raw) => match prepare_note(options, raw.as_str()) {
            Ok(None) => (Stage::Finished, Action::Complete(None)),
            Ok(Some(p)) => {
                let payload = copy_payload(&p.payload);
                (Stage::AwaitingNote(p), Action::CreateNote(payload))
            },
            Err(e) => (Stage::Finished, Action::Fail(e)),
        },
        Event::NoteCreated(r) => match stage {
            Stage::AwaitingNote(p) => match complete_note(p, r) {
                Ok(c) => (Stage::Finished, Action::Complete(Some(c))),
                Err(e) => (Stage::Finished, Action::Fail(e)),
            },
            _ => vstd::pervasive::unreached(),
        },
    }
}

} // verus!
