//! Voice dictation into Joplin: cleaning whisper transcripts, reading due
//! dates, building the note and the Web Clipper calls, and deciding each step
//! of a dictation. Recording, transcription and HTTP are left to the caller.
pub mod calendar;
pub mod due;
pub mod folders;
pub mod install;
pub mod joplin;
pub mod status;
pub mod text;
pub mod transcript;
pub mod workflow;

pub use due::parse_due;
pub use folders::Folder;
pub use joplin::Config;
pub use transcript::filter_transcript;
pub use workflow::{CreateOptions, CreatedNote};
