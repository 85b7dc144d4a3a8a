//! The status lines shown after a dictation.
use vstd::prelude::*;

use crate::text::{chars_of, trim, trimmed};
use crate::workflow::CreatedNote;

verus! {

/// The status line for a dictation that ended: the note made, or that no
/// speech was heard.
pub open spec fn completion_text(note: Option<CreatedNote>) -> Seq<char> {
    match note {
        Some(n) => {
            let kind = if n.is_todo { "to-do"@ } else { "note"@ };
            let head = "Created Joplin "@ + kind + ": "@ + n.id@ + "  |  Title: "@ + n.title@;
            match n.due_human {
                Some(due) => head + "  |  Due: "@ + due@,
                None => head,
            }
        },
        None => "No speech detected."@,
    }
}

/// The status line names a to-do exactly when the note is a to-do, whether or
/// not it has a due date; it then names the id and the title, and the due
/// date when there is one.
pub proof fn lemma_completion_names_kind(n: CreatedNote)
    ensures
        completion_text(Some(n)).take(22) == "Created Joplin to-do: "@ <==> n.is_todo,
        completion_text(Some(n)).take(21) == "Created Joplin note: "@ <==> !n.is_todo,
        n.due_human is None ==> completion_text(Some(n)).len() == (if n.is_todo { 22int } else {
            21int
        }) + n.id@.len() + 12 + n.title@.len(),
        n.due_human matches Some(d) ==> completion_text(Some(n)).skip(
            completion_text(Some(n)).len() - d@.len(),
        ) == d@,
{
    reveal_strlit("Created Joplin ");
    reveal_strlit("to-do");
    reveal_strlit("note");
    reveal_strlit(": ");
    reveal_strlit("  |  Title: ");
    reveal_strlit("  |  Due: ");
    reveal_strlit("Created Joplin to-do: ");
    reveal_strlit("Created Joplin note: ");
    let t = completion_text(Some(n));
    if n.is_todo {
        assert(t.take(22) =~= "Created Joplin to-do: "@);
        assert(t[15] == 't');
        assert(t.take(21)[15] != "Created Joplin note: "@[15]);
    } else {
        assert(t.take(21) =~= "Created Joplin note: "@);
        assert(t[15] == 'n');
        assert(t.take(22)[15] != "Created Joplin to-do: "@[15]);
    }
    match n.due_human {
        Some(d) => {
            assert(t.skip(t.len() - d@.len()) =~= d@);
        },
        None => {},
    }
}

/// The status line for a dictation that ended.
pub fn completion_message(note: &Option<CreatedNote>) -> (m: String)
    ensures
        m@ == completion_text(*note),
{
    match note {
        Some(n) => {
            let mut m = String::from_str("Created Joplin ");
            if n.is_todo {
                m.append("to-do");
            } else {
                m.append("note");
            }
            m.append(": ");
            m.append(n.id.as_str());
            m.append("  |  Title: ");
            m.append(n.title.as_str());
            match &n.due_human {
                Some(due) => {
                    m.append("  |  Due: ");
                    m.append(due.as_str());
                },
                None => {},
            }
            m
        },
        None => String::from_str("No speech detected."),
    }
}

/// The status line when a recording came out empty, from what the recorder
/// wrote on its error stream.
pub open spec fn capture_failure_text(recorder_errors: Seq<char>) -> Seq<char> {
    if trim(recorder_errors).len() == 0 {
        "No audio captured — check microphone is connected and not muted"@
    } else {
        "arecord error: "@ + trim(recorder_errors)
    }
}

/// The status line when a recording came out empty.
pub fn capture_failure_message(recorder_errors: &str) -> (m: String)
    ensures
        m@ == capture_failure_text(recorder_errors@),
{
    let detail = trimmed(&chars_of(recorder_errors));
    if detail.as_str().is_empty() {
        String::from_str("No audio captured — check microphone is connected and not muted")
    } else {
        let mut m = String::from_str("arecord error: ");
        m.append(detail.as_str());
        m
    }
}

} // verus!
