# joplin_dictate

Record a voice note, transcribe it locally with whisper.cpp, and file it in
Joplin as a note or a to-do through the Web Clipper API.

The library in `src/` is written in Verus and carries the decisions, each with
a proved contract:

- `transcript`: taking whisper's noise markers out of a transcript, and the
  title taken from its first line;
- `due`: reading a due date (`YYYY-MM-DD HH:MM`) in local time with chrono;
- `workflow`: the note built from a transcript, the created note built from
  Joplin's answer, the error messages, and the dictation as a sequence of
  steps (`advance`): readiness checks, ping, recording, transcription, note;
- `joplin`: the configuration (the Web Clipper address and the token, from
  the environment and Joplin's settings), the readiness checks and their
  messages, the Web Clipper addresses;
- `folders`: the notebook list, sorted by title without regard to case;
- `install`: recognising an installed Joplin;
- `calendar`, `status`: the texts shown in the window;
- `text`: the character-level operations the others are built on.

`app/` is the program around it: the environment, files, the recorder,
whisper-cli, HTTP, the command line and the GTK window. It performs each
step that `workflow::advance` asks for and feeds the outcome back.

One program serves both front ends: started as `joplin-dictate` it is the
command line; started under a name that ends in `-gui` (for instance through
a link called `joplin-dictate-gui`) it opens the window.
