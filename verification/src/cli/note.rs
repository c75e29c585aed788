//! The note commands: add to today's note, locate a note, list recent notes.
use vstd::prelude::*;
use crate::text::{join_with, joined, string_views};
use crate::vault::{
    journal_path, note_name, parsed_date, DailyNote, JournalAppend, VaultError,
    VaultService,
};

verus! {

/// The note commands.
pub enum NoteCommand {
    /// Append a line to today's daily note.
    Add(NoteAddArgs),
    /// Print the path to today's (or a specific date's) note.
    Open(NoteOpenArgs),
    /// List the most recent daily notes.
    List(NoteListArgs),
}

/// The arguments of `note add`.
pub struct NoteAddArgs {
    /// Content to append into the daily note, word by word.
    pub entry: Vec<String>,
}

/// The arguments of `note open`.
pub struct NoteOpenArgs {
    /// Optional ISO date (YYYY-MM-DD) to open.
    pub date: Option<String>,
}

/// The arguments of `note list`.
pub struct NoteListArgs {
    /// Number of recent notes to list.
    pub limit: usize,
}

/// The number of notes that `list` shows unless told otherwise.
pub const DEFAULT_LIMIT: usize = 5;

/// What a note command asks of the journal.
pub enum NotePlan {
    /// Append to a note, seeding its file first where it does not exist, and
    /// report the path of today's note after "Appended to ".
    Append(JournalAppend),
    /// Make sure that the file of a note exists, and print its path.
    Open(DailyNote),
    /// Print the paths of the most recent notes, not more than `limit`.
    List { limit: usize },
}

/// Decides what a note command asks of the journal.
///
/// `add` appends the words of the entry, with single spaces between them, to
/// the note of today. `open` locates the note of the given date, or of today,
/// and fails where the text is no date. `list` asks for the recent notes.
pub fn handle(cmd: NoteCommand, service: &VaultService) -> (r: Result<NotePlan, VaultError>)
    ensures
        match cmd {
            NoteCommand::Add(args) => r matches Ok(NotePlan::Append(a)) && a.date.is_valid()
                && a.path@ == journal_path(note_name(a.date@)) && a.line@ == joined(
                string_views(args.entry@),
                " "@,
            ) + seq!['\n'],
            NoteCommand::Open(args) => match args.date {
                Some(text) => match parsed_date(text@) {
                    Some(ymd) => r matches Ok(NotePlan::Open(note)) && note.date.is_valid()
                        && note.date@ == ymd && note.path@ == journal_path(
                        note_name(note.date@),
                    ),
                    None => r matches Err(VaultError::InvalidDate(t)) && t@ == text@,
                },
                None => r matches Ok(NotePlan::Open(note)) && note.date.is_valid() && note.path@
                    == journal_path(note_name(note.date@)),
            },
            NoteCommand::List(args) => r matches Ok(NotePlan::List { limit }) && limit
                == args.limit,
        },
{
    match cmd {
        NoteCommand::Add(args) => {
            let text = join_with(&args.entry, " ");
            Ok(NotePlan::Append(service.append_today(text.as_str())))
        },
        NoteCommand::Open(args) => {
            let found = match &args.date {
                Some(text) => service.path_for(Some(text.as_str())),
                None => service.path_for(None),
            };
            match found {
                Ok(note) => Ok(NotePlan::Open(note)),
                Err(e) => Err(e),
            }
        },
        NoteCommand::List(args) => Ok(NotePlan::List { limit: args.limit }),
    }
}

/// What `add` reports after the append: the path of today's note.
pub fn appended_line(path: &str) -> (line: String)
    ensures
        line@ == "Appended to "@ + path@,
{
    let mut line = "Appended to ".to_owned();
    line.append(path);
    line
}

} // verus!
