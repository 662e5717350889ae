//! The decisions of a directory scan: what to do with each entry, what to
//! report, and how the run ends. Listing the directory and reading the files
//! is the caller's part.

use crate::row::{LineCapture, Row};
use vstd::prelude::*;
use vstd::string::*;

verus! {

/// What to do with one directory entry.
#[derive(Clone, Copy, Debug, PartialEq, Eq, Structural)]
pub enum EntryAction {
    /// A regular file: read its leading lines.
    Read,
    /// Not a regular file: pass over it in silence.
    Ignore,
    /// Its type could not be found out: report it and go on.
    ReportUnknownType,
}

/// What is done with an entry, given the outcome of its file-type lookup:
/// `Some(true)` for a regular file, `Some(false)` for anything else, `None`
/// when the lookup failed.
pub open spec fn action_for(regular_file: Option<bool>) -> EntryAction {
    match regular_file {
        Some(true) => EntryAction::Read,
        Some(false) => EntryAction::Ignore,
        None => EntryAction::ReportUnknownType,
    }
}

/// Decides what to do with an entry from the outcome of its file-type lookup:
/// `Some(true)` for a regular file, `Some(false)` for anything else, `None`
/// when the lookup failed.
pub fn entry_action(regular_file: Option<bool>) -> (action: EntryAction)
    ensures
        action == action_for(regular_file),
{
    match regular_file {
        Some(true) => EntryAction::Read,
        Some(false) => EntryAction::Ignore,
        None => EntryAction::ReportUnknownType,
    }
}

/// The name shown for a file whose name is not valid text.
pub open spec fn unnamed() -> Seq<char> {
    "-/-"@
}

/// The name shown for a file: its own, or the placeholder when it has none
/// that is valid text.
pub open spec fn shown_name(name: Option<String>) -> Seq<char> {
    match name {
        Some(s) => s@,
        None => unnamed(),
    }
}

/// The name shown for a file: its own, or a placeholder when it has none
/// that is valid text.
pub fn display_name(name: Option<String>) -> (shown: String)
    ensures
        shown@ == shown_name(name),
{
    match name {
        Some(s) => s,
        None => String::from_str("-/-"),
    }
}

/// The row of a file that was read: its shown name and the lines captured.
/// The row has no more lines than the capture's limit.
pub fn file_row(name: Option<String>, capture: LineCapture) -> (row: Row)
    ensures
        row@.name == shown_name(name),
        row@.lines == capture.kept(),
        row@.fits(capture.limit()),
{
    let shown = display_name(name);
    let lines = capture.finish();
    Row::new(shown, lines)
}

/// The text of the diagnostic for a file that could not be read.
pub open spec fn unreadable_file_text(path: Seq<char>) -> Seq<char> {
    "Couldn't read file "@ + path
}

/// The diagnostic for a file that could not be read.
pub fn unreadable_file_message(path: &str) -> (message: String)
    ensures
        message@ == unreadable_file_text(path@),
{
    String::from_str("Couldn't read file ").concat(path)
}

/// The diagnostic for an entry whose type could not be found out.
pub fn unknown_type_message(path: &str) -> (message: String)
    ensures
        message@ == "Couldn't get file type for "@ + path@,
{
    String::from_str("Couldn't get file type for ").concat(path)
}

/// The diagnostic for a target that cannot be listed as a directory.
pub fn not_a_directory_message(path: &str) -> (message: String)
    ensures
        message@ == "The path: "@ + path@ + " is not a directory"@,
{
    String::from_str("The path: ").concat(path).concat(" is not a directory")
}

/// The exit status of a run: 0 when the directory was listed, whatever its
/// files were like, and 1 when it could not be listed at all.
pub open spec fn exit_status(listed: bool) -> u8 {
    if listed {
        0
    } else {
        1
    }
}

/// The exit status of a run.
pub fn exit_code(listed: bool) -> (code: u8)
    ensures
        code == exit_status(listed),
{
    if listed {
        0
    } else {
        1
    }
}

} // verus!
