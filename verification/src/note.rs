//! The note record and the error taxonomy of the library.

use crate::text::lex_le;
use vstd::prelude::*;
use vstd::string::StringExecFns;

verus! {

/// One note: a titled document with its creation and modification timestamps,
/// both RFC3339 strings of one shared format so that lexicographic order is
/// chronological order.
#[derive(Debug)]
pub struct Note {
    pub title: String,
    pub content: String,
    pub creation_date: String,
    pub modification_date: String,
}

/// The mathematical shape of a note: its four fields as character sequences.
pub ghost struct NoteV {
    pub title: Seq<char>,
    pub content: Seq<char>,
    pub created: Seq<char>,
    pub modified: Seq<char>,
}

impl View for Note {
    type V = NoteV;

    open spec fn view(&self) -> NoteV {
        NoteV {
            title: self.title@,
            content: self.content@,
            created: self.creation_date@,
            modified: self.modification_date@,
        }
    }
}

impl NoteV {
    /// A well-formed note has a non-empty title and was never modified before
    /// it was created.
    pub open spec fn wf(self) -> bool {
        &&& self.title.len() > 0
        &&& lex_le(self.created, self.modified)
    }
}

impl Clone for Note {
    fn clone(&self) -> (r: Note)
        ensures
            r@ == self@,
    {
        Note {
            title: self.title.clone(),
            content: self.content.clone(),
            creation_date: self.creation_date.clone(),
            modification_date: self.modification_date.clone(),
        }
    }
}

impl Note {
    /// A freshly created note: creation and modification timestamps are equal.
    pub fn new(title: String, content: String, now: String) -> (r: Note)
        requires
            title@.len() > 0,
        ensures
            r@ == (NoteV { title: title@, content: content@, created: now@, modified: now@ }),
            r@.wf(),
    {
        proof {
            crate::text::lemma_lex_le_refl(now@);
        }
        Note { title, content, creation_date: now.clone(), modification_date: now }
    }
}

/// What can go wrong around notes. Conditions carried by the store itself are
/// `NotFound` and `AlreadyExists`; the others are raised by the surroundings:
/// a missing or failing external editor, a record that does not parse, or a
/// failing read or write.
#[derive(Clone, Copy, Debug, PartialEq, Eq, Structural)]
pub enum NoteError {
    NotFound,
    AlreadyExists,
    EditorUnavailable,
    EditorFailed,
    StorageCorrupt,
    IoFailure,
}

impl NoteError {
    /// A short description of the condition, for reporting to the user.
    pub fn message(&self) -> (r: String)
        ensures
            *self is NotFound ==> r@ == "note not found"@,
            *self is AlreadyExists ==> r@ == "a note with this title already exists"@,
            *self is EditorUnavailable ==> r@ == "no usable editor was found"@,
            *self is EditorFailed ==> r@ == "the editor exited abnormally"@,
            *self is StorageCorrupt ==> r@ == "a stored note could not be parsed"@,
            *self is IoFailure ==> r@ == "reading or writing the notes failed"@,
    {
        match self {
            NoteError::NotFound => String::from_str("note not found"),
            NoteError::AlreadyExists => String::from_str("a note with this title already exists"),
            NoteError::EditorUnavailable => String::from_str("no usable editor was found"),
            NoteError::EditorFailed => String::from_str("the editor exited abnormally"),
            NoteError::StorageCorrupt => String::from_str("a stored note could not be parsed"),
            NoteError::IoFailure => String::from_str("reading or writing the notes failed"),
        }
    }
}

} // verus!
