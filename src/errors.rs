use vstd::prelude::*;

verus! {

/// Every way an operation of the tracker can fail.
#[derive(Debug, Clone, Copy, PartialEq, Eq, Structural)]
pub enum TodoError {
    NoteIdDoesntExist,
    InvalidDate,
    CantCompleteNoteNotFromToday,
    CantAddNoteEarlierThanToday,
    CantEditTodayOrEarlierNotes,
    CantDeleteTodayOrEarlierNotes,
}

} // verus!
