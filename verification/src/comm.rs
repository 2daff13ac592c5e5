use crate::models::Note;
use vstd::prelude::*;

verus! {

/// What happens to a note between the input and the canvas.
#[derive(Debug, Clone)]
pub enum NoteEvent {
    /// The note was handed in and is on its way to the store.
    NoteSubmitted(Note),
    /// The store has the note; this is the note as the store returned it.
    NoteSaved(Note),
}

/// What happens to the tags.
#[derive(Debug, Clone, Copy, PartialEq, Eq, Structural)]
pub enum TagEvent {
    /// A tag or a pairing was added or changed.
    TagsChanged,
}

} // verus!
