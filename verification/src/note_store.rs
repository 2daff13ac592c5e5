use crate::error::{engine_error, StorageError};
use crate::models::{Note, NoteView};
use crate::page::{
    assemble_page, check_selection, is_selection, lemma_page_rises, pairs_view, rising_ids,
    PAGE_LIMIT,
};
use crate::rows::{
    decode_note, note_tags_from_rows, notes_decode_to, notes_fail_with, notes_from_rows,
    notes_view,
};
use crate::sqlite::{execute, last_insert_rowid, query};
use crate::statement::{insert_note, select_note_tags, select_notes, table, SqlValue};
use vstd::prelude::*;

verus! {

/// The least id that a page begins at where the caller names none.
pub const DEFAULT_MIN_ID: i64 = 1;

/// The greatest id that a page ends at where the caller names none.
pub const DEFAULT_MAX_ID: i64 = i64::MAX - 1;

/// The range of ids that a caller asks a page for; either end may be left open.
#[derive(Debug, Clone, Copy, PartialEq, Eq)]
pub struct GetNotesFilter {
    pub min_id: Option<i64>,
    pub max_id: Option<i64>,
}

impl GetNotesFilter {
    /// The two ends of the range, with the defaults in the place of an end left open.
    pub fn bounds(&self) -> (r: (i64, i64))
        ensures
            r.0 == (match self.min_id {
                Some(id) => id,
                None => DEFAULT_MIN_ID,
            }),
            r.1 == (match self.max_id {
                Some(id) => id,
                None => DEFAULT_MAX_ID,
            }),
    {
        let min_id = match self.min_id {
            Some(id) => id,
            None => DEFAULT_MIN_ID,
        };
        let max_id = match self.max_id {
            Some(id) => id,
            None => DEFAULT_MAX_ID,
        };
        (min_id, max_id)
    }
}

/// Appends a note to the store and returns the id that the store gave it, which is
/// positive; an id that is not counts as malformed. Text and timestamp are stored as they
/// come.
pub fn save_note(note: &Note, conn: &rusqlite::Connection) -> (r: Result<i64, StorageError>)
    ensures
        r matches Ok(id) ==> id > 0,
        r matches Err(e) ==> e is ConstraintViolation || e is Database || e is Malformed,
{
    match execute(conn, &insert_note(note)) {
        Ok(_) => assigned_id(last_insert_rowid(conn)),
        Err(e) => Err(engine_error(&e)),
    }
}

/// Looks up, in one query, the pairings of all the notes whose ids are given: for each
/// pairing the note's id and the tag's name.
pub fn get_tags_for_note(note_ids: &[i64], conn: &rusqlite::Connection) -> (r: Result<
    Vec<(i64, String)>,
    StorageError,
>)
    ensures
        r matches Err(e) ==> e is ConstraintViolation || e is Database || e is Malformed,
{
    let ids = vstd::slice::slice_to_vec(note_ids);
    match query(conn, &select_note_tags(&ids)) {
        Ok(rows) => note_tags_from_rows(&rows),
        Err(e) => Err(engine_error(&e)),
    }
}

/// The ids of the notes, in order.
fn note_ids(notes: &Vec<Note>) -> (ids: Vec<i64>)
    ensures
        ids.len() == notes.len(),
        forall|k: int| 0 <= k < ids.len() ==> ids[k] == notes[k].id,
{
    let mut ids: Vec<i64> = Vec::new();
    let mut i: usize = 0;
    while i < notes.len()
        invariant
            i <= notes.len(),
            ids.len() == i,
            forall|k: int| 0 <= k < i ==> ids[k] == notes[k].id,
        decreases notes.len() - i,
    {
        ids.push(notes[i].id);
        i += 1;
    }
    ids
}

/// The page of notes with an id from `min_id` to `max_id`, both included, by rising id:
/// the store selects the 500 greatest ids at most, a second query looks up the pairings of
/// all of them, and the page is assembled from the two. Ids that no note has give an empty
/// page. What the store selected is held against what was asked for: more notes than a
/// page holds, an id out of the range, or ids that do not fall, count as malformed. Every
/// note of the page carries each of its tags once, and no client id.
pub fn get_notes(conn: &rusqlite::Connection, min_id: i64, max_id: i64) -> (r: Result<
    Vec<Note>,
    StorageError,
>)
    ensures
        r matches Ok(page) ==> {
            &&& page.len() <= PAGE_LIMIT
            &&& rising_ids(notes_view(page@))
            &&& forall|k: int|
                0 <= k < page.len() ==> min_id <= (#[trigger] notes_view(page@)[k]).id <= max_id
            &&& forall|k: int| 0 <= k < page.len() ==> (#[trigger] notes_view(page@)[k]).wf()
            &&& forall|k: int|
                0 <= k < page.len() ==> (#[trigger] notes_view(page@)[k]).client_id.len() == 0
        },
        r matches Err(e) ==> !(e is Migration),
{
    let rows = match query(conn, &select_notes(min_id, max_id)) {
        Ok(rows) => rows,
        Err(e) => {
            return Err(engine_error(&e));
        },
    };
    let notes = selection_from_rows(&rows, min_id, max_id)?;
    let ids = note_ids(&notes);
    let pairs = get_tags_for_note(ids.as_slice(), conn)?;
    let ghost selected = notes_view(notes@);
    let page = assemble_page(notes, &pairs);
    proof {
        lemma_page_rises(notes_view(page@), selected, pairs_view(pairs@));
        assert forall|k: int| 0 <= k < page.len() implies (#[trigger] notes_view(page@)[k]).wf()
            && min_id <= notes_view(page@)[k].id <= max_id && notes_view(
            page@,
        )[k].client_id.len() == 0 by {
            let source = selected[selected.len() - 1 - k];
            assert(decode_note(table(rows@)[selected.len() - 1 - k]) == Ok::<
                NoteView,
                StorageError,
            >(source));
            assert(source.tags =~= Seq::empty());
        }
    }
    Ok(page)
}

/// What an id that the store reports for a new note comes to: a positive id is the
/// note's, any other counts as malformed.
pub open spec fn assigned(id: i64) -> Result<i64, StorageError> {
    if id > 0 {
        Ok(id)
    } else {
        Err(StorageError::Malformed)
    }
}

/// Judges the id that the store reports for a new note.
pub fn assigned_id(id: i64) -> (r: Result<i64, StorageError>)
    ensures
        r == assigned(id),
{
    if id > 0 {
        Ok(id)
    } else {
        Err(StorageError::Malformed)
    }
}

/// Reads the rows that the store selected for the ids from `min_id` to `max_id`: the notes
/// that the rows stand for, in order, where they are a selection for that range. The first
/// row that is no note gives its error; notes that are no selection for the range, being
/// too many, out of the range or not by falling id, count as malformed.
pub fn selection_from_rows(rows: &Vec<Vec<SqlValue>>, min_id: i64, max_id: i64) -> (r: Result<
    Vec<Note>,
    StorageError,
>)
    ensures
        match r {
            Ok(notes) => notes_decode_to(table(rows@), notes_view(notes@)) && is_selection(
                notes_view(notes@),
                min_id as int,
                max_id as int,
            ),
            Err(e) => notes_fail_with(table(rows@), e) || (e == StorageError::Malformed
                && exists|notes: Seq<NoteView>|
                notes_decode_to(table(rows@), notes) && !is_selection(
                    notes,
                    min_id as int,
                    max_id as int,
                )),
        },
{
    let notes = match notes_from_rows(rows) {
        Ok(notes) => notes,
        Err(e) => {
            return Err(e);
        },
    };
    assert(notes_decode_to(table(rows@), notes_view(notes@)));
    if !check_selection(&notes, min_id, max_id) {
        return Err(StorageError::Malformed);
    }
    Ok(notes)
}

} // verus!
