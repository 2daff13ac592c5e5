use crate::error::StorageError;
use crate::models::{ConversionError, Note, NoteType, NoteView, TagMap, TagMapStatus};
use crate::statement::{table, values, SqlValue, SqlValueView};
use vstd::prelude::*;

verus! {

/// The integer in cell `c` of a row, if the row has such a cell and it holds an integer.
pub open spec fn int_at(row: Seq<SqlValueView>, c: int) -> Option<i64> {
    if 0 <= c < row.len() {
        match row[c] {
            SqlValueView::Integer(i) => Some(i),
            _ => None,
        }
    } else {
        None
    }
}

/// The text in cell `c` of a row, if the row has such a cell and it holds text.
pub open spec fn text_at(row: Seq<SqlValueView>, c: int) -> Option<Seq<char>> {
    if 0 <= c < row.len() {
        match row[c] {
            SqlValueView::Text(s) => Some(s),
            _ => None,
        }
    } else {
        None
    }
}

/// One row of the join of pairings, tags and notes: a tag's name and colour with one of its
/// pairings, stamped with the time of the pairing's note.
#[derive(Debug, Clone)]
pub struct TagRow {
    pub tag: String,
    pub color: String,
    pub map: TagMap,
}

/// What a row of the join is, as plain values.
pub struct TagRowView {
    pub tag: Seq<char>,
    pub color: Seq<char>,
    pub map: TagMap,
}

impl View for TagRow {
    type V = TagRowView;

    open spec fn view(&self) -> TagRowView {
        TagRowView { tag: self.tag@, color: self.color@, map: self.map }
    }
}

/// The views of a list of join rows, in order.
pub open spec fn tag_rows(v: Seq<TagRow>) -> Seq<TagRowView> {
    Seq::new(v.len(), |i: int| v[i]@)
}

/// The views of a list of notes, in order.
pub open spec fn notes_view(v: Seq<Note>) -> Seq<NoteView> {
    Seq::new(v.len(), |i: int| v[i]@)
}

/// The note type a persisted integer stands for.
pub open spec fn decode_note_type(code: i64) -> Result<NoteType, StorageError> {
    match NoteType::spec_from(code as int) {
        Some(t) => Ok(t),
        None => Err(StorageError::Conversion(ConversionError { value: code })),
    }
}

/// The status a persisted integer stands for.
pub open spec fn decode_status(code: i64) -> Result<TagMapStatus, StorageError> {
    match TagMapStatus::spec_from(code as int) {
        Some(s) => Ok(s),
        None => Err(StorageError::Conversion(ConversionError { value: code })),
    }
}

/// The schema version that the rows read from the version cell stand for: the integer of
/// the first row. No row, or a first cell that is no integer, is malformed; an integer that
/// is negative or above `i32::MAX` is no version.
pub open spec fn decode_version(rows: Seq<Seq<SqlValueView>>) -> Result<usize, StorageError> {
    if rows.len() == 0 {
        Err(StorageError::Malformed)
    } else {
        match int_at(rows[0], 0) {
            None => Err(StorageError::Malformed),
            Some(v) => if 0 <= v <= i32::MAX {
                Ok(v as usize)
            } else {
                Err(StorageError::Conversion(ConversionError { value: v }))
            },
        }
    }
}

/// The note that a row of `id, text, timestamp, note_type` stands for: without tags and
/// without a client id.
pub open spec fn decode_note(row: Seq<SqlValueView>) -> Result<NoteView, StorageError> {
    match (int_at(row, 0), text_at(row, 1), int_at(row, 2), int_at(row, 3)) {
        (Some(id), Some(text), Some(timestamp), Some(code)) => match decode_note_type(code) {
            Ok(note_type) => Ok(
                NoteView {
                    id: id as int,
                    client_id: Seq::empty(),
                    text,
                    timestamp: timestamp as int,
                    note_type,
                    tags: Seq::empty(),
                },
            ),
            Err(e) => Err(e),
        },
        _ => Err(StorageError::Malformed),
    }
}

/// The pair that a row of `note_id, tag` stands for.
pub open spec fn decode_note_tag(row: Seq<SqlValueView>) -> Result<
    (i64, Seq<char>),
    StorageError,
> {
    match (int_at(row, 0), text_at(row, 1)) {
        (Some(id), Some(tag)) => Ok((id, tag)),
        _ => Err(StorageError::Malformed),
    }
}

/// The pairing that a row of `note_id, status, timestamp` stands for.
pub open spec fn decode_tag_map(row: Seq<SqlValueView>) -> Result<TagMap, StorageError> {
    match (int_at(row, 0), int_at(row, 1), int_at(row, 2)) {
        (Some(note_id), Some(code), Some(timestamp)) => match decode_status(code) {
            Ok(status) => Ok(TagMap { note_id, status, timestamp }),
            Err(e) => Err(e),
        },
        _ => Err(StorageError::Malformed),
    }
}

/// The join row that a row of `tag, color, note_id, status, timestamp` stands for.
pub open spec fn decode_tag_row(row: Seq<SqlValueView>) -> Result<TagRowView, StorageError> {
    match (
        text_at(row, 0),
        text_at(row, 1),
        int_at(row, 2),
        int_at(row, 3),
        int_at(row, 4),
    ) {
        (Some(tag), Some(color), Some(note_id), Some(code), Some(timestamp)) => match decode_status(
            code,
        ) {
            Ok(status) => Ok(TagRowView { tag, color, map: TagMap { note_id, status, timestamp } }),
            Err(e) => Err(e),
        },
        _ => Err(StorageError::Malformed),
    }
}

/// Reads an integer cell.
pub fn integer(row: &Vec<SqlValue>, c: usize) -> (r: Option<i64>)
    ensures
        r == int_at(values(row@), c as int),
{
    if c < row.len() {
        match &row[c] {
            SqlValue::Integer(i) => Some(*i),
            _ => None,
        }
    } else {
        None
    }
}

/// Reads a text cell.
pub fn text(row: &Vec<SqlValue>, c: usize) -> (r: Option<String>)
    ensures
        match r {
            Some(s) => text_at(values(row@), c as int) == Some(s@),
            None => text_at(values(row@), c as int) is None,
        },
{
    if c < row.len() {
        match &row[c] {
            SqlValue::Text(s) => Some(s.clone()),
            _ => None,
        }
    } else {
        None
    }
}

/// Decodes a persisted note type.
pub fn note_type_of(code: i64) -> (r: Result<NoteType, StorageError>)
    ensures
        r == decode_note_type(code),
{
    if code == 0 {
        Ok(NoteType::Text)
    } else if code == 1 {
        Ok(NoteType::Image)
    } else {
        Err(StorageError::Conversion(ConversionError { value: code }))
    }
}

/// Decodes a persisted status.
pub fn status_of(code: i64) -> (r: Result<TagMapStatus, StorageError>)
    ensures
        r == decode_status(code),
{
    if code == 0 {
        Ok(TagMapStatus::Active)
    } else if code == 1 {
        Ok(TagMapStatus::Archived)
    } else {
        Err(StorageError::Conversion(ConversionError { value: code }))
    }
}

/// Decodes what was read from the version cell.
pub fn version_from_rows(rows: &Vec<Vec<SqlValue>>) -> (r: Result<usize, StorageError>)
    ensures
        r == decode_version(table(rows@)),
{
    if rows.len() == 0 {
        return Err(StorageError::Malformed);
    }
    match integer(&rows[0], 0) {
        None => Err(StorageError::Malformed),
        Some(v) => {
            if 0 <= v && v <= i32::MAX as i64 {
                Ok(v as usize)
            } else {
                Err(StorageError::Conversion(ConversionError { value: v }))
            }
        },
    }
}

/// Decodes one row of notes.
pub fn note_from_row(row: &Vec<SqlValue>) -> (r: Result<Note, StorageError>)
    ensures
        match r {
            Ok(note) => decode_note(values(row@)) == Ok::<NoteView, StorageError>(note@),
            Err(e) => decode_note(values(row@)) == Err::<NoteView, StorageError>(e),
        },
{
    let id = match integer(row, 0) {
        Some(v) => v,
        None => { return Err(StorageError::Malformed); },
    };
    let text = match text(row, 1) {
        Some(v) => v,
        None => { return Err(StorageError::Malformed); },
    };
    let timestamp = match integer(row, 2) {
        Some(v) => v,
        None => { return Err(StorageError::Malformed); },
    };
    let code = match integer(row, 3) {
        Some(v) => v,
        None => { return Err(StorageError::Malformed); },
    };
    let note_type = note_type_of(code)?;
    let note = Note { id, client_id: String::new(), text, timestamp, note_type, tags: Vec::new() };
    assert(note@.tags =~= Seq::empty());
    Ok(note)
}

/// Decodes one pair of a note's id and a tag's name.
pub fn note_tag_from_row(row: &Vec<SqlValue>) -> (r: Result<(i64, String), StorageError>)
    ensures
        match r {
            Ok(pair) => decode_note_tag(values(row@)) == Ok::<(i64, Seq<char>), StorageError>(
                (pair.0, pair.1@),
            ),
            Err(e) => decode_note_tag(values(row@)) == Err::<(i64, Seq<char>), StorageError>(e),
        },
{
    let id = match integer(row, 0) {
        Some(v) => v,
        None => { return Err(StorageError::Malformed); },
    };
    let tag = match text(row, 1) {
        Some(v) => v,
        None => { return Err(StorageError::Malformed); },
    };
    Ok((id, tag))
}

/// Decodes one pairing.
pub fn tag_map_from_row(row: &Vec<SqlValue>) -> (r: Result<TagMap, StorageError>)
    ensures
        r == decode_tag_map(values(row@)),
{
    let note_id = match integer(row, 0) {
        Some(v) => v,
        None => { return Err(StorageError::Malformed); },
    };
    let code = match integer(row, 1) {
        Some(v) => v,
        None => { return Err(StorageError::Malformed); },
    };
    let timestamp = match integer(row, 2) {
        Some(v) => v,
        None => { return Err(StorageError::Malformed); },
    };
    let status = status_of(code)?;
    Ok(TagMap { note_id, status, timestamp })
}

/// Decodes one row of the join of pairings, tags and notes.
pub fn tag_row_from_row(row: &Vec<SqlValue>) -> (r: Result<TagRow, StorageError>)
    ensures
        match r {
            Ok(t) => decode_tag_row(values(row@)) == Ok::<TagRowView, StorageError>(t@),
            Err(e) => decode_tag_row(values(row@)) == Err::<TagRowView, StorageError>(e),
        },
{
    let tag = match text(row, 0) {
        Some(v) => v,
        None => { return Err(StorageError::Malformed); },
    };
    let color = match text(row, 1) {
        Some(v) => v,
        None => { return Err(StorageError::Malformed); },
    };
    let note_id = match integer(row, 2) {
        Some(v) => v,
        None => { return Err(StorageError::Malformed); },
    };
    let code = match integer(row, 3) {
        Some(v) => v,
        None => { return Err(StorageError::Malformed); },
    };
    let timestamp = match integer(row, 4) {
        Some(v) => v,
        None => { return Err(StorageError::Malformed); },
    };
    let status = status_of(code)?;
    Ok(TagRow { tag, color, map: TagMap { note_id, status, timestamp } })
}

/// Decodes the rows of notes, in order; the first row that cannot be decoded gives the error.
pub fn notes_from_rows(rows: &Vec<Vec<SqlValue>>) -> (r: Result<Vec<Note>, StorageError>)
    ensures
        match r {
            Ok(notes) => notes.len() == rows.len() && forall|i: int|
                0 <= i < rows.len() ==> decode_note(#[trigger] table(rows@)[i]) == Ok::<
                    NoteView,
                    StorageError,
                >(notes[i]@),
            Err(e) => exists|i: int|
                0 <= i < rows.len() && decode_note(#[trigger] table(rows@)[i]) == Err::<
                    NoteView,
                    StorageError,
                >(e) && forall|j: int| 0 <= j < i ==> decode_note(#[trigger] table(rows@)[j]) is Ok,
        },
{
    let mut notes: Vec<Note> = Vec::new();
    let mut i: usize = 0;
    while i < rows.len()
        invariant
            i <= rows.len(),
            notes.len() == i,
            forall|k: int|
                0 <= k < i ==> decode_note(#[trigger] table(rows@)[k]) == Ok::<
                    NoteView,
                    StorageError,
                >(notes[k]@),
        decreases rows.len() - i,
    {
        match note_from_row(&rows[i]) {
            Ok(note) => {
                notes.push(note);
            },
            Err(e) => {
                assert(decode_note(table(rows@)[i as int]) == Err::<NoteView, StorageError>(e));
                return Err(e);
            },
        }
        i += 1;
    }
    Ok(notes)
}

/// Decodes pairs of a note's id and a tag's name, in order; the first row that cannot be
/// decoded gives the error.
pub fn note_tags_from_rows(rows: &Vec<Vec<SqlValue>>) -> (r: Result<
    Vec<(i64, String)>,
    StorageError,
>)
    ensures
        match r {
            Ok(pairs) => pairs.len() == rows.len() && forall|i: int|
                0 <= i < rows.len() ==> decode_note_tag(#[trigger] table(rows@)[i]) == Ok::<
                    (i64, Seq<char>),
                    StorageError,
                >((pairs[i].0, pairs[i].1@)),
            Err(e) => exists|i: int|
                0 <= i < rows.len() && decode_note_tag(#[trigger] table(rows@)[i]) == Err::<
                    (i64, Seq<char>),
                    StorageError,
                >(e) && forall|j: int|
                    0 <= j < i ==> decode_note_tag(#[trigger] table(rows@)[j]) is Ok,
        },
{
    let mut pairs: Vec<(i64, String)> = Vec::new();
    let mut i: usize = 0;
    while i < rows.len()
        invariant
            i <= rows.len(),
            pairs.len() == i,
            forall|k: int|
                0 <= k < i ==> decode_note_tag(#[trigger] table(rows@)[k]) == Ok::<
                    (i64, Seq<char>),
                    StorageError,
                >((pairs[k].0, pairs[k].1@)),
        decreases rows.len() - i,
    {
        match note_tag_from_row(&rows[i]) {
            Ok(pair) => {
                pairs.push(pair);
            },
            Err(e) => {
                assert(decode_note_tag(table(rows@)[i as int]) == Err::<
                    (i64, Seq<char>),
                    StorageError,
                >(e));
                return Err(e);
            },
        }
        i += 1;
    }
    Ok(pairs)
}

/// Decodes pairings, in order; the first row that cannot be decoded gives the error.
pub fn tag_maps_from_rows(rows: &Vec<Vec<SqlValue>>) -> (r: Result<Vec<TagMap>, StorageError>)
    ensures
        match r {
            Ok(maps) => maps.len() == rows.len() && forall|i: int|
                0 <= i < rows.len() ==> decode_tag_map(#[trigger] table(rows@)[i]) == Ok::<
                    TagMap,
                    StorageError,
                >(maps[i]),
            Err(e) => exists|i: int|
                0 <= i < rows.len() && decode_tag_map(#[trigger] table(rows@)[i]) == Err::<
                    TagMap,
                    StorageError,
                >(e) && forall|j: int|
                    0 <= j < i ==> decode_tag_map(#[trigger] table(rows@)[j]) is Ok,
        },
{
    let mut maps: Vec<TagMap> = Vec::new();
    let mut i: usize = 0;
    while i < rows.len()
        invariant
            i <= rows.len(),
            maps.len() == i,
            forall|k: int|
                0 <= k < i ==> decode_tag_map(#[trigger] table(rows@)[k]) == Ok::<
                    TagMap,
                    StorageError,
                >(maps[k]),
        decreases rows.len() - i,
    {
        match tag_map_from_row(&rows[i]) {
            Ok(map) => {
                maps.push(map);
            },
            Err(e) => {
                assert(decode_tag_map(table(rows@)[i as int]) == Err::<TagMap, StorageError>(e));
                return Err(e);
            },
        }
        i += 1;
    }
    Ok(maps)
}

/// Decodes rows of the join of pairings, tags and notes, in order; the first row that
/// cannot be decoded gives the error.
pub fn tag_rows_from_rows(rows: &Vec<Vec<SqlValue>>) -> (r: Result<Vec<TagRow>, StorageError>)
    ensures
        match r {
            Ok(out) => out.len() == rows.len() && forall|i: int|
                0 <= i < rows.len() ==> decode_tag_row(#[trigger] table(rows@)[i]) == Ok::<
                    TagRowView,
                    StorageError,
                >(out[i]@),
            Err(e) => exists|i: int|
                0 <= i < rows.len() && decode_tag_row(#[trigger] table(rows@)[i]) == Err::<
                    TagRowView,
                    StorageError,
                >(e) && forall|j: int|
                    0 <= j < i ==> decode_tag_row(#[trigger] table(rows@)[j]) is Ok,
        },
        r matches Err(e) ==> e is Malformed || e is Conversion,
{
    let mut out: Vec<TagRow> = Vec::new();
    let mut i: usize = 0;
    while i < rows.len()
        invariant
            i <= rows.len(),
            out.len() == i,
            forall|k: int|
                0 <= k < i ==> decode_tag_row(#[trigger] table(rows@)[k]) == Ok::<
                    TagRowView,
                    StorageError,
                >(out[k]@),
        decreases rows.len() - i,
    {
        match tag_row_from_row(&rows[i]) {
            Ok(row) => {
                out.push(row);
            },
            Err(e) => {
                assert(decode_tag_row(table(rows@)[i as int]) == Err::<TagRowView, StorageError>(
                    e,
                ));
                return Err(e);
            },
        }
        i += 1;
    }
    Ok(out)
}

/// The rows decode, in order, to the notes.
pub open spec fn notes_decode_to(rows: Seq<Seq<SqlValueView>>, notes: Seq<NoteView>) -> bool {
    &&& notes.len() == rows.len()
    &&& forall|i: int|
        0 <= i < rows.len() ==> decode_note(#[trigger] rows[i]) == Ok::<NoteView, StorageError>(
            notes[i],
        )
}

/// The first of the rows that is no note fails with `e`.
pub open spec fn notes_fail_with(rows: Seq<Seq<SqlValueView>>, e: StorageError) -> bool {
    exists|i: int|
        0 <= i < rows.len() && decode_note(#[trigger] rows[i]) == Err::<NoteView, StorageError>(e)
            && forall|j: int| 0 <= j < i ==> decode_note(#[trigger] rows[j]) is Ok
}

/// The rows decode, in order, to the pairings.
pub open spec fn tag_maps_decode_to(rows: Seq<Seq<SqlValueView>>, maps: Seq<TagMap>) -> bool {
    &&& maps.len() == rows.len()
    &&& forall|i: int|
        0 <= i < rows.len() ==> decode_tag_map(#[trigger] rows[i]) == Ok::<TagMap, StorageError>(
            maps[i],
        )
}

/// The first of the rows that is no pairing fails with `e`.
pub open spec fn tag_maps_fail_with(rows: Seq<Seq<SqlValueView>>, e: StorageError) -> bool {
    exists|i: int|
        0 <= i < rows.len() && decode_tag_map(#[trigger] rows[i]) == Err::<TagMap, StorageError>(e)
            && forall|j: int| 0 <= j < i ==> decode_tag_map(#[trigger] rows[j]) is Ok
}

/// The rows decode, in order, to the rows of the join.
pub open spec fn tag_rows_decode_to(rows: Seq<Seq<SqlValueView>>, decoded: Seq<TagRowView>) -> bool {
    &&& decoded.len() == rows.len()
    &&& forall|i: int|
        0 <= i < rows.len() ==> decode_tag_row(#[trigger] rows[i]) == Ok::<
            TagRowView,
            StorageError,
        >(decoded[i])
}

/// The first of the rows that is no row of the join fails with `e`.
pub open spec fn tag_rows_fail_with(rows: Seq<Seq<SqlValueView>>, e: StorageError) -> bool {
    exists|i: int|
        0 <= i < rows.len() && decode_tag_row(#[trigger] rows[i]) == Err::<
            TagRowView,
            StorageError,
        >(e) && forall|j: int| 0 <= j < i ==> decode_tag_row(#[trigger] rows[j]) is Ok
}

} // verus!
