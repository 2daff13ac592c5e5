use crate::models::{Note, Tag, TagMap};
use vstd::prelude::*;

verus! {

/// A value bound to a parameter of a statement, or read from a cell of a result row.
#[derive(Debug, Clone, PartialEq, Eq)]
pub enum SqlValue {
    Integer(i64),
    Text(String),
    /// A list of integers, bound where a statement reads `rarray(..)`.
    Integers(Vec<i64>),
}

/// What a bound or read value is, as plain values.
pub enum SqlValueView {
    Integer(i64),
    Text(Seq<char>),
    Integers(Seq<i64>),
}

impl View for SqlValue {
    type V = SqlValueView;

    open spec fn view(&self) -> SqlValueView {
        match self {
            SqlValue::Integer(i) => SqlValueView::Integer(*i),
            SqlValue::Text(s) => SqlValueView::Text(s@),
            SqlValue::Integers(v) => SqlValueView::Integers(v@),
        }
    }
}

/// The views of a list of values, in order.
pub open spec fn values(v: Seq<SqlValue>) -> Seq<SqlValueView> {
    Seq::new(v.len(), |i: int| v[i]@)
}

/// The views of the rows of a result, in order.
pub open spec fn table(rows: Seq<Vec<SqlValue>>) -> Seq<Seq<SqlValueView>> {
    Seq::new(rows.len(), |i: int| values(rows[i]@))
}

/// As what a column of a result is read.
#[derive(Debug, Clone, Copy, PartialEq, Eq, Structural)]
pub enum Column {
    Integer,
    Text,
}

/// The cell was read as the column asks.
pub open spec fn cell_matches(cell: SqlValueView, column: Column) -> bool {
    match column {
        Column::Integer => cell is Integer,
        Column::Text => cell is Text,
    }
}

/// The row has one cell for each column, read as the column asks.
pub open spec fn row_matches(row: Seq<SqlValueView>, columns: Seq<Column>) -> bool {
    &&& row.len() == columns.len()
    &&& forall|c: int| 0 <= c < row.len() ==> cell_matches(#[trigger] row[c], columns[c])
}

/// One statement for the engine: its text, the values for `?1`, `?2`, .. in that order, and
/// how the columns of its result are read (none for a statement that returns no rows).
#[derive(Debug, Clone)]
pub struct Statement {
    pub sql: &'static str,
    pub params: Vec<SqlValue>,
    pub columns: Vec<Column>,
}

/// What a statement is, as plain values.
pub struct StatementView {
    pub sql: Seq<char>,
    pub params: Seq<SqlValueView>,
    pub columns: Seq<Column>,
}

impl View for Statement {
    type V = StatementView;

    open spec fn view(&self) -> StatementView {
        StatementView { sql: self.sql@, params: values(self.params@), columns: self.columns@ }
    }
}

/// Creates the table of the version cell unless it exists.
pub const CREATE_VERSION_TABLE: &'static str = "CREATE TABLE IF NOT EXISTS db_version(v INT)";

/// Puts version 0 into the version cell unless the cell holds a version.
pub const SEED_VERSION: &'static str =
    "INSERT INTO db_version(v) SELECT 0 WHERE NOT EXISTS(SELECT 1 FROM db_version)";

/// Reads the version cell.
pub const SELECT_VERSION: &'static str = "SELECT v FROM db_version";

/// Sets the version cell to `?1` where it holds `?2`.
pub const ADVANCE_VERSION: &'static str = "UPDATE db_version SET v = ?1 WHERE v = ?2";

/// Appends a note.
pub const INSERT_NOTE: &'static str =
    "INSERT INTO notes(text, timestamp, note_type) VALUES(?1, ?2, ?3)";

/// Selects the notes of a range of ids, greatest id first, 500 at most.
pub const SELECT_NOTES: &'static str = "SELECT id, text, timestamp, note_type FROM notes \
    WHERE id BETWEEN ?1 AND ?2 \
    ORDER BY id DESC LIMIT 500";

/// Selects the pairings of the notes whose ids are in the list `?1`.
pub const SELECT_NOTE_TAGS: &'static str =
    "SELECT note_id, tag FROM tag_map WHERE note_id IN rarray(?1)";

/// Declares a tag unless a tag of that name exists.
pub const INSERT_TAG: &'static str = "INSERT OR IGNORE INTO tags(tag, color) VALUES(?1, ?2)";

/// Pairs a tag with a note.
pub const INSERT_TAG_MAP: &'static str =
    "INSERT INTO tag_map(tag, note_id, status) VALUES(?1, ?2, ?3)";

/// Selects the pairings with their tags and the timestamps of their notes, greatest note
/// id first, 500 at most.
pub const SELECT_TAGS: &'static str = "SELECT t.tag, t.color, m.note_id, m.status, n.timestamp \
    FROM tag_map m \
    INNER JOIN tags t ON m.tag = t.tag \
    INNER JOIN notes n ON m.note_id = n.id \
    ORDER BY m.note_id DESC LIMIT 500";

/// Selects the pairings of one tag with the timestamps of their notes, greatest note id
/// first.
pub const SELECT_TAG_MAP: &'static str = "SELECT m.note_id, m.status, n.timestamp \
    FROM tag_map m \
    INNER JOIN tags t ON m.tag = t.tag \
    INNER JOIN notes n ON m.note_id = n.id \
    WHERE m.tag = ?1 \
    ORDER BY m.note_id DESC";

/// Sets the status of one pairing.
pub const UPDATE_TAG_MAP_STATUS: &'static str =
    "UPDATE tag_map SET status = ?1 WHERE tag = ?2 AND note_id = ?3";

/// Appends a row to the log of status changes.
pub const INSERT_TAG_MAP_HISTORY: &'static str =
    "INSERT INTO tag_map_history(tag, note_id, status, timestamp) VALUES(?1, ?2, ?3, ?4)";

/// A statement without parameters that returns no rows.
pub fn plain(sql: &'static str) -> (st: Statement)
    ensures
        st@ == (StatementView { sql: sql@, params: seq![], columns: seq![] }),
{
    let st = Statement { sql, params: Vec::new(), columns: Vec::new() };
    assert(st@.params =~= seq![]);
    st
}

/// Reads the version cell.
pub fn select_version() -> (st: Statement)
    ensures
        st@ == (StatementView {
            sql: SELECT_VERSION@,
            params: seq![],
            columns: seq![Column::Integer],
        }),
{
    let st = Statement { sql: SELECT_VERSION, params: Vec::new(), columns: vec![Column::Integer] };
    assert(st@.params =~= seq![]);
    assert(st@.columns =~= seq![Column::Integer]);
    st
}

/// Advances the version cell to `version`, on condition that it holds the version before.
pub fn advance_version(version: i32) -> (st: Statement)
    ensures
        st@ == (StatementView {
            sql: ADVANCE_VERSION@,
            params: seq![
                SqlValueView::Integer(version as i64),
                SqlValueView::Integer((version - 1) as i64),
            ],
            columns: seq![],
        }),
{
    let st = Statement {
        sql: ADVANCE_VERSION,
        params: vec![SqlValue::Integer(version as i64), SqlValue::Integer(version as i64 - 1)],
        columns: Vec::new(),
    };
    assert(st@.params =~= seq![
        SqlValueView::Integer(version as i64),
        SqlValueView::Integer((version - 1) as i64),
    ]);
    st
}

/// Appends a note: its text, its timestamp and the code of its type. The id is the engine's.
pub fn insert_note(note: &Note) -> (st: Statement)
    ensures
        st@ == (StatementView {
            sql: INSERT_NOTE@,
            params: seq![
                SqlValueView::Text(note.text@),
                SqlValueView::Integer(note.timestamp),
                SqlValueView::Integer(note.note_type.spec_code() as i64),
            ],
            columns: seq![],
        }),
{
    let st = Statement {
        sql: INSERT_NOTE,
        params: vec![
            SqlValue::Text(note.text.clone()),
            SqlValue::Integer(note.timestamp),
            SqlValue::Integer(note.note_type.code() as i64),
        ],
        columns: Vec::new(),
    };
    assert(st@.params =~= seq![
        SqlValueView::Text(note.text@),
        SqlValueView::Integer(note.timestamp),
        SqlValueView::Integer(note.note_type.spec_code() as i64),
    ]);
    st
}

/// Selects the notes with an id from `min_id` to `max_id`, both included: the 500 with the
/// greatest ids at most, greatest id first.
pub fn select_notes(min_id: i64, max_id: i64) -> (st: Statement)
    ensures
        st@ == (StatementView {
            sql: SELECT_NOTES@,
            params: seq![SqlValueView::Integer(min_id), SqlValueView::Integer(max_id)],
            columns: seq![Column::Integer, Column::Text, Column::Integer, Column::Integer],
        }),
{
    let st = Statement {
        sql: SELECT_NOTES,
        params: vec![SqlValue::Integer(min_id), SqlValue::Integer(max_id)],
        columns: vec![Column::Integer, Column::Text, Column::Integer, Column::Integer],
    };
    assert(st@.params =~= seq![SqlValueView::Integer(min_id), SqlValueView::Integer(max_id)]);
    assert(st@.columns =~= seq![Column::Integer, Column::Text, Column::Integer, Column::Integer]);
    st
}

/// Selects, in one go, the pairings of every note whose id is in `note_ids`.
pub fn select_note_tags(note_ids: &Vec<i64>) -> (st: Statement)
    ensures
        st@ == (StatementView {
            sql: SELECT_NOTE_TAGS@,
            params: seq![SqlValueView::Integers(note_ids@)],
            columns: seq![Column::Integer, Column::Text],
        }),
{
    let st = Statement {
        sql: SELECT_NOTE_TAGS,
        params: vec![SqlValue::Integers(note_ids.clone())],
        columns: vec![Column::Integer, Column::Text],
    };
    assert(st@.params =~= seq![SqlValueView::Integers(note_ids@)]);
    assert(st@.columns =~= seq![Column::Integer, Column::Text]);
    st
}

/// Declares a tag; a tag of that name that exists already keeps its colour.
pub fn insert_tag(tag: &Tag) -> (st: Statement)
    ensures
        st@ == (StatementView {
            sql: INSERT_TAG@,
            params: seq![SqlValueView::Text(tag.tag@), SqlValueView::Text(tag.color@)],
            columns: seq![],
        }),
{
    let st = Statement {
        sql: INSERT_TAG,
        params: vec![SqlValue::Text(tag.tag.clone()), SqlValue::Text(tag.color.clone())],
        columns: Vec::new(),
    };
    assert(st@.params =~= seq![SqlValueView::Text(tag.tag@), SqlValueView::Text(tag.color@)]);
    st
}

/// Pairs a tag with a note; the pair must be new.
pub fn insert_tag_map(tag: &str, map: &TagMap) -> (st: Statement)
    ensures
        st@ == (StatementView {
            sql: INSERT_TAG_MAP@,
            params: seq![
                SqlValueView::Text(tag@),
                SqlValueView::Integer(map.note_id),
                SqlValueView::Integer(map.status.spec_code() as i64),
            ],
            columns: seq![],
        }),
{
    let st = Statement {
        sql: INSERT_TAG_MAP,
        params: vec![
            SqlValue::Text(tag.to_owned()),
            SqlValue::Integer(map.note_id),
            SqlValue::Integer(map.status.code() as i64),
        ],
        columns: Vec::new(),
    };
    assert(st@.params =~= seq![
        SqlValueView::Text(tag@),
        SqlValueView::Integer(map.note_id),
        SqlValueView::Integer(map.status.spec_code() as i64),
    ]);
    st
}

/// Selects the pairings with their tags and the timestamps of their notes: the 500 of the
/// notes with the greatest ids at most, greatest id first.
pub fn select_tags() -> (st: Statement)
    ensures
        st@ == (StatementView {
            sql: SELECT_TAGS@,
            params: seq![],
            columns: seq![
                Column::Text,
                Column::Text,
                Column::Integer,
                Column::Integer,
                Column::Integer,
            ],
        }),
{
    let st = Statement {
        sql: SELECT_TAGS,
        params: Vec::new(),
        columns: vec![
            Column::Text,
            Column::Text,
            Column::Integer,
            Column::Integer,
            Column::Integer,
        ],
    };
    assert(st@.params =~= seq![]);
    assert(st@.columns =~= seq![
            Column::Text,
            Column::Text,
            Column::Integer,
            Column::Integer,
            Column::Integer,
        ]);
    st
}

/// Selects the pairings of one tag with the timestamps of their notes, greatest id first.
pub fn select_tag_map(tag: &str) -> (st: Statement)
    ensures
        st@ == (StatementView {
            sql: SELECT_TAG_MAP@,
            params: seq![SqlValueView::Text(tag@)],
            columns: seq![Column::Integer, Column::Integer, Column::Integer],
        }),
{
    let st = Statement {
        sql: SELECT_TAG_MAP,
        params: vec![SqlValue::Text(tag.to_owned())],
        columns: vec![Column::Integer, Column::Integer, Column::Integer],
    };
    assert(st@.params =~= seq![SqlValueView::Text(tag@)]);
    assert(st@.columns =~= seq![Column::Integer, Column::Integer, Column::Integer]);
    st
}

/// Sets the status of the pairing of `tag` with the note of `map`.
pub fn update_tag_map_status(tag: &str, map: &TagMap) -> (st: Statement)
    ensures
        st@ == (StatementView {
            sql: UPDATE_TAG_MAP_STATUS@,
            params: seq![
                SqlValueView::Integer(map.status.spec_code() as i64),
                SqlValueView::Text(tag@),
                SqlValueView::Integer(map.note_id),
            ],
            columns: seq![],
        }),
{
    let st = Statement {
        sql: UPDATE_TAG_MAP_STATUS,
        params: vec![
            SqlValue::Integer(map.status.code() as i64),
            SqlValue::Text(tag.to_owned()),
            SqlValue::Integer(map.note_id),
        ],
        columns: Vec::new(),
    };
    assert(st@.params =~= seq![
        SqlValueView::Integer(map.status.spec_code() as i64),
        SqlValueView::Text(tag@),
        SqlValueView::Integer(map.note_id),
    ]);
    st
}

/// Logs that the pairing of `tag` with the note of `map` took the status of `map` at `now`.
pub fn insert_tag_map_history(tag: &str, map: &TagMap, now: i64) -> (st: Statement)
    ensures
        st@ == (StatementView {
            sql: INSERT_TAG_MAP_HISTORY@,
            params: seq![
                SqlValueView::Text(tag@),
                SqlValueView::Integer(map.note_id),
                SqlValueView::Integer(map.status.spec_code() as i64),
                SqlValueView::Integer(now),
            ],
            columns: seq![],
        }),
{
    let st = Statement {
        sql: INSERT_TAG_MAP_HISTORY,
        params: vec![
            SqlValue::Text(tag.to_owned()),
            SqlValue::Integer(map.note_id),
            SqlValue::Integer(map.status.code() as i64),
            SqlValue::Integer(now),
        ],
        columns: Vec::new(),
    };
    assert(st@.params =~= seq![
        SqlValueView::Text(tag@),
        SqlValueView::Integer(map.note_id),
        SqlValueView::Integer(map.status.spec_code() as i64),
        SqlValueView::Integer(now),
    ]);
    st
}

} // verus!
