use crate::error::{engine_error, StorageError};
use crate::grouping::{
    check_rows, group_tags, is_grouping, lemma_maps_never_rise, lemma_maps_of_present,
    lemma_names_before_len, names_before, never_rising, rows_never_rise, tag_names, tags_view,
    ROW_LIMIT,
};
use crate::lexical::ascending;
use crate::models::{Tag, TagMap, TagView};
use crate::rows::{
    tag_maps_decode_to, tag_maps_fail_with, tag_maps_from_rows, tag_rows,
    tag_rows_decode_to, tag_rows_fail_with, tag_rows_from_rows, TagRow, TagRowView,
};
use crate::sqlite::{execute, query};
use crate::statement::{
    insert_tag, insert_tag_map, insert_tag_map_history, select_tag_map, select_tags, table,
    update_tag_map_status, SqlValue, SqlValueView,
};
use crate::system::now;
use vstd::prelude::*;

verus! {

/// Declares each tag and stores each of its pairings, in order. A tag whose name exists
/// already keeps its colour; a pairing that exists already is a violated constraint, which
/// ends the work at that pairing. Without tags there is nothing to store, and nothing fails.
pub fn save_tags(tags: &Vec<Tag>, conn: &rusqlite::Connection) -> (r: Result<(), StorageError>)
    ensures
        tags.len() == 0 ==> r is Ok,
        r matches Err(e) ==> e is ConstraintViolation || e is Database,
{
    let mut i: usize = 0;
    while i < tags.len()
        invariant
            i <= tags.len(),
        decreases tags.len() - i,
    {
        let tag = &tags[i];
        match execute(conn, &insert_tag(tag)) {
            Ok(_) => {},
            Err(e) => {
                return Err(engine_error(&e));
            },
        }
        let mut j: usize = 0;
        while j < tag.maps.len()
            invariant
                j <= tag.maps.len(),
                tags.len() > 0,
            decreases tag.maps.len() - j,
        {
            match execute(conn, &insert_tag_map(tag.tag.as_str(), &tag.maps[j])) {
                Ok(_) => {},
                Err(e) => {
                    return Err(engine_error(&e));
                },
            }
            j += 1;
        }
        i += 1;
    }
    Ok(())
}

/// The tags with their pairings: the store selects the pairings of the 500 greatest note
/// ids at most, each with its tag and the timestamp of its note, greatest note id first,
/// and they are gathered into one tag for each name, in the ascending order of the names.
/// More rows than the limit, or note ids that rise from one row to the next, count as
/// malformed. So there are 500 tags at most, each with one pairing at least and 500 at
/// most, and within a tag the note ids never rise.
pub fn get_tags(conn: &rusqlite::Connection) -> (r: Result<Vec<Tag>, StorageError>)
    ensures
        r matches Ok(tags) ==> {
            &&& tags.len() <= ROW_LIMIT
            &&& ascending(tag_names(tags_view(tags@)))
            &&& tag_names(tags_view(tags@)).no_duplicates()
            &&& forall|g: int|
                0 <= g < tags.len() ==> 0 < (#[trigger] tags[g]).maps.len() <= ROW_LIMIT
                    && never_rising(tags[g].maps@)
        },
        r matches Err(e) ==> !(e is Migration),
{
    let rows = match query(conn, &select_tags()) {
        Ok(rows) => rows,
        Err(e) => {
            return Err(engine_error(&e));
        },
    };
    let tags = tags_from_rows(&rows)?;
    proof {
        let all = choose|all: Seq<TagRowView>| #[trigger]
            gathered(table(rows@), all, tags_view(tags@));
        lemma_names_before_len(all, all.len() as int);
        assert forall|g: int| 0 <= g < tags.len() implies 0 < (#[trigger] tags[g]).maps.len()
            <= ROW_LIMIT && never_rising(tags[g].maps@) by {
            let t = tags_view(tags@)[g];
            lemma_maps_of_present(all, t.tag);
            lemma_maps_never_rise(all, all.len() as int, t.tag);
        }
    }
    Ok(tags)
}

/// The note ids fall strictly from each pairing to the next.
pub open spec fn falling_note_ids(maps: Seq<TagMap>) -> bool {
    forall|a: int, b: int| 0 <= a < b < maps.len() ==> maps[a].note_id > maps[b].note_id
}

/// Whether the note ids fall strictly from each pairing to the next.
pub fn check_falling(maps: &Vec<TagMap>) -> (ok: bool)
    ensures
        ok == falling_note_ids(maps@),
{
    let mut i: usize = 1;
    while i < maps.len()
        invariant
            1 <= i,
            forall|a: int, b: int| 0 <= a < b < i && b < maps.len() ==> maps[a].note_id
                > maps[b].note_id,
        decreases maps.len() - i,
    {
        if maps[i - 1].note_id <= maps[i].note_id {
            return false;
        }
        i += 1;
    }
    true
}

/// The pairings of one tag, each with the timestamp of its note, greatest note id first;
/// none for a tag that the store does not know. Pairings that do not come by falling note
/// id count as malformed.
pub fn get_tag_map(conn: &rusqlite::Connection, tag: &str) -> (r: Result<
    Vec<TagMap>,
    StorageError,
>)
    ensures
        r matches Ok(maps) ==> falling_note_ids(maps@),
        r matches Err(e) ==> !(e is Migration),
{
    let rows = match query(conn, &select_tag_map(tag)) {
        Ok(rows) => rows,
        Err(e) => {
            return Err(engine_error(&e));
        },
    };
    tag_maps_in_order(&rows)
}

/// Sets the status of the pairing of `tag` with the note of `tag_map`, then logs the new
/// status with the present time. A pairing that does not exist is left out of the first
/// step in silence, and logged all the same.
pub fn save_tag_map(conn: &rusqlite::Connection, tag: &str, tag_map: &TagMap) -> (r: Result<
    (),
    StorageError,
>)
    ensures
        r matches Err(e) ==> e is ConstraintViolation || e is Database,
{
    match execute(conn, &update_tag_map_status(tag, tag_map)) {
        Ok(_) => {},
        Err(e) => {
            return Err(engine_error(&e));
        },
    }
    match execute(conn, &insert_tag_map_history(tag, tag_map, now())) {
        Ok(_) => Ok(()),
        Err(e) => Err(engine_error(&e)),
    }
}

/// Reads the rows that the store selected for one tag: the pairings that the rows stand
/// for, in order, where their note ids fall. The first row that is no pairing gives its
/// error; pairings whose note ids do not fall count as malformed.
pub fn tag_maps_in_order(rows: &Vec<Vec<SqlValue>>) -> (r: Result<Vec<TagMap>, StorageError>)
    ensures
        match r {
            Ok(maps) => tag_maps_decode_to(table(rows@), maps@) && falling_note_ids(maps@),
            Err(e) => tag_maps_fail_with(table(rows@), e) || (e == StorageError::Malformed
                && exists|maps: Seq<TagMap>|
                tag_maps_decode_to(table(rows@), maps) && !falling_note_ids(maps)),
        },
        r matches Err(e) ==> e is Malformed || e is Conversion,
{
    let maps = match tag_maps_from_rows(rows) {
        Ok(maps) => maps,
        Err(e) => {
            return Err(e);
        },
    };
    assert(tag_maps_decode_to(table(rows@), maps@));
    if !check_falling(&maps) {
        return Err(StorageError::Malformed);
    }
    Ok(maps)
}

/// What the rows of the join look like that tags are gathered from: no more rows than the
/// limit, with note ids that never rise.
pub open spec fn is_join_selection(decoded: Seq<TagRowView>) -> bool {
    decoded.len() <= ROW_LIMIT && rows_never_rise(decoded)
}

/// `tags` are what is gathered from rows that decode to `decoded`: the rows are a
/// selection of the join, and the tags group them by name, the names in ascending order.
pub open spec fn gathered(
    rows: Seq<Seq<SqlValueView>>,
    decoded: Seq<TagRowView>,
    tags: Seq<TagView>,
) -> bool {
    &&& tag_rows_decode_to(rows, decoded)
    &&& is_join_selection(decoded)
    &&& is_grouping(tags, decoded)
    &&& ascending(tag_names(tags))
    &&& tags.len() == names_before(decoded, decoded.len() as int).len()
}

/// `tags` are what is gathered from the rows.
pub open spec fn gathered_from(rows: Seq<Seq<SqlValueView>>, tags: Seq<TagView>) -> bool {
    exists|decoded: Seq<TagRowView>| #[trigger] gathered(rows, decoded, tags)
}

/// The rows decode to rows of the join that are no selection of it.
pub open spec fn join_out_of_order(rows: Seq<Seq<SqlValueView>>) -> bool {
    exists|decoded: Seq<TagRowView>| #[trigger]
        tag_rows_decode_to(rows, decoded) && !is_join_selection(decoded)
}

/// Reads the rows that the store selected from the join of pairings, tags and notes: the
/// rows of the join that they stand for, in order, where they are a selection of the join.
fn join_rows(rows: &Vec<Vec<SqlValue>>) -> (r: Result<Vec<TagRow>, StorageError>)
    ensures
        match r {
            Ok(decoded) => tag_rows_decode_to(table(rows@), tag_rows(decoded@))
                && is_join_selection(tag_rows(decoded@)),
            Err(e) => tag_rows_fail_with(table(rows@), e) || (e == StorageError::Malformed
                && join_out_of_order(table(rows@))),
        },
        r matches Err(e) ==> e is Malformed || e is Conversion,
{
    let decoded = match tag_rows_from_rows(rows) {
        Ok(decoded) => decoded,
        Err(e) => {
            return Err(e);
        },
    };
    let ghost all = tag_rows(decoded@);
    assert(tag_rows_decode_to(table(rows@), all));
    if !check_rows(&decoded) {
        assert(!is_join_selection(all));
        return Err(StorageError::Malformed);
    }
    Ok(decoded)
}

/// Reads the rows that the store selected from the join of pairings, tags and notes, and
/// gathers them into tags. The first row that is no row of the join gives its error; more
/// rows than the limit, or note ids that rise, count as malformed.
pub fn tags_from_rows(rows: &Vec<Vec<SqlValue>>) -> (r: Result<Vec<Tag>, StorageError>)
    ensures
        match r {
            Ok(tags) => gathered_from(table(rows@), tags_view(tags@)),
            Err(e) => tag_rows_fail_with(table(rows@), e) || (e == StorageError::Malformed
                && join_out_of_order(table(rows@))),
        },
        r matches Err(e) ==> e is Malformed || e is Conversion,
{
    let decoded = match join_rows(rows) {
        Ok(decoded) => decoded,
        Err(e) => {
            return Err(e);
        },
    };
    let tags = group_tags(&decoded);
    assert(gathered(table(rows@), tag_rows(decoded@), tags_view(tags@)));
    Ok(tags)
}

} // verus!
