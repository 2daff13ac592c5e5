use crate::error::{engine_error, StorageError};
use crate::grouping::tags_view;
use crate::hashtag::{lemma_tags_of, parse_tags, tags_of};
use crate::models::{Note, NoteView, Tag, TagMap, TagMapStatus};
use crate::note_store::save_note;
use crate::page::{is_page, lemma_paired_tags_come_back};
use crate::sqlite::{begin, commit_transaction, connection_of};
use crate::system::random_usize;
use crate::tag_store::{save_tag_map, save_tags};
use vstd::prelude::*;

verus! {

/// The number of colours that a tag's colour is drawn from.
pub const PALETTE_SIZE: usize = 6;

/// The colours that a tag's colour is drawn from.
pub open spec fn palette() -> Seq<Seq<char>> {
    seq!["#34495e"@, "#8e44ad"@, "#27ae60"@, "#3498db"@, "#c0392b"@, "#f1c40f"@]
}

/// The pairing with which a tag starts on a note: active, stamped with the note's time.
pub open spec fn first_map(note_id: i64, timestamp: i64) -> TagMap {
    TagMap { note_id, status: TagMapStatus::Active, timestamp }
}

/// The colour that a draw picks: the one at the draw's remainder by the palette's size.
pub fn pick_color(draw: usize) -> (color: String)
    ensures
        color@ == palette()[(draw % PALETTE_SIZE) as int],
{
    let i = draw % PALETTE_SIZE;
    let color = if i == 0 {
        "#34495e"
    } else if i == 1 {
        "#8e44ad"
    } else if i == 2 {
        "#27ae60"
    } else if i == 3 {
        "#3498db"
    } else if i == 4 {
        "#c0392b"
    } else {
        "#f1c40f"
    };
    color.to_owned()
}

/// The tag to store for one name found in a note: the name, the colour that the draw
/// picks, and one active pairing with the note, stamped with the note's time.
pub fn tag_for_note(name: &String, draw: usize, note_id: i64, timestamp: i64) -> (tag: Tag)
    ensures
        tag@.tag == name@,
        tag@.color == palette()[(draw % PALETTE_SIZE) as int],
        tag@.maps == seq![first_map(note_id, timestamp)],
{
    let mut maps: Vec<TagMap> = Vec::new();
    maps.push(TagMap { note_id, status: TagMapStatus::Active, timestamp });
    let tag = Tag { tag: name.clone(), color: pick_color(draw), maps };
    assert(tag@.maps =~= seq![first_map(note_id, timestamp)]);
    tag
}

/// The tags to store for a note: one for each of its tag names, in their order, each with a
/// colour drawn from the palette, independently of the others and of what the store holds,
/// and with one active pairing with the note.
pub fn tags_for_note(note: &Note) -> (tags: Vec<Tag>)
    ensures
        tags.len() == note.tags.len(),
        forall|i: int|
            #![trigger tags_view(tags@)[i]]
            0 <= i < tags.len() ==> {
                &&& tags_view(tags@)[i].tag == note@.tags[i]
                &&& palette().contains(tags_view(tags@)[i].color)
                &&& tags_view(tags@)[i].maps == seq![first_map(note.id, note.timestamp)]
            },
{
    let mut tags: Vec<Tag> = Vec::new();
    let mut i: usize = 0;
    while i < note.tags.len()
        invariant
            i <= note.tags.len(),
            tags.len() == i,
            forall|k: int|
                #![trigger tags_view(tags@)[k]]
                0 <= k < i ==> {
                    &&& tags_view(tags@)[k].tag == note@.tags[k]
                    &&& palette().contains(tags_view(tags@)[k].color)
                    &&& tags_view(tags@)[k].maps == seq![first_map(note.id, note.timestamp)]
                },
        decreases note.tags.len() - i,
    {
        let ghost before = tags_view(tags@);
        let draw = random_usize();
        let tag = tag_for_note(&note.tags[i], draw, note.id, note.timestamp);
        assert(palette()[(draw % PALETTE_SIZE) as int] == tag@.color);
        tags.push(tag);
        assert forall|k: int|
            #![trigger tags_view(tags@)[k]]
            0 <= k < i + 1 implies {
            &&& tags_view(tags@)[k].tag == note@.tags[k]
            &&& palette().contains(tags_view(tags@)[k].color)
            &&& tags_view(tags@)[k].maps == seq![first_map(note.id, note.timestamp)]
        } by {
            if k < i {
                assert(tags_view(tags@)[k] == before[k]);
            }
        }
        i += 1;
    }
    tags
}

/// Gives a saved note the tags of its text, in place of those it came with, and stores
/// them: each tag declared and paired with the note, active, at the note's time. A note
/// whose text has no tag has nothing stored for it, and nothing fails.
pub fn save_tags_for_note(note: Note, db: &rusqlite::Connection) -> (r: Result<
    Note,
    StorageError,
>)
    ensures
        r matches Ok(saved) ==> saved@ == note@.with_tags(tags_of(note@.text)) && saved@.wf(),
        r matches Err(e) ==> e is ConstraintViolation || e is Database,
        tags_of(note@.text).len() == 0 ==> r is Ok,
{
    let mut note = note;
    note.tags = parse_tags(note.text.as_str());
    proof {
        lemma_tags_of(note@.text);
    }
    let tag_objs = tags_for_note(&note);
    save_tags(&tag_objs, db)?;
    Ok(note)
}

/// A note that was saved with the tags of its text comes back with exactly those tags:
/// where a selection holds the note once, as the store keeps it, and the pairs looked up
/// for its id are those that were stored for it, one for each tag of its text, the note
/// stands in the page with the tags of its text as its set of tags.
pub proof fn lemma_saved_tags_come_back(
    page: Seq<NoteView>,
    notes: Seq<NoteView>,
    pairs: Seq<(i64, Seq<char>)>,
    m: int,
    text: Seq<char>,
)
    requires
        is_page(page, notes, pairs),
        0 <= m < notes.len(),
        notes[m].text == text,
        notes[m].tags.len() == 0,
        forall|j: int| 0 <= j < notes.len() && j != m ==> (#[trigger] notes[j]).id != notes[m].id,
        forall|t: Seq<char>|
            tags_of(text).contains(t) <==> exists|j: int|
                0 <= j < pairs.len() && (#[trigger] pairs[j]).0 == notes[m].id && pairs[j].1 == t,
    ensures
        page[notes.len() - 1 - m].tag_set() == tags_of(text).to_set(),
        page[notes.len() - 1 - m].text == text,
        page[notes.len() - 1 - m].id == notes[m].id,
{
    lemma_paired_tags_come_back(page, notes, pairs, m, tags_of(text));
}

/// Opens a transaction on the connection.
pub fn tx<'a>(conn: &'a mut rusqlite::Connection) -> (r: Result<
    rusqlite::Transaction<'a>,
    StorageError,
>)
    ensures
        r matches Err(e) ==> e is ConstraintViolation || e is Database,
{
    match begin(conn) {
        Ok(t) => Ok(t),
        Err(e) => Err(engine_error(&e)),
    }
}

/// Commits a transaction.
pub fn commit(tx: rusqlite::Transaction<'_>) -> (r: Result<(), StorageError>)
    ensures
        r matches Err(e) ==> e is ConstraintViolation || e is Database,
{
    match commit_transaction(tx) {
        Ok(_) => Ok(()),
        Err(e) => Err(engine_error(&e)),
    }
}

/// Saves a note with the tags of its text as one unit: in one transaction the note is
/// appended, its tags are declared and paired with it, and the transaction is committed.
/// Any failure on the way drops the transaction, which rolls all of it back. The note that
/// comes back is the note that came in with the id that the store gave it, which is
/// positive, and the tags of its text.
pub fn save_note_transactional(conn: &mut rusqlite::Connection, note: Note) -> (r: Result<
    Note,
    StorageError,
>)
    ensures
        r matches Ok(saved) ==> saved@ == (NoteView {
            id: saved@.id,
            tags: tags_of(note@.text),
            ..note@
        }) && saved@.wf() && saved@.id > 0,
        r matches Err(e) ==> e is ConstraintViolation || e is Database || e is Malformed,
{
    let transaction = tx(conn)?;
    let mut note = note;
    note.id = save_note(&note, connection_of(&transaction))?;
    let saved = save_tags_for_note(note, connection_of(&transaction))?;
    commit(transaction)?;
    Ok(saved)
}

/// Moves the pairing of `tag` with the note of `map` to the status of `map` and logs the
/// move, as one unit: both in one transaction. The pairing comes back as it came in.
pub fn update_tag_map_status(conn: &mut rusqlite::Connection, tag: &str, map: TagMap) -> (r:
    Result<TagMap, StorageError>)
    ensures
        r matches Ok(m) ==> m == map,
        r matches Err(e) ==> e is ConstraintViolation || e is Database,
{
    let transaction = tx(conn)?;
    save_tag_map(connection_of(&transaction), tag, &map)?;
    commit(transaction)?;
    Ok(map)
}

} // verus!
