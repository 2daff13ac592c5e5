use lenote::coordinator::{save_note_transactional, save_tags_for_note, update_tag_map_status};
use lenote::error::StorageError;
use lenote::migrate::{init, LATEST_VERSION};
use lenote::models::{Note, NoteType, Tag, TagMap, TagMapStatus};
use lenote::note_store::{get_notes, get_tags_for_note, save_note};
use lenote::tag_store::{get_tag_map, get_tags, save_tag_map, save_tags};
use rusqlite::Connection;

fn open_store() -> Connection {
    let mut conn = Connection::open_in_memory().unwrap();
    init(&mut conn).unwrap();
    conn
}

fn text_note(text: &str, timestamp: i64) -> Note {
    Note {
        id: 0,
        client_id: String::from("nn-1"),
        text: String::from(text),
        timestamp,
        note_type: NoteType::Text,
        tags: vec![],
    }
}

fn sorted(mut names: Vec<String>) -> Vec<String> {
    names.sort();
    names
}

fn count(conn: &Connection, table: &str) -> i64 {
    conn.query_row(&format!("SELECT COUNT(*) FROM {}", table), [], |row| row.get(0)).unwrap()
}

fn version(conn: &Connection) -> i64 {
    conn.query_row("SELECT v FROM db_version", [], |row| row.get(0)).unwrap()
}

#[test]
fn fresh_store_reaches_the_latest_version() {
    let conn = open_store();
    assert_eq!(version(&conn), LATEST_VERSION as i64);
    assert_eq!(version(&conn), 5);
    assert_eq!(count(&conn, "db_version"), 1);
}

#[test]
fn init_twice_changes_nothing() {
    let mut conn = open_store();
    let saved = save_note_transactional(&mut conn, text_note("kept #once", 10)).unwrap();
    assert_eq!(init(&mut conn), Ok(()));
    assert_eq!(version(&conn), 5);
    assert_eq!(count(&conn, "db_version"), 1);
    assert_eq!(count(&conn, "notes"), 1);
    let page = get_notes(&conn, saved.id, saved.id).unwrap();
    assert_eq!(page.len(), 1);
    assert_eq!(page[0].text, "kept #once");
}

#[test]
fn init_resumes_from_a_partly_migrated_store() {
    let mut conn = Connection::open_in_memory().unwrap();
    conn.execute_batch(
        "CREATE TABLE db_version(v INT); INSERT INTO db_version(v) VALUES(2);
         CREATE TABLE notes(id INTEGER NOT NULL PRIMARY KEY AUTOINCREMENT, text VARCHAR NOT NULL, timestamp BIGINT);
         CREATE TABLE tags(tag VARCHAR NOT NULL PRIMARY KEY, color VARCHAR NOT NULL);
         INSERT INTO notes(text, timestamp) VALUES('old', 5);",
    )
    .unwrap();
    assert_eq!(init(&mut conn), Ok(()));
    assert_eq!(version(&conn), 5);
    let page = get_notes(&conn, 1, 10).unwrap();
    assert_eq!(page.len(), 1);
    assert_eq!(page[0].text, "old");
    assert_eq!(page[0].note_type, NoteType::Text);
}

#[test]
fn version_cell_that_cannot_advance_is_a_migration_error() {
    let mut conn = Connection::open_in_memory().unwrap();
    conn.execute_batch(
        "CREATE TABLE db_version(v INT); INSERT INTO db_version(v) VALUES(0);
         CREATE TRIGGER hold BEFORE UPDATE ON db_version BEGIN SELECT RAISE(IGNORE); END;",
    )
    .unwrap();
    assert_eq!(init(&mut conn), Err(StorageError::Migration { version: 1 }));
    assert_eq!(version(&conn), 0);
    let tables: i64 = conn
        .query_row("SELECT COUNT(*) FROM sqlite_master WHERE name = 'notes'", [], |row| row.get(0))
        .unwrap();
    assert_eq!(tables, 0);
}

#[test]
fn negative_version_cell_is_a_conversion_error() {
    let mut conn = Connection::open_in_memory().unwrap();
    conn.execute_batch("CREATE TABLE db_version(v INT); INSERT INTO db_version(v) VALUES(-3);")
        .unwrap();
    assert!(matches!(init(&mut conn), Err(StorageError::Conversion(e)) if e.value == -3));
}

#[test]
fn store_beyond_the_latest_version_is_left_alone() {
    let mut conn = Connection::open_in_memory().unwrap();
    conn.execute_batch("CREATE TABLE db_version(v INT); INSERT INTO db_version(v) VALUES(9);")
        .unwrap();
    assert_eq!(init(&mut conn), Ok(()));
    assert_eq!(version(&conn), 9);
}

#[test]
fn saved_note_comes_back_with_its_tags() {
    let mut conn = open_store();
    let saved =
        save_note_transactional(&mut conn, text_note("Buy milk #todo #home", 1700)).unwrap();
    assert!(saved.id > 0);
    assert_eq!(saved.text, "Buy milk #todo #home");
    assert_eq!(saved.timestamp, 1700);
    assert_eq!(saved.client_id, "nn-1");
    assert_eq!(sorted(saved.tags.clone()), vec!["#home", "#todo"]);

    let maps = get_tag_map(&conn, "#todo").unwrap();
    assert_eq!(
        maps,
        vec![TagMap { note_id: saved.id, status: TagMapStatus::Active, timestamp: 1700 }]
    );

    let page = get_notes(&conn, saved.id, saved.id).unwrap();
    assert_eq!(page.len(), 1);
    assert_eq!(page[0].id, saved.id);
    assert_eq!(page[0].text, "Buy milk #todo #home");
    assert_eq!(page[0].client_id, "");
    assert_eq!(sorted(page[0].tags.clone()), vec!["#home", "#todo"]);
}

#[test]
fn status_update_changes_the_pairing_and_logs_it() {
    let mut conn = open_store();
    let saved = save_note_transactional(&mut conn, text_note("call #todo", 50)).unwrap();
    let asked = TagMap { note_id: saved.id, status: TagMapStatus::Archived, timestamp: 7 };
    assert_eq!(update_tag_map_status(&mut conn, "#todo", asked), Ok(asked));

    let maps = get_tag_map(&conn, "#todo").unwrap();
    assert_eq!(maps.len(), 1);
    assert_eq!(maps[0].note_id, saved.id);
    assert_eq!(maps[0].status, TagMapStatus::Archived);
    assert_eq!(maps[0].timestamp, 50);

    assert_eq!(count(&conn, "tag_map_history"), 1);
    let (tag, note_id, status, stamp): (String, i64, i64, i64) = conn
        .query_row("SELECT tag, note_id, status, timestamp FROM tag_map_history", [], |row| {
            Ok((row.get(0)?, row.get(1)?, row.get(2)?, row.get(3)?))
        })
        .unwrap();
    assert_eq!(tag, "#todo");
    assert_eq!(note_id, saved.id);
    assert_eq!(status, 1);
    assert!(stamp > 1_000_000_000);
}

#[test]
fn saving_a_note_logs_no_history() {
    let mut conn = open_store();
    save_note_transactional(&mut conn, text_note("quiet #start", 1)).unwrap();
    assert_eq!(count(&conn, "tag_map"), 1);
    assert_eq!(count(&conn, "tag_map_history"), 0);
}

#[test]
fn status_update_on_unknown_pairing_still_logs() {
    let mut conn = open_store();
    let asked = TagMap { note_id: 41, status: TagMapStatus::Archived, timestamp: 0 };
    assert_eq!(update_tag_map_status(&mut conn, "#ghost", asked), Ok(asked));
    assert_eq!(count(&conn, "tag_map"), 0);
    assert_eq!(count(&conn, "tag_map_history"), 1);
    assert_eq!(get_tag_map(&conn, "#ghost"), Ok(vec![]));
}

#[test]
fn same_pairing_twice_is_a_constraint_violation() {
    let conn = open_store();
    let note_id = save_note(&text_note("plain", 3), &conn).unwrap();
    let tag = Tag {
        tag: String::from("#dup"),
        color: String::from("#27ae60"),
        maps: vec![TagMap { note_id, status: TagMapStatus::Active, timestamp: 3 }],
    };
    assert_eq!(save_tags(&vec![tag.clone()], &conn), Ok(()));
    assert_eq!(save_tags(&vec![tag], &conn), Err(StorageError::ConstraintViolation));
    assert_eq!(count(&conn, "tag_map"), 1);
}

#[test]
fn declaring_a_tag_again_keeps_its_colour() {
    let conn = open_store();
    let first = save_note(&text_note("a", 1), &conn).unwrap();
    let second = save_note(&text_note("b", 2), &conn).unwrap();
    let with = |color: &str, note_id: i64| Tag {
        tag: String::from("#keep"),
        color: String::from(color),
        maps: vec![TagMap { note_id, status: TagMapStatus::Active, timestamp: 0 }],
    };
    save_tags(&vec![with("#34495e", first)], &conn).unwrap();
    save_tags(&vec![with("#f1c40f", second)], &conn).unwrap();
    let tags = get_tags(&conn).unwrap();
    assert_eq!(tags.len(), 1);
    assert_eq!(tags[0].color, "#34495e");
    assert_eq!(tags[0].maps.len(), 2);
}

#[test]
fn failure_after_the_note_insert_rolls_the_note_back() {
    let mut conn = open_store();
    conn.execute_batch("DROP TABLE tag_map").unwrap();
    let r = save_note_transactional(&mut conn, text_note("lost #tag", 9));
    assert!(matches!(r, Err(StorageError::Database { .. })));
    assert_eq!(count(&conn, "notes"), 0);
    assert_eq!(count(&conn, "tags"), 0);
}

#[test]
fn failure_on_a_pairing_rolls_back_and_leaves_earlier_notes() {
    let mut conn = open_store();
    let kept = save_note_transactional(&mut conn, text_note("first #a", 1)).unwrap();
    conn.execute(
        "INSERT INTO tag_map(tag, note_id, status) VALUES('#a', ?1, 0)",
        [kept.id + 1],
    )
    .unwrap();
    let r = save_note_transactional(&mut conn, text_note("second #a", 2));
    assert_eq!(r.err(), Some(StorageError::ConstraintViolation));
    assert_eq!(count(&conn, "notes"), 1);
    let page = get_notes(&conn, 1, 100).unwrap();
    assert_eq!(page.len(), 1);
    assert_eq!(page[0].id, kept.id);
}

#[test]
fn page_is_capped_at_the_500_most_recent_in_rising_order() {
    let mut conn = open_store();
    for i in 0..503 {
        save_note_transactional(&mut conn, text_note("n", i)).unwrap();
    }
    let page = get_notes(&conn, 1, i64::MAX - 1).unwrap();
    assert_eq!(page.len(), 500);
    assert_eq!(page[0].id, 4);
    assert_eq!(page[499].id, 503);
    for k in 1..page.len() {
        assert!(page[k - 1].id < page[k].id);
    }
    let window = get_notes(&conn, 1, 502).unwrap();
    assert_eq!(window.len(), 500);
    assert_eq!(window[0].id, 3);
    assert_eq!(window[499].id, 502);
}

#[test]
fn range_is_inclusive_and_absent_ids_give_an_empty_page() {
    let mut conn = open_store();
    for i in 0..5 {
        save_note_transactional(&mut conn, text_note("n #t", i)).unwrap();
    }
    let page = get_notes(&conn, 2, 4).unwrap();
    assert_eq!(page.iter().map(|n| n.id).collect::<Vec<_>>(), vec![2, 3, 4]);
    assert_eq!(page[0].tags, vec!["#t"]);
    assert_eq!(get_notes(&conn, 50, 60).unwrap().len(), 0);
    assert_eq!(get_notes(&conn, 4, 2).unwrap().len(), 0);
}

#[test]
fn bulk_lookup_returns_the_pairings_of_the_given_notes_only() {
    let mut conn = open_store();
    let a = save_note_transactional(&mut conn, text_note("#x #y", 1)).unwrap();
    let b = save_note_transactional(&mut conn, text_note("#y", 2)).unwrap();
    let c = save_note_transactional(&mut conn, text_note("#z", 3)).unwrap();
    let mut pairs = get_tags_for_note(&[a.id, c.id], &conn).unwrap();
    pairs.sort();
    assert_eq!(
        pairs,
        vec![
            (a.id, String::from("#x")),
            (a.id, String::from("#y")),
            (c.id, String::from("#z")),
        ]
    );
    assert_eq!(get_tags_for_note(&[], &conn), Ok(vec![]));
    assert_eq!(get_tags_for_note(&[b.id + 100], &conn), Ok(vec![]));
}

#[test]
fn tags_come_back_in_alphabetical_order_with_all_their_pairings() {
    let mut conn = open_store();
    let first = save_note_transactional(&mut conn, text_note("#pear #apple", 11)).unwrap();
    let second = save_note_transactional(&mut conn, text_note("#zoo #apple #Mango", 22)).unwrap();
    let tags = get_tags(&conn).unwrap();
    let names: Vec<&str> = tags.iter().map(|t| t.tag.as_str()).collect();
    assert_eq!(names, vec!["#apple", "#mango", "#pear", "#zoo"]);
    assert_eq!(
        tags[0].maps,
        vec![
            TagMap { note_id: second.id, status: TagMapStatus::Active, timestamp: 22 },
            TagMap { note_id: first.id, status: TagMapStatus::Active, timestamp: 11 },
        ]
    );
    assert_eq!(
        tags[2].maps,
        vec![TagMap { note_id: first.id, status: TagMapStatus::Active, timestamp: 11 }]
    );
    for tag in &tags {
        assert!(lenote::coordinator::PALETTE_SIZE == 6);
        assert!(["#34495e", "#8e44ad", "#27ae60", "#3498db", "#c0392b", "#f1c40f"]
            .contains(&tag.color.as_str()));
    }
}

#[test]
fn tag_map_lists_the_most_recent_note_first() {
    let mut conn = open_store();
    let a = save_note_transactional(&mut conn, text_note("one #t", 1)).unwrap();
    let b = save_note_transactional(&mut conn, text_note("two #t", 2)).unwrap();
    let c = save_note_transactional(&mut conn, text_note("three #T", 3)).unwrap();
    let maps = get_tag_map(&conn, "#t").unwrap();
    assert_eq!(maps.iter().map(|m| m.note_id).collect::<Vec<_>>(), vec![c.id, b.id, a.id]);
    assert_eq!(maps.iter().map(|m| m.timestamp).collect::<Vec<_>>(), vec![3, 2, 1]);
}

#[test]
fn unknown_status_in_the_store_is_a_conversion_error() {
    let mut conn = open_store();
    let saved = save_note_transactional(&mut conn, text_note("x #bad", 1)).unwrap();
    conn.execute("UPDATE tag_map SET status = 7 WHERE note_id = ?1", [saved.id]).unwrap();
    assert!(matches!(get_tag_map(&conn, "#bad"), Err(StorageError::Conversion(e)) if e.value == 7));
    assert!(matches!(get_tags(&conn), Err(StorageError::Conversion(e)) if e.value == 7));
}

#[test]
fn unknown_note_type_in_the_store_is_a_conversion_error() {
    let conn = open_store();
    conn.execute("INSERT INTO notes(text, timestamp, note_type) VALUES('x', 1, 5)", []).unwrap();
    assert!(matches!(get_notes(&conn, 1, 1), Err(StorageError::Conversion(e)) if e.value == 5));
}

#[test]
fn image_note_keeps_its_type() {
    let mut conn = open_store();
    let mut note = text_note("/res/images/abc.png", 4);
    note.note_type = NoteType::Image;
    let saved = save_note_transactional(&mut conn, note).unwrap();
    let page = get_notes(&conn, saved.id, saved.id).unwrap();
    assert_eq!(page[0].note_type, NoteType::Image);
    assert_eq!(page[0].tags.len(), 0);
}

#[test]
fn save_tag_map_outside_a_transaction_writes_both_rows() {
    let mut conn = open_store();
    let saved = save_note_transactional(&mut conn, text_note("x #now", 1)).unwrap();
    let map = TagMap { note_id: saved.id, status: TagMapStatus::Archived, timestamp: 1 };
    assert_eq!(save_tag_map(&conn, "#now", &map), Ok(()));
    assert_eq!(get_tag_map(&conn, "#now").unwrap()[0].status, TagMapStatus::Archived);
    assert_eq!(count(&conn, "tag_map_history"), 1);
}

#[test]
fn tags_are_gathered_from_the_500_most_recent_pairings() {
    let mut conn = open_store();
    save_note_transactional(&mut conn, text_note("#old", 0)).unwrap();
    for i in 0..250 {
        save_note_transactional(&mut conn, text_note("#a #b", i)).unwrap();
    }
    let tags = get_tags(&conn).unwrap();
    assert_eq!(tags.iter().map(|t| t.tag.as_str()).collect::<Vec<_>>(), vec!["#a", "#b"]);
    assert_eq!(tags[0].maps.len() + tags[1].maps.len(), 500);
    for tag in &tags {
        for k in 1..tag.maps.len() {
            assert!(tag.maps[k - 1].note_id > tag.maps[k].note_id);
        }
    }
}

#[test]
fn without_tags_nothing_is_asked_of_the_store() {
    let conn = Connection::open_in_memory().unwrap();
    assert_eq!(save_tags(&vec![], &conn), Ok(()));
    let mut note = text_note("no tags here", 3);
    note.id = 12;
    note.tags = vec![String::from("#stale")];
    let saved = save_tags_for_note(note, &conn).unwrap();
    assert_eq!(saved.id, 12);
    assert_eq!(saved.text, "no tags here");
    assert!(saved.tags.is_empty());
    assert!(save_tags_for_note(text_note("one #tag", 3), &conn).is_err());
}

#[test]
fn page_notes_carry_no_client_id() {
    let mut conn = open_store();
    let saved = save_note_transactional(&mut conn, text_note("mine #x", 1)).unwrap();
    assert_eq!(saved.client_id, "nn-1");
    let page = get_notes(&conn, 1, 10).unwrap();
    assert_eq!(page.len(), 1);
    assert_eq!(page[0].client_id, "");
}
