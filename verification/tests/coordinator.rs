use lenote::coordinator::{pick_color, tag_for_note, tags_for_note, PALETTE_SIZE};
use lenote::models::{Note, NoteType, TagMap, TagMapStatus};
use lenote::system::{now, timestamp_from};

const PALETTE: [&str; 6] = ["#34495e", "#8e44ad", "#27ae60", "#3498db", "#c0392b", "#f1c40f"];

#[test]
fn draw_picks_the_colour_at_its_remainder() {
    assert_eq!(PALETTE_SIZE, 6);
    for draw in 0..20 {
        assert_eq!(pick_color(draw), PALETTE[draw % 6]);
    }
    assert_eq!(pick_color(usize::MAX), PALETTE[usize::MAX % 6]);
}

#[test]
fn tag_for_a_note_starts_with_one_active_pairing() {
    let tag = tag_for_note(&String::from("#todo"), 8, 42, 1700);
    assert_eq!(tag.tag, "#todo");
    assert_eq!(tag.color, "#27ae60");
    assert_eq!(
        tag.maps,
        vec![TagMap { note_id: 42, status: TagMapStatus::Active, timestamp: 1700 }]
    );
}

#[test]
fn tags_for_a_note_follow_its_tag_names() {
    let note = Note {
        id: 5,
        client_id: String::new(),
        text: String::from("ignored"),
        timestamp: 60,
        note_type: NoteType::Text,
        tags: vec![String::from("#b"), String::from("#a")],
    };
    let tags = tags_for_note(&note);
    assert_eq!(tags.iter().map(|t| t.tag.as_str()).collect::<Vec<_>>(), vec!["#b", "#a"]);
    for tag in &tags {
        assert!(PALETTE.contains(&tag.color.as_str()));
        assert_eq!(
            tag.maps,
            vec![TagMap { note_id: 5, status: TagMapStatus::Active, timestamp: 60 }]
        );
    }
}

#[test]
fn colours_are_drawn_anew_for_each_tag() {
    let note = Note {
        id: 1,
        client_id: String::new(),
        text: String::new(),
        timestamp: 0,
        note_type: NoteType::Text,
        tags: (0..400).map(|i| format!("#t{}", i)).collect(),
    };
    let tags = tags_for_note(&note);
    let first = tags[0].color.clone();
    assert!(tags.iter().any(|t| t.color != first));
}

#[test]
fn now_is_after_the_year_2001() {
    assert!(now() > 1_000_000_000);
}

#[test]
fn reading_of_the_clock_becomes_a_timestamp() {
    assert_eq!(timestamp_from(Some(0)), 0);
    assert_eq!(timestamp_from(Some(1_700_000_000)), 1_700_000_000);
    assert_eq!(timestamp_from(Some(i64::MAX as u64)), i64::MAX);
    assert_eq!(timestamp_from(Some(i64::MAX as u64 + 1)), i64::MAX);
    assert_eq!(timestamp_from(Some(u64::MAX)), i64::MAX);
    assert_eq!(timestamp_from(None), 0);
}
