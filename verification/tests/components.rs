use lenote::comm::{NoteEvent, TagEvent};
use lenote::components::note_canvas::{
    find_pending, remove_pending, Effect as CanvasEffect, Msg as CanvasMsg, NoteCanvas,
    Step as CanvasStep, SHOW_NOTE_TIME_MESSAGE_GAP,
};
use lenote::components::note_input::{
    client_id, is_blank, space, Effect as InputEffect, Msg as InputMsg, NoteInput,
};
use lenote::components::tag_map_viewer::{
    lowered, raised, Effect as MapEffect, Msg as MapMsg, Props as MapProps, Step as MapStep,
    TagMapViewer,
};
use lenote::components::tag_summary::{
    Effect as SummaryEffect, Msg as SummaryMsg, Step as SummaryStep, TagSummary,
};
use lenote::components::tag_viewer::{Msg as ViewerMsg, Props as ViewerProps, TagViewer};
use lenote::components::AppRoute;
use lenote::config::AppConfig;
use lenote::models::{Note, NoteType, Tag, TagMap, TagMapStatus};
use lenote::note_store::GetNotesFilter;

fn note(id: i64, client_id: &str, timestamp: i64) -> Note {
    Note {
        id,
        client_id: String::from(client_id),
        text: format!("note {}", id),
        timestamp,
        note_type: NoteType::Text,
        tags: vec![],
    }
}

fn map(note_id: i64, status: TagMapStatus) -> TagMap {
    TagMap { note_id, status, timestamp: 100 }
}

#[test]
fn routes_have_their_paths() {
    assert_eq!(AppRoute::Main.path(), "/app/main");
    assert_eq!(AppRoute::Tag(String::from("todo")).path(), "/app/tag/todo");
    assert_eq!(AppRoute::Tag(String::new()).path(), "/app/tag/");
}

#[test]
fn configuration_defaults_the_port() {
    let config = AppConfig::new(
        String::from("u"),
        String::from("p"),
        String::from("d"),
        None,
        true,
    );
    assert_eq!(config.port, "8080");
    assert_eq!(config.ui, "u");
    assert_eq!(config.pages, "p");
    assert_eq!(config.data, "d");
    assert!(config.slow);
    assert_eq!(config.address(), "127.0.0.1:8080");
    let config = AppConfig::new(
        String::new(),
        String::new(),
        String::new(),
        Some(String::from("9000")),
        false,
    );
    assert_eq!(config.address(), "127.0.0.1:9000");
    assert!(!config.slow);
}

#[test]
fn open_ends_of_a_range_take_the_defaults() {
    assert_eq!(GetNotesFilter { min_id: None, max_id: None }.bounds(), (1, i64::MAX - 1));
    assert_eq!(GetNotesFilter { min_id: Some(7), max_id: None }.bounds(), (7, i64::MAX - 1));
    assert_eq!(GetNotesFilter { min_id: None, max_id: Some(9) }.bounds(), (1, 9));
    assert_eq!(GetNotesFilter { min_id: Some(-3), max_id: Some(-5) }.bounds(), (-3, -5));
}

#[test]
fn tag_viewer_starts_with_active_pairings_only() {
    let viewer = TagViewer::create(ViewerProps { naked_tag: String::from("todo") });
    assert!(viewer.state.tag_map.is_empty());
    assert_eq!(viewer.state.error, None);
    assert!(viewer.should_show(&map(1, TagMapStatus::Active)));
    assert!(!viewer.should_show(&map(1, TagMapStatus::Archived)));
    assert_eq!(viewer.fetch_path(), "/api/tags/todo");
}

#[test]
fn tag_viewer_toggles_and_loads() {
    let mut viewer = TagViewer::create(ViewerProps { naked_tag: String::from("t") });
    assert!(viewer.update(ViewerMsg::ToggleShowActives));
    assert!(viewer.update(ViewerMsg::ToggleShowArchived));
    assert!(!viewer.should_show(&map(1, TagMapStatus::Active)));
    assert!(viewer.should_show(&map(1, TagMapStatus::Archived)));
    assert!(viewer.update(ViewerMsg::ToggleShowActives));
    assert!(viewer.should_show(&map(1, TagMapStatus::Active)));

    let loaded = vec![map(3, TagMapStatus::Active), map(2, TagMapStatus::Active)];
    assert!(viewer.update(ViewerMsg::TagMapLoaded(loaded.clone())));
    assert_eq!(viewer.state.tag_map, loaded);

    assert!(viewer.update(ViewerMsg::TagMapUpdated((1, map(2, TagMapStatus::Archived)))));
    assert_eq!(
        viewer.state.tag_map,
        vec![map(3, TagMapStatus::Active), map(2, TagMapStatus::Archived)]
    );
    assert!(viewer.update(ViewerMsg::TagMapUpdated((2, map(9, TagMapStatus::Archived)))));
    assert_eq!(viewer.state.tag_map.len(), 2);
    assert_eq!(viewer.state.tag_map[1].note_id, 2);

    assert!(viewer.update(ViewerMsg::Error(String::from("boom"))));
    assert_eq!(viewer.state.error, Some(String::from("boom")));
    assert_eq!(viewer.props.naked_tag, "t");
}

#[test]
fn tag_summary_counts_active_pairings() {
    let tag = Tag {
        tag: String::from("#t"),
        color: String::new(),
        maps: vec![
            map(1, TagMapStatus::Active),
            map(2, TagMapStatus::Archived),
            map(3, TagMapStatus::Active),
        ],
    };
    assert_eq!(TagSummary::actives(&tag), 2);
    let none = Tag { tag: String::from("#n"), color: String::new(), maps: vec![] };
    assert_eq!(TagSummary::actives(&none), 0);
    let archived = Tag {
        tag: String::from("#a"),
        color: String::new(),
        maps: vec![map(2, TagMapStatus::Archived)],
    };
    assert_eq!(TagSummary::actives(&archived), 0);
}

#[test]
fn tag_summary_fetches_on_mount_and_on_change() {
    let mut summary = TagSummary::create();
    let fetch = SummaryStep { render: false, effect: SummaryEffect::FetchTags };
    let drawn = SummaryStep { render: true, effect: SummaryEffect::Nothing };
    assert_eq!(summary.mounted(), fetch);
    assert_eq!(summary.handle_tag_event(TagEvent::TagsChanged), fetch);
    assert_eq!(summary.update(SummaryMsg::NewTagEvent(TagEvent::TagsChanged)), fetch);
    let tags = vec![Tag { tag: String::from("#x"), color: String::from("c"), maps: vec![] }];
    assert_eq!(summary.update(SummaryMsg::TagsLoaded(tags)), drawn);
    assert_eq!(summary.state.tags.len(), 1);
    assert_eq!(summary.state.tags[0].tag, "#x");
    assert_eq!(summary.update(SummaryMsg::Error(String::from("e"))), drawn);
    assert_eq!(summary.state.error, Some(String::from("e")));
    assert_eq!(summary.state.tags.len(), 1);
}

#[test]
fn ids_are_kept_within_their_range() {
    assert_eq!(lowered(20, 5), 15);
    assert_eq!(lowered(i64::MIN + 3, 5), i64::MIN);
    assert_eq!(lowered(i64::MAX, -5), i64::MAX);
    assert_eq!(raised(20, 10), 30);
    assert_eq!(raised(i64::MAX - 3, 10), i64::MAX);
    assert_eq!(raised(i64::MIN, -1), i64::MIN);
}

#[test]
fn tag_map_viewer_starts_with_five_notes_on_each_side() {
    let viewer = TagMapViewer::create(MapProps {
        tag_map: map(40, TagMapStatus::Active),
        naked_tag: String::from("t"),
        index: 2,
    });
    assert_eq!(viewer.state.min_note_id, 35);
    assert_eq!(viewer.state.max_note_id, 45);
    assert!(viewer.state.notes.is_empty());
    assert_eq!(viewer.state.status_updating_to, None);
    assert_eq!(
        viewer.mounted(),
        MapStep { render: false, effect: MapEffect::FetchNotes { min_id: 35, max_id: 45 } }
    );
    assert!(viewer.status_button_disabled(TagMapStatus::Active));
    assert!(!viewer.status_button_disabled(TagMapStatus::Archived));
    assert!(viewer.highlights(&note(40, "", 0)));
    assert!(!viewer.highlights(&note(41, "", 0)));
}

#[test]
fn tag_map_viewer_widens_its_context_by_ten() {
    let mut viewer = TagMapViewer::create(MapProps {
        tag_map: map(40, TagMapStatus::Active),
        naked_tag: String::from("t"),
        index: 0,
    });
    assert_eq!(
        viewer.update(MapMsg::MorePrev),
        MapStep { render: false, effect: MapEffect::FetchNotes { min_id: 25, max_id: 45 } }
    );
    assert_eq!(
        viewer.update(MapMsg::MoreNext),
        MapStep { render: false, effect: MapEffect::FetchNotes { min_id: 25, max_id: 55 } }
    );
    assert_eq!(viewer.state.min_note_id, 25);
    assert_eq!(viewer.state.max_note_id, 55);
}

#[test]
fn tag_map_viewer_asks_for_one_status_at_a_time() {
    let mut viewer = TagMapViewer::create(MapProps {
        tag_map: TagMap { note_id: 40, status: TagMapStatus::Active, timestamp: 77 },
        naked_tag: String::from("t"),
        index: 3,
    });
    let asked = TagMap { note_id: 40, status: TagMapStatus::Archived, timestamp: 77 };
    assert_eq!(
        viewer.update(MapMsg::UpdateTagStatus(TagMapStatus::Archived)),
        MapStep { render: true, effect: MapEffect::PostStatus(asked) }
    );
    assert_eq!(viewer.state.status_updating_to, Some(TagMapStatus::Archived));
    assert_eq!(
        viewer.update(MapMsg::UpdateTagStatus(TagMapStatus::Active)),
        MapStep { render: false, effect: MapEffect::AlertPending }
    );
    assert_eq!(viewer.state.status_updating_to, Some(TagMapStatus::Archived));
    assert_eq!(
        viewer.update(MapMsg::Updated(asked)),
        MapStep { render: true, effect: MapEffect::Announce { index: 3, tag_map: asked } }
    );
    assert_eq!(viewer.state.status_updating_to, None);
    assert_eq!(viewer.props.tag_map, asked);
    assert!(viewer.status_button_disabled(TagMapStatus::Archived));
}

#[test]
fn tag_map_viewer_keeps_notes_and_errors() {
    let mut viewer = TagMapViewer::create(MapProps {
        tag_map: map(4, TagMapStatus::Active),
        naked_tag: String::from("t"),
        index: 0,
    });
    let drawn = MapStep { render: true, effect: MapEffect::Nothing };
    assert_eq!(viewer.update(MapMsg::NotesLoaded(vec![note(3, "", 1), note(4, "", 2)])), drawn);
    assert_eq!(viewer.state.notes.len(), 2);
    assert_eq!(viewer.update(MapMsg::Error(String::from("e"))), drawn);
    assert_eq!(viewer.state.error, Some(String::from("e")));
}

#[test]
fn first_note_and_notes_after_a_gap_show_their_time() {
    assert_eq!(SHOW_NOTE_TIME_MESSAGE_GAP, 1800);
    let mut canvas = NoteCanvas::create();
    canvas.update(CanvasMsg::NotesLoaded(vec![
        note(1, "", 1000),
        note(2, "", 2800),
        note(3, "", 4601),
        note(4, "", 0),
        note(5, "", i64::MAX),
        note(6, "", i64::MIN),
        note(7, "", i64::MAX),
    ]));
    let notes = canvas.state.notes.clone();
    assert!(canvas.show_time(&notes[0], 0));
    assert!(!canvas.show_time(&notes[1], 1));
    assert!(canvas.show_time(&notes[2], 2));
    assert!(!canvas.show_time(&notes[3], 3));
    assert!(canvas.show_time(&notes[4], 4));
    assert!(!canvas.show_time(&notes[5], 5));
    assert!(canvas.show_time(&notes[6], 6));
    assert!(canvas.show_time(&notes[3], 0));
    assert!(!canvas.show_time(&note(9, "", 9000), 7));
    assert!(canvas.show_time(&note(9, "", 9000), 4));
    assert!(!canvas.show_time(&note(9, "", 9000), 8));
    assert!(!canvas.show_time(&note(9, "", 9000), usize::MAX));
}

#[test]
fn canvas_replaces_a_pending_note_when_it_is_saved() {
    let mut canvas = NoteCanvas::create();
    assert_eq!(canvas.mounted(), CanvasStep { render: false, effect: CanvasEffect::FetchNotes });
    assert_eq!(
        canvas.update(CanvasMsg::NotesLoaded(vec![note(1, "", 10)])),
        CanvasStep { render: true, effect: CanvasEffect::ScrollSoon }
    );
    assert_eq!(
        canvas.update(CanvasMsg::NewNoteEvent(NoteEvent::NoteSubmitted(note(0, "nn-1", 20)))),
        CanvasStep { render: true, effect: CanvasEffect::ScrollNext }
    );
    assert_eq!(
        canvas.handle_note_event(NoteEvent::NoteSubmitted(note(0, "nn-2", 30))),
        CanvasStep { render: true, effect: CanvasEffect::ScrollNext }
    );
    assert_eq!(canvas.state.notes.len(), 3);
    assert_eq!(find_pending(&canvas.state.pending_notes, &String::from("nn-1")), Some(1));
    assert_eq!(find_pending(&canvas.state.pending_notes, &String::from("nn-2")), Some(2));
    assert_eq!(find_pending(&canvas.state.pending_notes, &String::from("nn-3")), None);

    assert_eq!(
        canvas.handle_note_event(NoteEvent::NoteSaved(note(8, "nn-1", 21))),
        CanvasStep { render: true, effect: CanvasEffect::Nothing }
    );
    assert_eq!(canvas.state.notes.iter().map(|n| n.id).collect::<Vec<_>>(), vec![1, 8, 0]);
    assert_eq!(find_pending(&canvas.state.pending_notes, &String::from("nn-1")), None);
    assert_eq!(find_pending(&canvas.state.pending_notes, &String::from("nn-2")), Some(2));

    canvas.handle_note_event(NoteEvent::NoteSaved(note(99, "nn-1", 21)));
    canvas.handle_note_event(NoteEvent::NoteSaved(note(99, "unknown", 21)));
    assert_eq!(canvas.state.notes.iter().map(|n| n.id).collect::<Vec<_>>(), vec![1, 8, 0]);
}

#[test]
fn canvas_passes_over_a_place_that_is_gone() {
    let mut canvas = NoteCanvas::create();
    canvas.handle_note_event(NoteEvent::NoteSubmitted(note(0, "nn-1", 1)));
    canvas.handle_note_event(NoteEvent::NoteSubmitted(note(0, "nn-2", 2)));
    canvas.update(CanvasMsg::NotesLoaded(vec![note(5, "", 1)]));
    canvas.handle_note_event(NoteEvent::NoteSaved(note(6, "nn-2", 2)));
    assert_eq!(canvas.state.notes.iter().map(|n| n.id).collect::<Vec<_>>(), vec![5]);
    canvas.handle_note_event(NoteEvent::NoteSaved(note(7, "nn-1", 1)));
    assert_eq!(canvas.state.notes.iter().map(|n| n.id).collect::<Vec<_>>(), vec![7]);
}

#[test]
fn of_two_pending_entries_with_one_id_the_later_counts() {
    let mut pending = vec![
        (String::from("a"), 1),
        (String::from("b"), 2),
        (String::from("a"), 3),
    ];
    assert_eq!(find_pending(&pending, &String::from("a")), Some(3));
    assert_eq!(remove_pending(&mut pending, &String::from("a")), Some(3));
    assert_eq!(pending, vec![(String::from("b"), 2)]);
    assert_eq!(remove_pending(&mut pending, &String::from("a")), None);
    assert_eq!(pending, vec![(String::from("b"), 2)]);
}

#[test]
fn canvas_scrolls_and_alerts() {
    let mut canvas = NoteCanvas::create();
    assert_eq!(
        canvas.update(CanvasMsg::ScrollBottom),
        CanvasStep { render: false, effect: CanvasEffect::ScrollToBottom }
    );
    assert_eq!(
        canvas.update(CanvasMsg::Error(String::from("bad"))),
        CanvasStep { render: false, effect: CanvasEffect::Alert(String::from("bad")) }
    );
    assert!(canvas.state.notes.is_empty());
}

#[test]
fn white_space_is_told_apart() {
    for c in [' ', '\t', '\n', '\r', '\u{b}', '\u{c}', '\u{85}', '\u{a0}', '\u{1680}', '\u{2000}',
        '\u{200a}', '\u{2028}', '\u{2029}', '\u{202f}', '\u{205f}', '\u{3000}']
    {
        assert!(space(c));
    }
    for c in ['a', '0', '\u{8}', '\u{e}', '\u{200b}', '\u{feff}', '\u{180e}', '_'] {
        assert!(!space(c));
    }
    for u in 0..0x4000u32 {
        if let Some(c) = char::from_u32(u) {
            assert_eq!(space(c), c.is_whitespace());
        }
    }
    assert!(is_blank(""));
    assert!(is_blank(" \t\r\n\u{3000}"));
    assert!(!is_blank("  x  "));
    for s in ["", " ", "a", " a ", "\n\n", "\u{a0}", "\u{200b}"] {
        assert_eq!(is_blank(s), s.trim().is_empty());
    }
}

#[test]
fn client_ids_are_numbered() {
    assert_eq!(client_id(0), "nn-0");
    assert_eq!(client_id(1), "nn-1");
    assert_eq!(client_id(10), "nn-10");
    assert_eq!(client_id(907), "nn-907");
    assert_eq!(client_id(-45), "nn--45");
    assert_eq!(client_id(i64::MAX), format!("nn-{}", i64::MAX));
    assert_eq!(client_id(i64::MIN), format!("nn-{}", i64::MIN));
}

#[test]
fn input_hands_in_its_text_and_empties_itself() {
    let mut input = NoteInput::create();
    let step = input.update(InputMsg::NoteChanged(String::from("buy milk #todo")), 5);
    assert!(step.render);
    assert!(matches!(step.effect, InputEffect::Nothing));
    assert_eq!(input.state.note, "buy milk #todo");

    let step = input.update(InputMsg::Submit, 1234);
    assert!(step.render);
    match step.effect {
        InputEffect::Submit(note) => {
            assert_eq!(note.id, 0);
            assert_eq!(note.client_id, "nn-1");
            assert_eq!(note.text, "buy milk #todo");
            assert_eq!(note.timestamp, 1234);
            assert_eq!(note.note_type, NoteType::Text);
            assert!(note.tags.is_empty());
        }
        other => panic!("unexpected effect {:?}", other),
    }
    assert_eq!(input.state.note, "");
    assert_eq!(input.state.last_client_note_id, 1);
}

#[test]
fn blank_input_hands_in_nothing() {
    let mut input = NoteInput::create();
    input.update(InputMsg::NoteChanged(String::from("  \n ")), 0);
    let step = input.update(InputMsg::Submit, 9);
    assert!(step.render);
    assert!(matches!(step.effect, InputEffect::Nothing));
    assert_eq!(input.state.note, "  \n ");
    assert_eq!(input.state.last_client_note_id, 0);
    assert!(matches!(input.submit_note(9), InputEffect::Nothing));
}

#[test]
fn pasted_image_is_handed_in_beside_the_text() {
    let mut input = NoteInput::create();
    input.update(InputMsg::NoteChanged(String::from("draft")), 0);
    input.update(InputMsg::Submit, 1);
    input.update(InputMsg::NoteChanged(String::from("next")), 2);
    let step = input.update(InputMsg::ImagePasted(String::from("data:image/png;base64,AA==")), 77);
    assert!(step.render);
    match step.effect {
        InputEffect::Submit(note) => {
            assert_eq!(note.client_id, "nn-2");
            assert_eq!(note.text, "data:image/png;base64,AA==");
            assert_eq!(note.timestamp, 77);
            assert_eq!(note.note_type, NoteType::Image);
        }
        other => panic!("unexpected effect {:?}", other),
    }
    assert_eq!(input.state.note, "next");
    assert_eq!(input.state.last_client_note_id, 2);
}

#[test]
fn numbering_stops_at_the_greatest_number() {
    let mut input = NoteInput::create();
    input.state.last_client_note_id = i64::MAX;
    match input.submit_image(String::from("x"), 0) {
        InputEffect::Submit(note) => assert_eq!(note.client_id, format!("nn-{}", i64::MAX)),
        other => panic!("unexpected effect {:?}", other),
    }
    assert_eq!(input.state.last_client_note_id, i64::MAX);
}

#[test]
fn saved_note_is_passed_on_with_the_news_of_its_tags() {
    let mut input = NoteInput::create();
    let mut saved = note(4, "nn-1", 1);
    saved.tags = vec![String::from("#t")];
    let step = input.update(InputMsg::NoteSaved(saved), 0);
    assert!(step.render);
    assert!(matches!(
        step.effect,
        InputEffect::Saved { ref note, tags_changed: true } if note.id == 4
    ));
    let step = input.update(InputMsg::NoteSaved(note(5, "nn-2", 1)), 0);
    assert!(matches!(step.effect, InputEffect::Saved { tags_changed: false, .. }));

    let step = input.update(InputMsg::NoteSaveFailed(String::from("down")), 0);
    assert!(step.render);
    assert_eq!(input.state.error, Some(String::from("down")));

    let step = input.update(InputMsg::Idle, 0);
    assert!(!step.render);
    assert!(matches!(step.effect, InputEffect::Nothing));
}
