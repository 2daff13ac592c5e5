use lenote::models::{Note, NoteType};
use lenote::page::{assemble_page, attach_tag, check_selection, PAGE_LIMIT};

fn note(id: i64, text: &str) -> Note {
    Note {
        id,
        client_id: String::new(),
        text: String::from(text),
        timestamp: id * 10,
        note_type: NoteType::Text,
        tags: vec![],
    }
}

fn pair(id: i64, tag: &str) -> (i64, String) {
    (id, String::from(tag))
}

#[test]
fn page_turns_the_selection_round() {
    let page = assemble_page(vec![note(9, "c"), note(5, "b"), note(2, "a")], &vec![]);
    assert_eq!(page.iter().map(|n| n.id).collect::<Vec<_>>(), vec![2, 5, 9]);
    assert_eq!(page.iter().map(|n| n.text.as_str()).collect::<Vec<_>>(), vec!["a", "b", "c"]);
    assert_eq!(page.iter().map(|n| n.timestamp).collect::<Vec<_>>(), vec![20, 50, 90]);
    assert!(page.iter().all(|n| n.tags.is_empty()));
}

#[test]
fn page_of_nothing_is_empty() {
    assert_eq!(assemble_page(vec![], &vec![pair(1, "#a")]).len(), 0);
}

#[test]
fn each_pair_goes_to_the_note_of_its_id() {
    let pairs = vec![pair(5, "#x"), pair(2, "#y"), pair(5, "#z"), pair(9, "#x")];
    let page = assemble_page(vec![note(9, "c"), note(5, "b"), note(2, "a")], &pairs);
    assert_eq!(page[0].tags, vec!["#y"]);
    assert_eq!(page[1].tags, vec!["#x", "#z"]);
    assert_eq!(page[2].tags, vec!["#x"]);
}

#[test]
fn a_tag_named_twice_is_attached_once() {
    let pairs = vec![pair(1, "#a"), pair(1, "#a"), pair(1, "#b"), pair(1, "#a")];
    let page = assemble_page(vec![note(1, "n")], &pairs);
    assert_eq!(page[0].tags, vec!["#a", "#b"]);
}

#[test]
fn a_pair_for_an_unknown_id_is_passed_over() {
    let page = assemble_page(vec![note(1, "n")], &vec![pair(2, "#a"), pair(-1, "#b")]);
    assert_eq!(page.len(), 1);
    assert!(page[0].tags.is_empty());
}

#[test]
fn of_two_notes_with_one_id_the_later_takes_the_pairs() {
    let page = assemble_page(vec![note(3, "first"), note(3, "second")], &vec![pair(3, "#t")]);
    assert_eq!(page[0].text, "second");
    assert_eq!(page[0].tags, vec!["#t"]);
    assert_eq!(page[1].text, "first");
    assert!(page[1].tags.is_empty());
}

#[test]
fn tags_a_note_came_with_are_kept() {
    let mut n = note(1, "n");
    n.tags = vec![String::from("#old")];
    let page = assemble_page(vec![n], &vec![pair(1, "#new"), pair(1, "#old")]);
    assert_eq!(page[0].tags, vec!["#old", "#new"]);
}

#[test]
fn attach_tag_adds_a_new_tag_and_skips_a_known_one() {
    let mut n = note(1, "n");
    attach_tag(&mut n, &String::from("#a"));
    attach_tag(&mut n, &String::from("#b"));
    attach_tag(&mut n, &String::from("#a"));
    assert_eq!(n.tags, vec!["#a", "#b"]);
    assert_eq!(n.id, 1);
    assert_eq!(n.text, "n");
}

#[test]
fn selection_must_fall_within_the_range_and_the_limit() {
    assert_eq!(PAGE_LIMIT, 500);
    assert!(check_selection(&vec![], 1, 10));
    assert!(check_selection(&vec![note(9, "c"), note(5, "b"), note(2, "a")], 2, 9));
    assert!(!check_selection(&vec![note(9, "c"), note(5, "b"), note(2, "a")], 3, 9));
    assert!(!check_selection(&vec![note(9, "c"), note(5, "b"), note(2, "a")], 2, 8));
    assert!(!check_selection(&vec![note(5, "b"), note(9, "c")], 1, 10));
    assert!(!check_selection(&vec![note(5, "b"), note(5, "c")], 1, 10));
    assert!(check_selection(&vec![note(i64::MAX, "b"), note(i64::MIN, "c")], i64::MIN, i64::MAX));
    let full: Vec<Note> = (0..500).map(|i| note(1000 - i, "n")).collect();
    assert!(check_selection(&full, 1, 1000));
    let over: Vec<Note> = (0..501).map(|i| note(1000 - i, "n")).collect();
    assert!(!check_selection(&over, 1, 1000));
}
