use lenote::hashtag::{naked_name, parse_tags, tag_char, tag_name, to_lower};
use regex::Regex;
use std::collections::HashSet;

fn tags_by_pattern(pattern: &Regex, text: &str) -> HashSet<String> {
    let mut result = HashSet::new();
    for captures in pattern.captures_iter(text) {
        for c in captures.iter() {
            if let Some(found) = c {
                result.insert(found.as_str().to_ascii_lowercase());
            }
        }
    }
    result
}

#[test]
fn tags_are_case_folded_and_deduplicated() {
    assert_eq!(parse_tags("hello #foo and #FOO again #bar-1"), vec!["#foo", "#bar-1"]);
}

#[test]
fn tags_of_a_shopping_note() {
    assert_eq!(parse_tags("Buy milk #todo #home"), vec!["#todo", "#home"]);
}

#[test]
fn text_without_tags_has_none() {
    assert_eq!(parse_tags(""), Vec::<String>::new());
    assert_eq!(parse_tags("no tags here"), Vec::<String>::new());
    assert_eq!(parse_tags("#"), Vec::<String>::new());
    assert_eq!(parse_tags("a # b ## #! #"), Vec::<String>::new());
}

#[test]
fn tag_ends_at_the_first_character_outside_the_alphabet() {
    assert_eq!(parse_tags("#a.b"), vec!["#a"]);
    assert_eq!(parse_tags("#under_score-and-9!rest"), vec!["#under_score-and-9"]);
    assert_eq!(parse_tags("x#mid,#end"), vec!["#mid", "#end"]);
    assert_eq!(parse_tags("##double"), vec!["#double"]);
    assert_eq!(parse_tags("#one#two"), vec!["#one", "#two"]);
    assert_eq!(parse_tags("#caf\u{e9}"), vec!["#caf"]);
    assert_eq!(parse_tags("\u{e9}#\u{e9}t\u{e9} #\u{4e2d}x #ok\u{4e2d}"), vec!["#ok"]);
    assert_eq!(parse_tags("#-"), vec!["#-"]);
    assert_eq!(parse_tags("#_ #9"), vec!["#_", "#9"]);
}

#[test]
fn tags_keep_the_order_of_first_occurrence() {
    assert_eq!(parse_tags("#b #a #B #c #A"), vec!["#b", "#a", "#c"]);
}

#[test]
fn tag_alphabet() {
    for c in ['a', 'z', 'A', 'Z', '0', '9', '-', '_'] {
        assert!(tag_char(c));
    }
    for c in ['#', ' ', '.', '@', '[', '`', '{', '/', ':', '\u{e9}', '\n'] {
        assert!(!tag_char(c));
    }
}

#[test]
fn folding_touches_ascii_capitals_only() {
    assert_eq!(to_lower('A'), 'a');
    assert_eq!(to_lower('Z'), 'z');
    assert_eq!(to_lower('m'), 'm');
    assert_eq!(to_lower('5'), '5');
    assert_eq!(to_lower('@'), '@');
    assert_eq!(to_lower('['), '[');
    assert_eq!(to_lower('\u{c9}'), '\u{c9}');
}

#[test]
fn scan_agrees_with_the_pattern_on_tags() {
    let pieces = ["#", "a", "B", "9", "-", "_", " ", ".", "\u{e9}", "##", "#Ab", "\n", "#a"];
    let mut samples: Vec<String> = vec![String::new()];
    for a in pieces {
        samples.push(String::from(a));
        for b in pieces {
            samples.push(format!("{}{}", a, b));
            for c in pieces {
                samples.push(format!("{}{}{}", a, b, c));
                for d in pieces {
                    samples.push(format!("{}{}{}{}", a, b, c, d));
                }
            }
        }
    }
    samples.push(String::from("hello #foo and #FOO again #bar-1"));
    samples.push(String::from("Buy milk #todo #home"));
    let pattern = Regex::new(r"#[a-zA-Z0-9\-_]+").unwrap();
    for s in &samples {
        let scanned = parse_tags(s);
        let as_set: HashSet<String> = scanned.iter().cloned().collect();
        assert_eq!(as_set.len(), scanned.len());
        assert_eq!(as_set, tags_by_pattern(&pattern, s));
    }
}

#[test]
fn every_tag_has_the_shape_of_a_name() {
    for tag in parse_tags("#A #b-C_9 x#Z#y ##q #---") {
        assert!(tag.len() >= 2);
        assert!(tag.starts_with('#'));
        assert!(tag[1..].chars().all(|c| c.is_ascii_lowercase()
            || c.is_ascii_digit()
            || c == '-'
            || c == '_'));
    }
}

#[test]
fn extraction_is_the_same_for_text_in_any_case() {
    assert_eq!(parse_tags("#Todo #HOME #todo"), parse_tags("#todo #home #TODO"));
}

#[test]
fn tag_name_puts_the_hash_before() {
    assert_eq!(tag_name("todo"), "#todo");
    assert_eq!(tag_name(""), "#");
    assert_eq!(tag_name("#x"), "##x");
}

#[test]
fn naked_name_drops_the_first_character() {
    assert_eq!(naked_name("#todo"), "todo");
    assert_eq!(naked_name("#"), "");
    assert_eq!(naked_name(""), "");
    assert_eq!(naked_name("\u{e9}t\u{e9}"), "t\u{e9}");
    assert_eq!(naked_name(&tag_name("home")), "home");
}
