use lenote::models::{ConversionError, NoteType, TagMapStatus};

#[test]
fn note_type_from_known_codes() {
    assert_eq!(NoteType::from(0), Ok(NoteType::Text));
    assert_eq!(NoteType::from(1), Ok(NoteType::Image));
}

#[test]
fn note_type_from_unknown_code_fails_with_the_code() {
    assert_eq!(NoteType::from(2), Err(ConversionError { value: 2 }));
    assert_eq!(NoteType::from(-1), Err(ConversionError { value: -1 }));
    assert_eq!(NoteType::from(i32::MAX), Err(ConversionError { value: i32::MAX as i64 }));
    assert_eq!(NoteType::from(i32::MIN), Err(ConversionError { value: i32::MIN as i64 }));
}

#[test]
fn status_from_known_codes() {
    assert_eq!(TagMapStatus::from(0), Ok(TagMapStatus::Active));
    assert_eq!(TagMapStatus::from(1), Ok(TagMapStatus::Archived));
}

#[test]
fn status_from_unknown_code_fails_with_the_code() {
    assert_eq!(TagMapStatus::from(2), Err(ConversionError { value: 2 }));
    assert_eq!(TagMapStatus::from(-7), Err(ConversionError { value: -7 }));
}

#[test]
fn codes_round_trip() {
    for t in [NoteType::Text, NoteType::Image] {
        assert_eq!(NoteType::from(t.code()), Ok(t));
    }
    for s in [TagMapStatus::Active, TagMapStatus::Archived] {
        assert_eq!(TagMapStatus::from(s.code()), Ok(s));
    }
    assert_eq!(NoteType::Text.code(), 0);
    assert_eq!(NoteType::Image.code(), 1);
    assert_eq!(TagMapStatus::Active.code(), 0);
    assert_eq!(TagMapStatus::Archived.code(), 1);
}
