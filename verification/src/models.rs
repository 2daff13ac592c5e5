use vstd::prelude::*;

verus! {

/// A persisted integer that names no variant of the enum it was read for.
#[derive(Debug, Clone, Copy, PartialEq, Eq, Structural)]
pub struct ConversionError {
    /// The integer that could not be converted.
    pub value: i64,
}

/// The kind of content a note carries.
#[derive(Debug, Clone, Copy, PartialEq, Eq, Structural)]
pub enum NoteType {
    Text,
    Image,
}

/// Where the pairing of a tag with a note stands in its lifecycle.
#[derive(Debug, Clone, Copy, PartialEq, Eq, Structural)]
pub enum TagMapStatus {
    Active,
    Archived,
}

impl NoteType {
    /// The integer under which this type is persisted.
    pub open spec fn spec_code(self) -> int {
        match self {
            NoteType::Text => 0,
            NoteType::Image => 1,
        }
    }

    /// The type a persisted integer stands for, if any.
    pub open spec fn spec_from(x: int) -> Option<NoteType> {
        if x == 0 {
            Some(NoteType::Text)
        } else if x == 1 {
            Some(NoteType::Image)
        } else {
            None
        }
    }

    /// Decodes a persisted integer; any integer but 0 and 1 is an error that carries it.
    pub fn from(x: i32) -> (r: Result<Self, ConversionError>)
        ensures
            r == match Self::spec_from(x as int) {
                Some(t) => Ok::<Self, ConversionError>(t),
                None => Err(ConversionError { value: x as i64 }),
            },
    {
        match x {
            0 => Ok(NoteType::Text),
            1 => Ok(NoteType::Image),
            _ => Err(ConversionError { value: x as i64 }),
        }
    }

    /// The integer under which this type is persisted.
    pub fn code(self) -> (c: i32)
        ensures
            c == self.spec_code(),
    {
        match self {
            NoteType::Text => 0,
            NoteType::Image => 1,
        }
    }
}

impl TagMapStatus {
    /// The integer under which this status is persisted.
    pub open spec fn spec_code(self) -> int {
        match self {
            TagMapStatus::Active => 0,
            TagMapStatus::Archived => 1,
        }
    }

    /// The status a persisted integer stands for, if any.
    pub open spec fn spec_from(x: int) -> Option<TagMapStatus> {
        if x == 0 {
            Some(TagMapStatus::Active)
        } else if x == 1 {
            Some(TagMapStatus::Archived)
        } else {
            None
        }
    }

    /// Decodes a persisted integer; any integer but 0 and 1 is an error that carries it.
    pub fn from(x: i32) -> (r: Result<Self, ConversionError>)
        ensures
            r == match Self::spec_from(x as int) {
                Some(s) => Ok::<Self, ConversionError>(s),
                None => Err(ConversionError { value: x as i64 }),
            },
    {
        match x {
            0 => Ok(TagMapStatus::Active),
            1 => Ok(TagMapStatus::Archived),
            _ => Err(ConversionError { value: x as i64 }),
        }
    }

    /// The integer under which this status is persisted.
    pub fn code(self) -> (c: i32)
        ensures
            c == self.spec_code(),
    {
        match self {
            TagMapStatus::Active => 0,
            TagMapStatus::Archived => 1,
        }
    }
}

/// Decoding undoes encoding, for both enums.
pub proof fn lemma_code_round_trip(t: NoteType, s: TagMapStatus)
    ensures
        NoteType::spec_from(t.spec_code()) == Some(t),
        TagMapStatus::spec_from(s.spec_code()) == Some(s),
{
}

/// The views of a list of strings, in order.
pub open spec fn names(v: Seq<String>) -> Seq<Seq<char>> {
    Seq::new(v.len(), |i: int| v[i]@)
}

/// One entry of the journal.
#[derive(Debug, Clone)]
pub struct Note {
    /// Assigned by the store; 0 until the note is saved.
    pub id: i64,
    /// Chosen by the client to recognise its own note when it comes back.
    pub client_id: String,
    /// The raw text; for an image note, the path under which the image is kept.
    pub text: String,
    /// Seconds since the epoch.
    pub timestamp: i64,
    pub note_type: NoteType,
    /// The names of the tags attached to the note, each once.
    pub tags: Vec<String>,
}

/// What a note is, as plain values.
pub struct NoteView {
    pub id: int,
    pub client_id: Seq<char>,
    pub text: Seq<char>,
    pub timestamp: int,
    pub note_type: NoteType,
    pub tags: Seq<Seq<char>>,
}

impl View for Note {
    type V = NoteView;

    open spec fn view(&self) -> NoteView {
        NoteView {
            id: self.id as int,
            client_id: self.client_id@,
            text: self.text@,
            timestamp: self.timestamp as int,
            note_type: self.note_type,
            tags: names(self.tags@),
        }
    }
}

impl NoteView {
    /// The tags as a set.
    pub open spec fn tag_set(self) -> Set<Seq<char>> {
        self.tags.to_set()
    }

    /// No tag is attached twice.
    pub open spec fn wf(self) -> bool {
        self.tags.no_duplicates()
    }

    /// The same note with another list of tags.
    pub open spec fn with_tags(self, tags: Seq<Seq<char>>) -> NoteView {
        NoteView { tags, ..self }
    }
}

/// The pairing of a tag with one note.
#[derive(Debug, Clone, Copy, PartialEq, Eq, Structural)]
pub struct TagMap {
    pub note_id: i64,
    pub status: TagMapStatus,
    /// Seconds since the epoch.
    pub timestamp: i64,
}

/// A tag with the pairings that refer to it.
#[derive(Debug, Clone)]
pub struct Tag {
    /// The name: `#` and what follows it, in lower case.
    pub tag: String,
    /// A display hint.
    pub color: String,
    pub maps: Vec<TagMap>,
}

/// What a tag is, as plain values.
pub struct TagView {
    pub tag: Seq<char>,
    pub color: Seq<char>,
    pub maps: Seq<TagMap>,
}

impl View for Tag {
    type V = TagView;

    open spec fn view(&self) -> TagView {
        TagView { tag: self.tag@, color: self.color@, maps: self.maps@ }
    }
}

} // verus!
