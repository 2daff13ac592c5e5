use crate::models::{Note, NoteType};
use crate::text::to_chars;
use vstd::prelude::*;

verus! {

/// What can happen to the input.
#[derive(Debug)]
pub enum Msg {
    /// Nothing that concerns the input.
    Idle,
    /// The text in the input is now the given one.
    NoteChanged(String),
    Submit,
    /// The store has the note.
    NoteSaved(Note),
    NoteSaveFailed(String),
    /// An image was pasted; the text is its address with the image embedded.
    ImagePasted(String),
}

/// What the input knows.
#[derive(Debug, Clone)]
pub struct State {
    /// The text in the input.
    pub note: String,
    /// The number in the client id of the note that was handed in last.
    pub last_client_note_id: i64,
    pub error: Option<String>,
}

/// What the input asks of its surroundings.
#[derive(Debug, Clone)]
pub enum Effect {
    Nothing,
    /// Post the note to `/api/notes`, hold the request under the note's client id, hand the
    /// answer back as `Msg::NoteSaved` or `Msg::NoteSaveFailed`, and tell everyone that the
    /// note was handed in.
    Submit(Note),
    /// Let go of the request held under the note's client id, tell everyone that the tags
    /// have changed if `tags_changed`, and tell everyone that the note was saved.
    Saved { note: Note, tags_changed: bool },
}

/// What a step comes to: whether the view is to be drawn again, and what is asked.
#[derive(Debug, Clone)]
pub struct Step {
    pub render: bool,
    pub effect: Effect,
}

/// The field in which notes are written.
#[derive(Debug, Clone)]
pub struct NoteInput {
    pub state: State,
}

/// The characters that count as white space.
pub open spec fn is_space(c: char) -> bool {
    let u = c as u32;
    ||| 0x09 <= u <= 0x0d
    ||| u == 0x20
    ||| u == 0x85
    ||| u == 0xa0
    ||| u == 0x1680
    ||| 0x2000 <= u <= 0x200a
    ||| u == 0x2028
    ||| u == 0x2029
    ||| u == 0x202f
    ||| u == 0x205f
    ||| u == 0x3000
}

/// The text holds white space only.
pub open spec fn blank(text: Seq<char>) -> bool {
    forall|i: int| 0 <= i < text.len() ==> is_space(#[trigger] text[i])
}

/// The character of a digit.
pub open spec fn digit(d: nat) -> char {
    ((48 + d % 10) as u8) as char
}

/// A number in decimal digits, without leading zeros.
pub open spec fn digits(n: nat) -> Seq<char>
    decreases n,
{
    if n < 10 {
        seq![digit(n)]
    } else {
        digits(n / 10).push(digit(n % 10))
    }
}

/// A number in decimal digits, with `-` before it where it is negative.
pub open spec fn decimal(n: int) -> Seq<char> {
    if n < 0 {
        seq!['-'] + digits((-n) as nat)
    } else {
        digits(n as nat)
    }
}

/// The client id of the note with the given number.
pub open spec fn spec_client_id(n: int) -> Seq<char> {
    seq!['n', 'n', '-'] + decimal(n)
}

/// The number after `n`, as far as there is one.
pub open spec fn next_number(n: i64) -> i64 {
    if n < i64::MAX {
        (n + 1) as i64
    } else {
        n
    }
}

/// `note` is the note that is handed in under the number `number` with the given text at
/// the time `now`: not yet saved and without tags.
pub open spec fn is_new_note(
    note: Note,
    number: i64,
    text: Seq<char>,
    now: i64,
    note_type: NoteType,
) -> bool {
    &&& note.id == 0
    &&& note.client_id@ == spec_client_id(number as int)
    &&& note.text@ == text
    &&& note.timestamp == now
    &&& note.note_type == note_type
    &&& note.tags@.len() == 0
}

/// `after` and `effect` are what comes of `before` when its text is handed in at `now`.
pub open spec fn text_submitted(
    before: NoteInput,
    now: i64,
    after: NoteInput,
    effect: Effect,
) -> bool {
    &&& after.state.error == before.state.error
    &&& blank(before.state.note@) ==> effect is Nothing && after == before
    &&& !blank(before.state.note@) ==> {
        &&& after.state.note@.len() == 0
        &&& after.state.last_client_note_id == next_number(before.state.last_client_note_id)
        &&& effect matches Effect::Submit(note)
        &&& is_new_note(
            note,
            after.state.last_client_note_id,
            before.state.note@,
            now,
            NoteType::Text,
        )
    }
}

/// `after` and `effect` are what comes of `before` when an image is handed in at `now`.
pub open spec fn image_submitted(
    before: NoteInput,
    img_data: Seq<char>,
    now: i64,
    after: NoteInput,
    effect: Effect,
) -> bool {
    &&& after.state.error == before.state.error
    &&& after.state.note == before.state.note
    &&& after.state.last_client_note_id == next_number(before.state.last_client_note_id)
    &&& effect matches Effect::Submit(note)
    &&& is_new_note(note, after.state.last_client_note_id, img_data, now, NoteType::Image)
}

/// Whether a character counts as white space.
pub fn space(c: char) -> (b: bool)
    ensures
        b == is_space(c),
{
    let u = c as u32;
    (0x09 <= u && u <= 0x0d) || u == 0x20 || u == 0x85 || u == 0xa0 || u == 0x1680 || (0x2000 <= u
        && u <= 0x200a) || u == 0x2028 || u == 0x2029 || u == 0x202f || u == 0x205f || u == 0x3000
}

/// Whether a text holds white space only.
pub fn is_blank(text: &str) -> (b: bool)
    ensures
        b == blank(text@),
{
    let chars = to_chars(text);
    let mut i: usize = 0;
    while i < chars.len()
        invariant
            i <= chars.len(),
            chars@ == text@,
            forall|k: int| 0 <= k < i ==> is_space(#[trigger] chars@[k]),
        decreases chars.len() - i,
    {
        if !space(chars[i]) {
            return false;
        }
        i += 1;
    }
    true
}

/// Appends the decimal digits of a number.
fn push_digits(s: &mut String, n: u64)
    ensures
        final(s)@ == old(s)@ + digits(n as nat),
    decreases n,
{
    if n >= 10 {
        push_digits(s, n / 10);
    }
    s.push((48u8 + (n % 10) as u8) as char);
    assert(s@ =~= old(s)@ + digits(n as nat));
}

/// The client id of the note with the given number: `nn-` and the number.
pub fn client_id(n: i64) -> (id: String)
    ensures
        id@ == spec_client_id(n as int),
{
    let mut id = String::new();
    id.push('n');
    id.push('n');
    id.push('-');
    if n < 0 {
        id.push('-');
        let magnitude: u64 = if n == i64::MIN {
            9223372036854775808u64
        } else {
            (-n) as u64
        };
        push_digits(&mut id, magnitude);
    } else {
        push_digits(&mut id, n as u64);
    }
    assert(id@ =~= spec_client_id(n as int));
    id
}

impl NoteInput {
    /// An empty input that has handed in nothing yet.
    pub fn create() -> (input: Self)
        ensures
            input.state.note@.len() == 0,
            input.state.last_client_note_id == 0,
            input.state.error is None,
    {
        NoteInput { state: State { note: String::new(), last_client_note_id: 0, error: None } }
    }

    /// Takes the next number and makes the note that is handed in under it: not yet saved,
    /// without tags, stamped `now`.
    fn next_note(&mut self, text: String, now: i64, note_type: NoteType) -> (note: Note)
        ensures
            final(self).state.last_client_note_id == next_number(
                old(self).state.last_client_note_id,
            ),
            final(self).state.note == old(self).state.note,
            final(self).state.error == old(self).state.error,
            is_new_note(note, final(self).state.last_client_note_id, text@, now, note_type),
    {
        if self.state.last_client_note_id < i64::MAX {
            self.state.last_client_note_id += 1;
        }
        Note {
            id: 0,
            client_id: client_id(self.state.last_client_note_id),
            text,
            timestamp: now,
            note_type,
            tags: Vec::new(),
        }
    }

    /// Hands in the text of the input as a text note and empties the input; an input that
    /// holds white space only hands in nothing and stays as it is.
    pub fn submit_note(&mut self, now: i64) -> (effect: Effect)
        ensures
            text_submitted(*old(self), now, *final(self), effect),
    {
        if is_blank(self.state.note.as_str()) {
            return Effect::Nothing;
        }
        let text = self.state.note.clone();
        let note = self.next_note(text, now, NoteType::Text);
        self.state.note = String::new();
        Effect::Submit(note)
    }

    /// Hands in a pasted image as an image note; the input keeps its text.
    pub fn submit_image(&mut self, img_data: String, now: i64) -> (effect: Effect)
        ensures
            image_submitted(*old(self), img_data@, now, *final(self), effect),
    {
        let note = self.next_note(img_data, now, NoteType::Image);
        Effect::Submit(note)
    }

    /// Takes in what happened at the time `now`. A change of the text is kept; a call to
    /// submit hands the text in; a pasted image is handed in; a saved note is passed on,
    /// with the news that the tags have changed where it has any; a failure is kept for
    /// display. All of these draw the view again; `Idle` does nothing.
    pub fn update(&mut self, msg: Msg, now: i64) -> (step: Step)
        ensures
            step.render == !(msg is Idle),
            match msg {
                Msg::Idle => *final(self) == *old(self) && step.effect is Nothing,
                Msg::NoteChanged(note) => {
                    &&& final(self).state.note == note
                    &&& final(self).state.last_client_note_id == old(
                        self,
                    ).state.last_client_note_id
                    &&& final(self).state.error == old(self).state.error
                    &&& step.effect is Nothing
                },
                Msg::Submit => text_submitted(*old(self), now, *final(self), step.effect),
                Msg::NoteSaved(note) => {
                    &&& *final(self) == *old(self)
                    &&& step.effect == (Effect::Saved { note, tags_changed: note.tags.len() > 0 })
                },
                Msg::NoteSaveFailed(e) => {
                    &&& final(self).state.error == Some(e)
                    &&& final(self).state.note == old(self).state.note
                    &&& final(self).state.last_client_note_id == old(
                        self,
                    ).state.last_client_note_id
                    &&& step.effect is Nothing
                },
                Msg::ImagePasted(img_data) => image_submitted(
                    *old(self),
                    img_data@,
                    now,
                    *final(self),
                    step.effect,
                ),
            },
    {
        match msg {
            Msg::NoteChanged(note) => {
                self.state.note = note;
                Step { render: true, effect: Effect::Nothing }
            },
            Msg::Submit => {
                let effect = self.submit_note(now);
                Step { render: true, effect }
            },
            Msg::NoteSaved(note) => {
                let tags_changed = note.tags.len() > 0;
                Step { render: true, effect: Effect::Saved { note, tags_changed } }
            },
            Msg::NoteSaveFailed(e) => {
                self.state.error = Some(e);
                Step { render: true, effect: Effect::Nothing }
            },
            Msg::ImagePasted(img_data) => {
                let effect = self.submit_image(img_data, now);
                Step { render: true, effect }
            },
            Msg::Idle => Step { render: false, effect: Effect::Nothing },
        }
    }
}

} // verus!
