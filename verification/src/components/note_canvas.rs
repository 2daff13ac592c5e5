use crate::comm::NoteEvent;
use crate::models::Note;
use vstd::prelude::*;

verus! {

/// The gap in seconds between two notes from which on the later one shows its time.
pub const SHOW_NOTE_TIME_MESSAGE_GAP: i64 = 1800;

/// What the canvas knows.
#[derive(Debug, Clone)]
pub struct State {
    pub notes: Vec<Note>,
    /// For each note that was handed in and is not yet saved: its client id and its place
    /// among the notes. Of two entries with one client id the later one counts.
    pub pending_notes: Vec<(String, usize)>,
}

/// What can happen to the canvas.
#[derive(Debug)]
pub enum Msg {
    NewNoteEvent(NoteEvent),
    /// The notes have arrived.
    NotesLoaded(Vec<Note>),
    ScrollBottom,
    Error(String),
}

/// What the canvas asks of its surroundings.
#[derive(Debug, Clone, PartialEq, Eq)]
pub enum Effect {
    Nothing,
    /// Fetch the notes from `/api/notes` and hand them back as `Msg::NotesLoaded`.
    FetchNotes,
    /// Hand back `Msg::ScrollBottom` after 150 milliseconds, when the notes are drawn.
    ScrollSoon,
    /// Hand back `Msg::ScrollBottom` at the next turn.
    ScrollNext,
    /// Scroll the canvas to its end.
    ScrollToBottom,
    /// Show the text to the user.
    Alert(String),
}

/// What a step comes to: whether the view is to be drawn again, and what is asked.
#[derive(Debug, Clone, PartialEq, Eq)]
pub struct Step {
    pub render: bool,
    pub effect: Effect,
}

/// The notes of the journal, oldest first, with those that are on their way to the store.
#[derive(Debug, Clone)]
pub struct NoteCanvas {
    pub state: State,
}

/// The place that each client id stands for: that of the last entry with the id.
pub open spec fn pending_map(pending: Seq<(String, usize)>) -> Map<Seq<char>, usize>
    decreases pending.len(),
{
    if pending.len() == 0 {
        Map::empty()
    } else {
        pending_map(pending.drop_last()).insert(pending.last().0@, pending.last().1)
    }
}

/// The place that a client id stands for, if it stands for one.
pub open spec fn pending_place(pending: Seq<(String, usize)>, client_id: Seq<char>) -> Option<
    usize,
> {
    if pending_map(pending).contains_key(client_id) {
        Some(pending_map(pending)[client_id])
    } else {
        None
    }
}

/// Whether a note at place `index` shows its time: the first note does, and a note with a
/// time that comes more than the gap after the note before it.
pub open spec fn shows_time(notes: Seq<Note>, note: Note, index: int) -> bool {
    index == 0 || (note.timestamp > 0 && 0 < index <= notes.len() && note.timestamp - notes[index
        - 1].timestamp > SHOW_NOTE_TIME_MESSAGE_GAP)
}

/// `after` and `step` are what comes of `before` when the event of a note is taken in.
pub open spec fn handled(before: NoteCanvas, e: NoteEvent, after: NoteCanvas, step: Step) -> bool {
    &&& step.render
    &&& match e {
        NoteEvent::NoteSubmitted(note) => {
            &&& after.state.notes@ == before.state.notes@.push(note)
            &&& pending_map(after.state.pending_notes@) == pending_map(
                before.state.pending_notes@,
            ).insert(note.client_id@, before.state.notes.len())
            &&& step.effect == Effect::ScrollNext
        },
        NoteEvent::NoteSaved(note) => {
            &&& pending_map(after.state.pending_notes@) == pending_map(
                before.state.pending_notes@,
            ).remove(note.client_id@)
            &&& after.state.notes@ == (match pending_place(
                before.state.pending_notes@,
                note.client_id@,
            ) {
                Some(place) if place < before.state.notes.len() => before.state.notes@.update(
                    place as int,
                    note,
                ),
                _ => before.state.notes@,
            })
            &&& step.effect == Effect::Nothing
        },
    }
}

/// The place that a client id stands for, if it stands for one.
pub fn find_pending(pending: &Vec<(String, usize)>, client_id: &String) -> (place: Option<usize>)
    ensures
        place == pending_place(pending@, client_id@),
{
    let mut i: usize = pending.len();
    assert(pending@.take(i as int) =~= pending@);
    while i > 0
        invariant
            i <= pending.len(),
            pending_place(pending@, client_id@) == pending_place(
                pending@.take(i as int),
                client_id@,
            ),
        decreases i,
    {
        let ghost head = pending@.take(i as int);
        assert(head.drop_last() =~= pending@.take(i - 1));
        assert(head.last() == pending@[i - 1]);
        if pending[i - 1].0 == *client_id {
            return Some(pending[i - 1].1);
        }
        i -= 1;
    }
    None
}

/// Takes out every entry with the client id, and returns the place that the id stood for.
pub fn remove_pending(pending: &mut Vec<(String, usize)>, client_id: &String) -> (place: Option<
    usize,
>)
    ensures
        place == pending_place(old(pending)@, client_id@),
        pending_map(final(pending)@) == pending_map(old(pending)@).remove(client_id@),
{
    let place = find_pending(pending, client_id);
    let ghost all = pending@;
    let mut kept: Vec<(String, usize)> = Vec::new();
    let mut i: usize = 0;
    assert(all.take(0) =~= Seq::empty());
    assert(pending_map(kept@) =~= pending_map(all.take(0)).remove(client_id@));
    while i < pending.len()
        invariant
            i <= pending.len(),
            all == pending@,
            pending_map(kept@) == pending_map(all.take(i as int)).remove(client_id@),
        decreases pending.len() - i,
    {
        let ghost head = all.take(i + 1);
        assert(head.drop_last() =~= all.take(i as int));
        assert(head.last() == all[i as int]);
        if pending[i].0 != *client_id {
            let ghost before = kept@;
            kept.push((pending[i].0.clone(), pending[i].1));
            assert(kept@.drop_last() =~= before);
            assert(pending_map(kept@) =~= pending_map(head).remove(client_id@));
        } else {
            assert(pending_map(kept@) =~= pending_map(head).remove(client_id@));
        }
        i += 1;
    }
    assert(all.take(i as int) =~= all);
    *pending = kept;
    place
}

impl NoteCanvas {
    /// A canvas without notes.
    pub fn create() -> (canvas: Self)
        ensures
            canvas.state.notes@.len() == 0,
            canvas.state.pending_notes@.len() == 0,
    {
        NoteCanvas { state: State { notes: Vec::new(), pending_notes: Vec::new() } }
    }

    /// Once mounted the canvas fetches the notes, and is not drawn again for that.
    pub fn mounted(&self) -> (step: Step)
        ensures
            step == (Step { render: false, effect: Effect::FetchNotes }),
    {
        Step { render: false, effect: Effect::FetchNotes }
    }

    /// Whether `note`, drawn at place `index`, shows its time.
    pub fn show_time(&self, note: &Note, index: usize) -> (show: bool)
        ensures
            show == shows_time(self.state.notes@, *note, index as int),
    {
        if index == 0 {
            return true;
        }
        if note.timestamp <= 0 || index > self.state.notes.len() {
            return false;
        }
        let gap: i128 = note.timestamp as i128 - self.state.notes[index - 1].timestamp as i128;
        gap > SHOW_NOTE_TIME_MESSAGE_GAP as i128
    }

    /// Takes in what happened to a note. A note that was handed in goes to the end of the
    /// notes, is remembered under its client id, and the canvas scrolls to it at the next
    /// turn. A note that was saved takes the place remembered under its client id, and the
    /// id is forgotten; where nothing is remembered under it, or the place is gone, the
    /// notes stay as they are.
    pub fn handle_note_event(&mut self, e: NoteEvent) -> (step: Step)
        ensures
            handled(*old(self), e, *final(self), step),
    {
        match e {
            NoteEvent::NoteSubmitted(note) => {
                let client_id = note.client_id.clone();
                let place = self.state.notes.len();
                let ghost before = self.state.pending_notes@;
                self.state.notes.push(note);
                self.state.pending_notes.push((client_id, place));
                assert(self.state.pending_notes@.drop_last() =~= before);
                Step { render: true, effect: Effect::ScrollNext }
            },
            NoteEvent::NoteSaved(note) => {
                match remove_pending(&mut self.state.pending_notes, &note.client_id) {
                    Some(place) => {
                        if place < self.state.notes.len() {
                            self.state.notes.set(place, note);
                        }
                    },
                    None => {},
                }
                Step { render: true, effect: Effect::Nothing }
            },
        }
    }

    /// Takes in what happened. An event of a note is handled as such; loaded notes take the
    /// place of those held, and the canvas scrolls to its end once they are drawn; a call
    /// to scroll is carried out; an error is shown to the user.
    pub fn update(&mut self, msg: Msg) -> (step: Step)
        ensures
            match msg {
                Msg::NewNoteEvent(e) => handled(*old(self), e, *final(self), step),
                Msg::ScrollBottom => {
                    &&& *final(self) == *old(self)
                    &&& step == (Step { render: false, effect: Effect::ScrollToBottom })
                },
                Msg::NotesLoaded(notes) => {
                    &&& final(self).state.notes == notes
                    &&& final(self).state.pending_notes == old(self).state.pending_notes
                    &&& step == (Step { render: true, effect: Effect::ScrollSoon })
                },
                Msg::Error(e) => {
                    &&& *final(self) == *old(self)
                    &&& step == (Step { render: false, effect: Effect::Alert(e) })
                },
            },
    {
        match msg {
            Msg::NewNoteEvent(e) => self.handle_note_event(e),
            Msg::ScrollBottom => Step { render: false, effect: Effect::ScrollToBottom },
            Msg::NotesLoaded(notes) => {
                self.state.notes = notes;
                Step { render: true, effect: Effect::ScrollSoon }
            },
            Msg::Error(e) => Step { render: false, effect: Effect::Alert(e) },
        }
    }
}

} // verus!
