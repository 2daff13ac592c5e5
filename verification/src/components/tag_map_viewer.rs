use crate::models::{Note, TagMap, TagMapStatus};
use vstd::prelude::*;

verus! {

/// How many notes on each side of a pairing's note are shown at first.
pub const CONTEXT: i64 = 5;

/// By how many notes the context grows on one side when more is asked for.
pub const MORE: i64 = 10;

/// What the viewer of one pairing is set up with.
#[derive(Debug, Clone)]
pub struct Props {
    pub tag_map: TagMap,
    /// The tag's name without its `#`.
    pub naked_tag: String,
    /// The place of the pairing in the list that it is shown in.
    pub index: usize,
}

/// What can happen to the viewer.
#[derive(Debug)]
pub enum Msg {
    /// The notes around the pairing's note have arrived.
    NotesLoaded(Vec<Note>),
    Error(String),
    /// The user asks for the given status.
    UpdateTagStatus(TagMapStatus),
    MorePrev,
    MoreNext,
    /// The store has changed the pairing to the given one.
    Updated(TagMap),
}

/// What the viewer knows.
#[derive(Debug, Clone)]
pub struct State {
    pub min_note_id: i64,
    pub max_note_id: i64,
    pub notes: Vec<Note>,
    pub error: Option<String>,
    /// The status that was asked for and is not yet confirmed.
    pub status_updating_to: Option<TagMapStatus>,
}

/// What the viewer asks of its surroundings.
#[derive(Debug, Clone, Copy, PartialEq, Eq, Structural)]
pub enum Effect {
    Nothing,
    /// Fetch the notes with an id from `min_id` to `max_id` and hand them back as
    /// `Msg::NotesLoaded`.
    FetchNotes { min_id: i64, max_id: i64 },
    /// Tell the user that a change of status is still under way.
    AlertPending,
    /// Post the pairing to the store and hand its answer back as `Msg::Updated`.
    PostStatus(TagMap),
    /// Tell the owner of the list that the pairing at `index` is now `tag_map`, and tell
    /// everyone that the tags have changed.
    Announce { index: usize, tag_map: TagMap },
}

/// What a step comes to: whether the view is to be drawn again, and what is asked.
#[derive(Debug, Clone, Copy, PartialEq, Eq, Structural)]
pub struct Step {
    pub render: bool,
    pub effect: Effect,
}

/// The viewer of one pairing: its status, and the notes around its note.
#[derive(Debug, Clone)]
pub struct TagMapViewer {
    pub state: State,
    pub props: Props,
}

/// `id - by`, or the least id where that is out of reach.
pub open spec fn lower(id: i64, by: i64) -> i64 {
    if id - by < i64::MIN {
        i64::MIN
    } else if id - by > i64::MAX {
        i64::MAX
    } else {
        (id - by) as i64
    }
}

/// `id + by`, or the greatest id where that is out of reach.
pub open spec fn raise(id: i64, by: i64) -> i64 {
    if id + by > i64::MAX {
        i64::MAX
    } else if id + by < i64::MIN {
        i64::MIN
    } else {
        (id + by) as i64
    }
}

/// `id - by`, kept within the ids.
pub fn lowered(id: i64, by: i64) -> (r: i64)
    ensures
        r == lower(id, by),
{
    let wide: i128 = id as i128 - by as i128;
    if wide < i64::MIN as i128 {
        i64::MIN
    } else if wide > i64::MAX as i128 {
        i64::MAX
    } else {
        wide as i64
    }
}

/// `id + by`, kept within the ids.
pub fn raised(id: i64, by: i64) -> (r: i64)
    ensures
        r == raise(id, by),
{
    let wide: i128 = id as i128 + by as i128;
    if wide > i64::MAX as i128 {
        i64::MAX
    } else if wide < i64::MIN as i128 {
        i64::MIN
    } else {
        wide as i64
    }
}

impl TagMapViewer {
    /// A viewer that has loaded nothing yet, with the context of its pairing's note.
    pub fn create(props: Props) -> (viewer: Self)
        ensures
            viewer.props == props,
            viewer.state.min_note_id == lower(props.tag_map.note_id, CONTEXT),
            viewer.state.max_note_id == raise(props.tag_map.note_id, CONTEXT),
            viewer.state.notes@.len() == 0,
            viewer.state.error is None,
            viewer.state.status_updating_to is None,
    {
        let min_note_id = lowered(props.tag_map.note_id, CONTEXT);
        let max_note_id = raised(props.tag_map.note_id, CONTEXT);
        TagMapViewer {
            state: State {
                min_note_id,
                max_note_id,
                notes: Vec::new(),
                error: None,
                status_updating_to: None,
            },
            props,
        }
    }

    /// The request for the notes of the present context.
    pub fn fetch_notes(&self) -> (effect: Effect)
        ensures
            effect == (Effect::FetchNotes {
                min_id: self.state.min_note_id,
                max_id: self.state.max_note_id,
            }),
    {
        Effect::FetchNotes { min_id: self.state.min_note_id, max_id: self.state.max_note_id }
    }

    /// Once mounted the viewer fetches its notes, and is not drawn again for that.
    pub fn mounted(&self) -> (step: Step)
        ensures
            step == (Step {
                render: false,
                effect: Effect::FetchNotes {
                    min_id: self.state.min_note_id,
                    max_id: self.state.max_note_id,
                },
            }),
    {
        Step { render: false, effect: self.fetch_notes() }
    }

    /// Whether the button for a status is out of use: the pairing has that status already.
    pub fn status_button_disabled(&self, target_status: TagMapStatus) -> (disabled: bool)
        ensures
            disabled == (self.props.tag_map.status == target_status),
    {
        self.props.tag_map.status == target_status
    }

    /// Whether a note is the one of the pairing, which is shown highlighted.
    pub fn highlights(&self, note: &Note) -> (highlight: bool)
        ensures
            highlight == (note.id == self.props.tag_map.note_id),
    {
        note.id == self.props.tag_map.note_id
    }

    /// Asks the store for a change of status, unless one is still under way: then the user
    /// is told so and nothing changes. The pairing that is posted is the present one with
    /// the status asked for.
    pub fn update_status(&mut self, status: TagMapStatus) -> (step: Step)
        ensures
            final(self).props == old(self).props,
            final(self).state.min_note_id == old(self).state.min_note_id,
            final(self).state.max_note_id == old(self).state.max_note_id,
            final(self).state.notes == old(self).state.notes,
            final(self).state.error == old(self).state.error,
            old(self).state.status_updating_to is Some ==> {
                &&& final(self).state.status_updating_to == old(self).state.status_updating_to
                &&& step == (Step { render: false, effect: Effect::AlertPending })
            },
            old(self).state.status_updating_to is None ==> {
                &&& final(self).state.status_updating_to == Some(status)
                &&& step == (Step {
                    render: true,
                    effect: Effect::PostStatus(
                        TagMap {
                            note_id: old(self).props.tag_map.note_id,
                            status,
                            timestamp: old(self).props.tag_map.timestamp,
                        },
                    ),
                })
            },
    {
        if self.state.status_updating_to.is_some() {
            return Step { render: false, effect: Effect::AlertPending };
        }
        self.state.status_updating_to = Some(status);
        let payload = TagMap {
            note_id: self.props.tag_map.note_id,
            status,
            timestamp: self.props.tag_map.timestamp,
        };
        Step { render: true, effect: Effect::PostStatus(payload) }
    }

    /// Takes in what happened. Loaded notes take the place of those held; an error is kept
    /// for display; a status asked for goes to the store; asking for more widens the context
    /// by ten ids on that side and fetches again; a confirmed pairing takes the place of
    /// the present one, ends the wait, and is announced.
    pub fn update(&mut self, msg: Msg) -> (step: Step)
        ensures
            match msg {
                Msg::NotesLoaded(notes) => {
                    &&& final(self).state.notes == notes
                    &&& final(self).state.min_note_id == old(self).state.min_note_id
                    &&& final(self).state.max_note_id == old(self).state.max_note_id
                    &&& final(self).state.error == old(self).state.error
                    &&& final(self).state.status_updating_to == old(
                        self,
                    ).state.status_updating_to
                    &&& final(self).props == old(self).props
                    &&& step == (Step { render: true, effect: Effect::Nothing })
                },
                Msg::Error(e) => {
                    &&& final(self).state.error == Some(e)
                    &&& final(self).state.notes == old(self).state.notes
                    &&& final(self).state.min_note_id == old(self).state.min_note_id
                    &&& final(self).state.max_note_id == old(self).state.max_note_id
                    &&& final(self).state.status_updating_to == old(
                        self,
                    ).state.status_updating_to
                    &&& final(self).props == old(self).props
                    &&& step == (Step { render: true, effect: Effect::Nothing })
                },
                Msg::UpdateTagStatus(status) => {
                    &&& final(self).props == old(self).props
                    &&& final(self).state.notes == old(self).state.notes
                    &&& final(self).state.error == old(self).state.error
                    &&& final(self).state.min_note_id == old(self).state.min_note_id
                    &&& final(self).state.max_note_id == old(self).state.max_note_id
                    &&& old(self).state.status_updating_to is Some ==> {
                        &&& final(self).state.status_updating_to == old(
                            self,
                        ).state.status_updating_to
                        &&& step == (Step { render: false, effect: Effect::AlertPending })
                    }
                    &&& old(self).state.status_updating_to is None ==> {
                        &&& final(self).state.status_updating_to == Some(status)
                        &&& step == (Step {
                            render: true,
                            effect: Effect::PostStatus(
                                TagMap {
                                    note_id: old(self).props.tag_map.note_id,
                                    status,
                                    timestamp: old(self).props.tag_map.timestamp,
                                },
                            ),
                        })
                    }
                },
                Msg::MorePrev => {
                    &&& final(self).state.min_note_id == lower(old(self).state.min_note_id, MORE)
                    &&& final(self).state.max_note_id == old(self).state.max_note_id
                    &&& final(self).state.notes == old(self).state.notes
                    &&& final(self).state.error == old(self).state.error
                    &&& final(self).state.status_updating_to == old(
                        self,
                    ).state.status_updating_to
                    &&& final(self).props == old(self).props
                    &&& step == (Step {
                        render: false,
                        effect: Effect::FetchNotes {
                            min_id: final(self).state.min_note_id,
                            max_id: final(self).state.max_note_id,
                        },
                    })
                },
                Msg::MoreNext => {
                    &&& final(self).state.min_note_id == old(self).state.min_note_id
                    &&& final(self).state.max_note_id == raise(old(self).state.max_note_id, MORE)
                    &&& final(self).state.notes == old(self).state.notes
                    &&& final(self).state.error == old(self).state.error
                    &&& final(self).state.status_updating_to == old(
                        self,
                    ).state.status_updating_to
                    &&& final(self).props == old(self).props
                    &&& step == (Step {
                        render: false,
                        effect: Effect::FetchNotes {
                            min_id: final(self).state.min_note_id,
                            max_id: final(self).state.max_note_id,
                        },
                    })
                },
                Msg::Updated(tag_map) => {
                    &&& final(self).props.tag_map == tag_map
                    &&& final(self).props.naked_tag == old(self).props.naked_tag
                    &&& final(self).props.index == old(self).props.index
                    &&& final(self).state.status_updating_to is None
                    &&& final(self).state.notes == old(self).state.notes
                    &&& final(self).state.error == old(self).state.error
                    &&& final(self).state.min_note_id == old(self).state.min_note_id
                    &&& final(self).state.max_note_id == old(self).state.max_note_id
                    &&& step == (Step {
                        render: true,
                        effect: Effect::Announce { index: old(self).props.index, tag_map },
                    })
                },
            },
    {
        match msg {
            Msg::NotesLoaded(notes) => {
                self.state.notes = notes;
                Step { render: true, effect: Effect::Nothing }
            },
            Msg::UpdateTagStatus(status) => self.update_status(status),
            Msg::Updated(tag_map) => {
                self.props.tag_map = tag_map;
                self.state.status_updating_to = None;
                Step { render: true, effect: Effect::Announce { index: self.props.index, tag_map } }
            },
            Msg::MorePrev => {
                self.state.min_note_id = lowered(self.state.min_note_id, MORE);
                Step { render: false, effect: self.fetch_notes() }
            },
            Msg::MoreNext => {
                self.state.max_note_id = raised(self.state.max_note_id, MORE);
                Step { render: false, effect: self.fetch_notes() }
            },
            Msg::Error(e) => {
                self.state.error = Some(e);
                Step { render: true, effect: Effect::Nothing }
            },
        }
    }
}

} // verus!
