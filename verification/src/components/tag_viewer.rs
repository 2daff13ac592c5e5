use crate::models::{TagMap, TagMapStatus};
use vstd::prelude::*;
use vstd::string::StringExecFns;

verus! {

/// What the viewer of one tag is set up with.
#[derive(Debug, Clone)]
pub struct Props {
    /// The tag's name without its `#`.
    pub naked_tag: String,
}

/// What can happen to the viewer.
#[derive(Debug)]
pub enum Msg {
    /// The tag's pairings have arrived.
    TagMapLoaded(Vec<TagMap>),
    ToggleShowActives,
    ToggleShowArchived,
    /// The pairing at the given place was changed to the given one.
    TagMapUpdated((usize, TagMap)),
    Error(String),
}

/// What the viewer knows.
#[derive(Debug, Clone)]
pub struct State {
    pub tag_map: Vec<TagMap>,
    pub error: Option<String>,
    pub show_actives: bool,
    pub show_archived: bool,
}

/// The viewer of one tag: its pairings, filtered by status.
#[derive(Debug, Clone)]
pub struct TagViewer {
    pub state: State,
    pub props: Props,
}

impl TagViewer {
    /// A viewer that has loaded nothing yet, and shows active pairings only.
    pub fn create(props: Props) -> (viewer: Self)
        ensures
            viewer.props == props,
            viewer.state.tag_map@.len() == 0,
            viewer.state.error is None,
            viewer.state.show_actives,
            !viewer.state.show_archived,
    {
        TagViewer {
            state: State {
                tag_map: Vec::new(),
                error: None,
                show_actives: true,
                show_archived: false,
            },
            props,
        }
    }

    /// Where the tag's pairings are fetched from, once the viewer is mounted.
    pub fn fetch_path(&self) -> (p: String)
        ensures
            p@ == "/api/tags/"@ + self.props.naked_tag@,
    {
        let mut p = "/api/tags/".to_owned();
        p.append(self.props.naked_tag.as_str());
        p
    }

    /// Whether a pairing is shown: an active one while active ones are, an archived one
    /// while archived ones are.
    pub open spec fn shows(self, tag_map: TagMap) -> bool {
        match tag_map.status {
            TagMapStatus::Active => self.state.show_actives,
            TagMapStatus::Archived => self.state.show_archived,
        }
    }

    /// Whether a pairing is shown.
    pub fn should_show(&self, tag_map: &TagMap) -> (show: bool)
        ensures
            show == self.shows(*tag_map),
    {
        match tag_map.status {
            TagMapStatus::Active => self.state.show_actives,
            TagMapStatus::Archived => self.state.show_archived,
        }
    }

    /// Takes in what happened and says whether the view is to be drawn again, which it
    /// always is. Loaded pairings take the place of those held; a toggle turns its switch; a
    /// changed pairing takes its place in the list, and is passed over where the list has
    /// no such place; an error is kept for display.
    pub fn update(&mut self, msg: Msg) -> (render: bool)
        ensures
            render,
            final(self).props == old(self).props,
            match msg {
                Msg::TagMapLoaded(tag_map) => {
                    &&& final(self).state.tag_map@ == tag_map@
                    &&& final(self).state.error == old(self).state.error
                    &&& final(self).state.show_actives == old(self).state.show_actives
                    &&& final(self).state.show_archived == old(self).state.show_archived
                },
                Msg::ToggleShowActives => {
                    &&& final(self).state.tag_map == old(self).state.tag_map
                    &&& final(self).state.error == old(self).state.error
                    &&& final(self).state.show_actives == !old(self).state.show_actives
                    &&& final(self).state.show_archived == old(self).state.show_archived
                },
                Msg::ToggleShowArchived => {
                    &&& final(self).state.tag_map == old(self).state.tag_map
                    &&& final(self).state.error == old(self).state.error
                    &&& final(self).state.show_actives == old(self).state.show_actives
                    &&& final(self).state.show_archived == !old(self).state.show_archived
                },
                Msg::TagMapUpdated((i, tag_map)) => {
                    &&& final(self).state.tag_map@ == (if i < old(self).state.tag_map.len() {
                        old(self).state.tag_map@.update(i as int, tag_map)
                    } else {
                        old(self).state.tag_map@
                    })
                    &&& final(self).state.error == old(self).state.error
                    &&& final(self).state.show_actives == old(self).state.show_actives
                    &&& final(self).state.show_archived == old(self).state.show_archived
                },
                Msg::Error(e) => {
                    &&& final(self).state.tag_map == old(self).state.tag_map
                    &&& final(self).state.error == Some(e)
                    &&& final(self).state.show_actives == old(self).state.show_actives
                    &&& final(self).state.show_archived == old(self).state.show_archived
                },
            },
    {
        match msg {
            Msg::TagMapLoaded(tag_map) => {
                self.state.tag_map = tag_map;
            },
            Msg::ToggleShowActives => {
                self.state.show_actives = !self.state.show_actives;
            },
            Msg::ToggleShowArchived => {
                self.state.show_archived = !self.state.show_archived;
            },
            Msg::TagMapUpdated((i, tag_map)) => {
                if i < self.state.tag_map.len() {
                    self.state.tag_map.set(i, tag_map);
                }
            },
            Msg::Error(e) => {
                self.state.error = Some(e);
            },
        }
        true
    }
}

} // verus!
