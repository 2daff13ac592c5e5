use crate::comm::TagEvent;
use crate::models::{Tag, TagMap, TagMapStatus};
use vstd::prelude::*;

verus! {

/// What can happen to the summary.
#[derive(Debug)]
pub enum Msg {
    /// The tags have arrived.
    TagsLoaded(Vec<Tag>),
    NewTagEvent(TagEvent),
    Error(String),
}

/// What the summary knows.
#[derive(Debug, Clone)]
pub struct State {
    pub tags: Vec<Tag>,
    pub error: Option<String>,
}

/// What the summary asks of its surroundings.
#[derive(Debug, Clone, Copy, PartialEq, Eq, Structural)]
pub enum Effect {
    Nothing,
    /// Fetch the tags from `/api/tags` and hand them back as `Msg::TagsLoaded`.
    FetchTags,
}

/// What a step comes to: whether the view is to be drawn again, and what is asked.
#[derive(Debug, Clone, Copy, PartialEq, Eq, Structural)]
pub struct Step {
    pub render: bool,
    pub effect: Effect,
}

/// The list of tags at the side, each with the number of its pairings.
#[derive(Debug, Clone)]
pub struct TagSummary {
    pub state: State,
}

/// The number of active pairings among the first `n`.
pub open spec fn active_before(maps: Seq<TagMap>, n: int) -> nat
    decreases n,
{
    if n <= 0 || n > maps.len() {
        0
    } else if maps[n - 1].status == TagMapStatus::Active {
        active_before(maps, n - 1) + 1
    } else {
        active_before(maps, n - 1)
    }
}

/// The number of active pairings.
pub open spec fn active_count(maps: Seq<TagMap>) -> nat {
    active_before(maps, maps.len() as int)
}

impl TagSummary {
    /// A summary that has loaded nothing yet.
    pub fn create() -> (summary: Self)
        ensures
            summary.state.tags@.len() == 0,
            summary.state.error is None,
    {
        TagSummary { state: State { tags: Vec::new(), error: None } }
    }

    /// Once mounted the summary fetches the tags, and is not drawn again for that.
    pub fn mounted(&self) -> (step: Step)
        ensures
            step == (Step { render: false, effect: Effect::FetchTags }),
    {
        Step { render: false, effect: Effect::FetchTags }
    }

    /// The number of a tag's active pairings; a tag without one is left out of the list of
    /// active tags.
    pub fn actives(tag: &Tag) -> (n: usize)
        ensures
            n == active_count(tag.maps@),
    {
        let mut n: usize = 0;
        let mut i: usize = 0;
        while i < tag.maps.len()
            invariant
                i <= tag.maps.len(),
                n == active_before(tag.maps@, i as int),
                n <= i,
            decreases tag.maps.len() - i,
        {
            if tag.maps[i].status == TagMapStatus::Active {
                n += 1;
            }
            i += 1;
        }
        n
    }

    /// A change of the tags makes the summary fetch them again.
    pub fn handle_tag_event(&self, e: TagEvent) -> (step: Step)
        ensures
            step == (Step { render: false, effect: Effect::FetchTags }),
    {
        match e {
            TagEvent::TagsChanged => Step { render: false, effect: Effect::FetchTags },
        }
    }

    /// Takes in what happened. Loaded tags take the place of those held and an error is
    /// kept for display, both drawn at once; a change of the tags is answered by fetching
    /// them again.
    pub fn update(&mut self, msg: Msg) -> (step: Step)
        ensures
            match msg {
                Msg::TagsLoaded(tags) => {
                    &&& final(self).state.tags == tags
                    &&& final(self).state.error == old(self).state.error
                    &&& step == (Step { render: true, effect: Effect::Nothing })
                },
                Msg::NewTagEvent(_) => {
                    &&& *final(self) == *old(self)
                    &&& step == (Step { render: false, effect: Effect::FetchTags })
                },
                Msg::Error(e) => {
                    &&& final(self).state.tags == old(self).state.tags
                    &&& final(self).state.error == Some(e)
                    &&& step == (Step { render: true, effect: Effect::Nothing })
                },
            },
    {
        match msg {
            Msg::TagsLoaded(tags) => {
                self.state.tags = tags;
                Step { render: true, effect: Effect::Nothing }
            },
            Msg::NewTagEvent(e) => self.handle_tag_event(e),
            Msg::Error(e) => {
                self.state.error = Some(e);
                Step { render: true, effect: Effect::Nothing }
            },
        }
    }
}

} // verus!
