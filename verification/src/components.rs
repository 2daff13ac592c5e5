use vstd::prelude::*;
use vstd::string::StringExecFns;

pub mod note_canvas;
pub mod note_input;
pub mod tag_map_viewer;
pub mod tag_summary;
pub mod tag_viewer;

verus! {

/// The views that the journal offers.
#[derive(Debug, Clone, PartialEq, Eq)]
pub enum AppRoute {
    /// The notes and the input.
    Main,
    /// One tag with its pairings; the tag is named by what follows its `#`.
    Tag(String),
}

impl AppRoute {
    /// The path under which the view is reached.
    pub open spec fn spec_path(self) -> Seq<char> {
        match self {
            AppRoute::Main => "/app/main"@,
            AppRoute::Tag(naked) => "/app/tag/"@ + naked@,
        }
    }

    /// The path under which the view is reached.
    pub fn path(&self) -> (p: String)
        ensures
            p@ == self.spec_path(),
    {
        match self {
            AppRoute::Main => "/app/main".to_owned(),
            AppRoute::Tag(naked) => {
                let mut p = "/app/tag/".to_owned();
                p.append(naked.as_str());
                p
            },
        }
    }
}

} // verus!
