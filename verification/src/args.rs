//! The command's argument surface.
//!
//! The command takes free-form description tokens and a force flag.
//! The flag is accepted but does not alter how a report is built.
//! Parsing the command line itself is left to the binary around the
//! library; this type holds the parsed values.

use vstd::prelude::*;
use crate::title::{join_description, joined, resolve, trimmed};

verus! {

/// Parsed command-line arguments for filing an issue.
#[derive(Clone, Debug, PartialEq, Eq)]
pub struct IssueArgs {
    /// Force issue creation.
    pub force: bool,
    /// Issue description.
    pub description: Vec<String>,
}

impl IssueArgs {
    /// The candidate title: the description tokens joined with
    /// single spaces.
    pub fn title_candidate(&self) -> (r: String)
        ensures
            r@ == joined(self.description.deep_view()),
    {
        join_description(&self.description)
    }

    /// The resolved title: the trimmed candidate when it has any
    /// non-whitespace text, `None` when an interactive prompt must
    /// supply the title instead.
    pub fn resolve_title(&self) -> (r: Option<String>)
        ensures
            trimmed(joined(self.description.deep_view())).len() > 0 ==> (r matches Some(t) && t@
                == trimmed(joined(self.description.deep_view()))),
            trimmed(joined(self.description.deep_view())).len() == 0 ==> r is None,
    {
        let candidate = self.title_candidate();
        resolve(candidate.as_str())
    }
}

} // verus!
