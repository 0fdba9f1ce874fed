//! Pre-call meeting context.

pub mod ics;

use vstd::prelude::*;

verus! {

/// Pre-call context populated from a calendar entry, CLI flags, or any
/// other provider. Drives the LLM prompt and the notes template.
#[derive(Clone, Debug, PartialEq, Eq)]
pub struct MeetingContext {
    pub title: Option<String>,
    pub attendees: Vec<String>,
    pub agenda: Option<String>,
    pub prior_notes: Vec<String>,
    pub language: Option<String>,
    /// Free-form provider-specific extras, as ordered key/value pairs.
    pub extra: Vec<(String, String)>,
}

impl MeetingContext {
    /// Whether this is the empty context.
    pub open spec fn is_empty_spec(&self) -> bool {
        &&& self.title is None
        &&& self.attendees@.len() == 0
        &&& self.agenda is None
        &&& self.prior_notes@.len() == 0
        &&& self.language is None
        &&& self.extra@.len() == 0
    }
}

impl Default for MeetingContext {
    fn default() -> (c: Self)
        ensures
            c.is_empty_spec(),
    {
        MeetingContext {
            title: None,
            attendees: Vec::new(),
            agenda: None,
            prior_notes: Vec::new(),
            language: None,
            extra: Vec::new(),
        }
    }
}

} // verus!
