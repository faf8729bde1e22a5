//! What the command line names besides commands: the attribute of an entry.

use crate::entries::{Entry, EntryView};
use vstd::prelude::*;
use vstd::string::*;

verus! {

/// The part of an entry that a reader asks for.
#[derive(Clone, Copy, Debug, PartialEq, Eq, Structural)]
pub enum EntryAttribute {
    Password,
    Username,
    Url,
}

impl EntryAttribute {
    /// The field of the entry that the attribute names; an optional field
    /// that was never set gives nothing.
    pub open spec fn spec_select(self, entry: EntryView) -> Option<Seq<char>> {
        match self {
            EntryAttribute::Password => Some(entry.password),
            EntryAttribute::Username => entry.username,
            EntryAttribute::Url => entry.url,
        }
    }

    pub fn select(&self, entry: &Entry) -> (r: Option<String>)
        ensures
            r.deep_view() == self.spec_select(entry@),
    {
        match *self {
            EntryAttribute::Password => Some(entry.password.clone()),
            EntryAttribute::Username => entry.username.clone(),
            EntryAttribute::Url => entry.url.clone(),
        }
    }
}

} // verus!
