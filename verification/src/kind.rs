//! The categories a change can fall under.

use vstd::prelude::*;

verus! {

/// The category of a change, as written in a fragment's metadata.
#[derive(Clone, Copy, Debug, PartialEq, Eq, Hash, Structural)]
pub enum Kind {
    Added,
    Fixed,
    Changed,
    Deprecated,
    Removed,
    Security,
}

impl Kind {
    /// The title of the changelog subsection that lists changes of this kind.
    pub open spec fn header_text(self) -> Seq<char> {
        match self {
            Kind::Added => "Added"@,
            Kind::Fixed => "Fixed"@,
            Kind::Changed => "Changed"@,
            Kind::Deprecated => "Deprecated"@,
            Kind::Removed => "Removed"@,
            Kind::Security => "Security"@,
        }
    }

    /// Returns the title of the changelog subsection for this kind.
    pub fn header(&self) -> (text: &'static str)
        ensures
            text@ == self.header_text(),
    {
        match self {
            Kind::Added => "Added",
            Kind::Fixed => "Fixed",
            Kind::Changed => "Changed",
            Kind::Deprecated => "Deprecated",
            Kind::Removed => "Removed",
            Kind::Security => "Security",
        }
    }
}

} // verus!
