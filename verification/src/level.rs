//! The size of a version bump.

use std::cmp::Ordering;
use vstd::prelude::*;
use vstd::std_specs::cmp::PartialOrdSpecImpl;

verus! {

/// The semantic-versioning increment that a release needs.
///
/// Levels are ordered by severity: `Patch < Minor < Major`.
#[derive(Clone, Copy, Debug, PartialEq, Eq, Ord, Hash, Structural)]
pub enum BumpLevel {
    Patch,
    Minor,
    Major,
}

impl BumpLevel {
    /// The position of the level in the severity order.
    pub open spec fn rank(self) -> int {
        match self {
            BumpLevel::Patch => 0,
            BumpLevel::Minor => 1,
            BumpLevel::Major => 2,
        }
    }

    /// The more severe of two levels.
    pub open spec fn spec_at_least(self, other: BumpLevel) -> BumpLevel {
        if other.rank() > self.rank() {
            other
        } else {
            self
        }
    }

    /// The lower-case word that names the level on the command line.
    pub open spec fn name(self) -> Seq<char> {
        match self {
            BumpLevel::Patch => "patch"@,
            BumpLevel::Minor => "minor"@,
            BumpLevel::Major => "major"@,
        }
    }

    /// Returns the more severe of `self` and `other`.
    #[verifier::when_used_as_spec(spec_at_least)]
    pub fn at_least(self, other: BumpLevel) -> (level: BumpLevel)
        ensures
            level == self.spec_at_least(other),
    {
        match (self, other) {
            (BumpLevel::Major, _) => BumpLevel::Major,
            (_, BumpLevel::Major) => BumpLevel::Major,
            (BumpLevel::Minor, _) => BumpLevel::Minor,
            (_, BumpLevel::Minor) => BumpLevel::Minor,
            (BumpLevel::Patch, BumpLevel::Patch) => BumpLevel::Patch,
        }
    }

    /// Returns the lower-case word that names the level.
    pub fn as_str(&self) -> (text: &'static str)
        ensures
            text@ == self.name(),
    {
        match self {
            BumpLevel::Patch => "patch",
            BumpLevel::Minor => "minor",
            BumpLevel::Major => "major",
        }
    }
}

impl PartialOrd for BumpLevel {
    fn partial_cmp(&self, other: &Self) -> (order: Option<Ordering>) {
        match (*self, *other) {
            (BumpLevel::Patch, BumpLevel::Patch) => Some(Ordering::Equal),
            (BumpLevel::Minor, BumpLevel::Minor) => Some(Ordering::Equal),
            (BumpLevel::Major, BumpLevel::Major) => Some(Ordering::Equal),
            (BumpLevel::Patch, _) => Some(Ordering::Less),
            (BumpLevel::Minor, BumpLevel::Major) => Some(Ordering::Less),
            (_, _) => Some(Ordering::Greater),
        }
    }
}

impl PartialOrdSpecImpl for BumpLevel {
    open spec fn obeys_partial_cmp_spec() -> bool {
        true
    }

    open spec fn partial_cmp_spec(&self, other: &Self) -> Option<Ordering> {
        if self.rank() < other.rank() {
            Some(Ordering::Less)
        } else if self.rank() > other.rank() {
            Some(Ordering::Greater)
        } else {
            Some(Ordering::Equal)
        }
    }
}

} // verus!
