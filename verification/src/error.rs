//! Why a batch of change fragments was rejected.

use vstd::prelude::*;

verus! {

/// The reason [`semver::Version::parse`] gives for rejecting a text. Opaque here.
#[verifier::external_type_specification]
#[verifier::external_body]
pub struct ExSemverError(semver::Error);

/// The reason the `time` crate gives for rejecting a value. Opaque here.
#[verifier::external_type_specification]
#[verifier::external_body]
pub struct ExComponentRange(time::error::ComponentRange);

/// The reason `serde_yaml` gives for rejecting a document. Opaque here.
#[verifier::external_type_specification]
#[verifier::external_body]
pub struct ExYamlError(serde_yaml::Error);

/// Every way in which processing a batch of fragments can fail.
///
/// All of them are fatal: nothing is recovered or defaulted.
#[derive(Debug)]
pub enum ChangelogError {
    /// The document holds no delimiter line, so it has no metadata block.
    MissingFrontmatter,
    /// The metadata block could not be decoded.
    InvalidFrontmatter(serde_yaml::Error),
    /// The document has a metadata block but no body after it.
    MissingBody,
    /// The instant at which the fragment was introduced cannot be represented.
    TimestampOutOfRange(time::error::ComponentRange),
    /// The text is not a semantic version.
    InvalidVersion(semver::Error),
    /// The batch is empty, so there is nothing to release.
    EmptyBatch,
}

impl ChangelogError {
    /// A one-line description of the failure.
    pub open spec fn description(self) -> Seq<char> {
        match self {
            ChangelogError::MissingFrontmatter => "Missing frontmatter"@,
            ChangelogError::InvalidFrontmatter(_) => "Failed to parse frontmatter"@,
            ChangelogError::MissingBody => "Missing body"@,
            ChangelogError::TimestampOutOfRange(_) => "creation time out of range"@,
            ChangelogError::InvalidVersion(_) => "invalid semantic version"@,
            ChangelogError::EmptyBatch => "expected at least one changelog entry"@,
        }
    }

    /// Returns a one-line description of the failure.
    pub fn message(&self) -> (text: &'static str)
        ensures
            text@ == self.description(),
    {
        match self {
            ChangelogError::MissingFrontmatter => "Missing frontmatter",
            ChangelogError::InvalidFrontmatter(_) => "Failed to parse frontmatter",
            ChangelogError::MissingBody => "Missing body",
            ChangelogError::TimestampOutOfRange(_) => "creation time out of range",
            ChangelogError::InvalidVersion(_) => "invalid semantic version",
            ChangelogError::EmptyBatch => "expected at least one changelog entry",
        }
    }
}

} // verus!
