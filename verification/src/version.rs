//! Semantic versions, read with the `semver` crate.

use crate::error::ChangelogError;
use crate::text::{decimal, push_decimal};
use vstd::prelude::*;
use vstd::string::StringExecFns;

verus! {

/// A semantic version: `major.minor.patch`, optionally followed by a
/// pre-release tag and by build metadata.
#[derive(Debug)]
pub struct Version {
    pub major: u64,
    pub minor: u64,
    pub patch: u64,
    /// The pre-release tag without its leading `-`; empty when there is none.
    pub pre: String,
    /// The build metadata without its leading `+`; empty when there is none.
    pub build: String,
}

/// The mathematical content of a [`Version`].
pub struct VersionView {
    pub major: nat,
    pub minor: nat,
    pub patch: nat,
    pub pre: Seq<char>,
    pub build: Seq<char>,
}

impl VersionView {
    /// The version as it is written: the three numbers in decimal with dots
    /// between them, then `-` and the pre-release tag where there is one, then
    /// `+` and the build metadata where there is any.
    pub open spec fn text(self) -> Seq<char> {
        let numbers = decimal(self.major) + seq!['.'] + decimal(self.minor) + seq!['.'] + decimal(
            self.patch,
        );
        let pre = if self.pre.len() > 0 {
            seq!['-'] + self.pre
        } else {
            Seq::empty()
        };
        let build = if self.build.len() > 0 {
            seq!['+'] + self.build
        } else {
            Seq::empty()
        };
        numbers + pre + build
    }
}

impl View for Version {
    type V = VersionView;

    open spec fn view(&self) -> VersionView {
        VersionView {
            major: self.major as nat,
            minor: self.minor as nat,
            patch: self.patch as nat,
            pre: self.pre@,
            build: self.build@,
        }
    }
}

impl Clone for Version {
    fn clone(&self) -> (copy: Self)
        ensures
            copy == *self,
    {
        Version {
            major: self.major,
            minor: self.minor,
            patch: self.patch,
            pre: self.pre.clone(),
            build: self.build.clone(),
        }
    }
}

/// What `semver::Version::parse` makes of `text`: the version it reads, or
/// `None` where it rejects the text. The grammar is the `semver` crate's and
/// is not restated here.
pub uninterp spec fn semver_parse(text: Seq<char>) -> Option<VersionView>;

/// Calls `semver::Version::parse` and copies the fields of the version it
/// returns. Trusted: the result is exactly what [`semver_parse`] names, an
/// error standing for `None`.
#[verifier::external_body]
fn semver_version(text: &str) -> (parsed: Result<Version, semver::Error>)
    ensures
        match parsed {
            Ok(version) => semver_parse(text@) == Some(version@),
            Err(_) => semver_parse(text@) is None,
        },
{
    match semver::Version::parse(text) {
        Ok(v) => Ok(
            Version {
                major: v.major,
                minor: v.minor,
                patch: v.patch,
                pre: v.pre.as_str().to_owned(),
                build: v.build.as_str().to_owned(),
            },
        ),
        Err(e) => Err(e),
    }
}

impl Version {
    /// A release version without pre-release tag or build metadata.
    pub fn new(major: u64, minor: u64, patch: u64) -> (version: Version)
        ensures
            version@ == (VersionView {
                major: major as nat,
                minor: minor as nat,
                patch: patch as nat,
                pre: Seq::<char>::empty(),
                build: Seq::<char>::empty(),
            }),
    {
        Version { major, minor, patch, pre: String::new(), build: String::new() }
    }

    /// Returns the version as it is written.
    pub fn to_text(&self) -> (text: String)
        ensures
            text@ == self@.text(),
    {
        proof {
            reveal_strlit(".");
            reveal_strlit("-");
            reveal_strlit("+");
        }
        let mut text = String::new();
        push_decimal(&mut text, self.major);
        text.append(".");
        push_decimal(&mut text, self.minor);
        text.append(".");
        push_decimal(&mut text, self.patch);
        if !self.pre.as_str().is_empty() {
            text.append("-");
            text.append(self.pre.as_str());
        }
        if !self.build.as_str().is_empty() {
            text.append("+");
            text.append(self.build.as_str());
        }
        text
    }

    /// Reads a semantic version from `text`.
    ///
    /// Succeeds exactly on the texts that the `semver` crate accepts, with the
    /// version it reads from them.
    pub fn parse(text: &str) -> (parsed: Result<Version, ChangelogError>)
        ensures
            match parsed {
                Ok(version) => semver_parse(text@) == Some(version@),
                Err(error) => semver_parse(text@) is None && error is InvalidVersion,
            },
    {
        match semver_version(text) {
            Ok(version) => Ok(version),
            Err(reason) => Err(ChangelogError::InvalidVersion(reason)),
        }
    }
}

} // verus!
