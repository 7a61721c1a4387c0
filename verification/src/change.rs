//! One pending change, as read from its fragment.

use crate::error::ChangelogError;
use crate::kind::Kind;
use vstd::prelude::*;

verus! {

/// The earliest instant that can be recorded, in seconds since the Unix
/// epoch: midnight on 1 January of the year -9999, UTC.
pub const MIN_TIMESTAMP: i64 = -377_705_116_800;

/// The latest instant that can be recorded, in seconds since the Unix epoch:
/// the last second of the year 9999, UTC.
pub const MAX_TIMESTAMP: i64 = 253_402_300_799;

/// The structured metadata at the head of a fragment.
#[derive(Clone, Copy, Debug, PartialEq, Eq, Structural)]
pub struct FrontMatter {
    pub kind: Kind,
    /// Whether the author marked the change as breaking; `None` where the
    /// fragment does not say.
    pub breaking: Option<bool>,
    /// The author-assigned display priority; higher comes first.
    pub priority: Option<u8>,
}

/// One pending change.
#[derive(Debug)]
pub struct Change {
    pub kind: Kind,
    pub breaking: Option<bool>,
    pub priority: Option<u8>,
    /// When the fragment was introduced, in seconds since the Unix epoch.
    pub created: i64,
    /// The changelog line.
    pub content: String,
}

/// The mathematical content of a [`Change`].
pub struct ChangeView {
    pub kind: Kind,
    pub breaking: Option<bool>,
    pub priority: Option<u8>,
    pub created: int,
    pub content: Seq<char>,
}

impl View for Change {
    type V = ChangeView;

    open spec fn view(&self) -> ChangeView {
        ChangeView {
            kind: self.kind,
            breaking: self.breaking,
            priority: self.priority,
            created: self.created as int,
            content: self.content@,
        }
    }
}

impl DeepView for Change {
    type V = ChangeView;

    open spec fn deep_view(&self) -> ChangeView {
        self@
    }
}

impl Clone for Change {
    fn clone(&self) -> (copy: Self)
        ensures
            copy == *self,
    {
        Change {
            kind: self.kind,
            breaking: self.breaking,
            priority: self.priority,
            created: self.created,
            content: self.content.clone(),
        }
    }
}

/// Builds a `time::OffsetDateTime` with `from_unix_timestamp` and reads its
/// timestamp back with `unix_timestamp`. Trusted: the call succeeds exactly
/// on the seconds from [`MIN_TIMESTAMP`] to [`MAX_TIMESTAMP`], the years
/// -9999 to 9999 that the `time` crate represents without its `large-dates`
/// feature, and the instant it builds is the one given.
#[verifier::external_body]
fn unix_instant(seconds: i64) -> (instant: Result<i64, time::error::ComponentRange>)
    ensures
        match instant {
            Ok(read_back) => read_back == seconds && MIN_TIMESTAMP <= seconds <= MAX_TIMESTAMP,
            Err(_) => seconds < MIN_TIMESTAMP || seconds > MAX_TIMESTAMP,
        },
{
    match time::OffsetDateTime::from_unix_timestamp(seconds) {
        Ok(instant) => Ok(instant.unix_timestamp()),
        Err(e) => Err(e),
    }
}

impl Change {
    /// Assembles a change from the parts of its fragment and the time, in
    /// seconds since the Unix epoch, at which the fragment was introduced.
    ///
    /// Fails exactly when that time lies outside [`MIN_TIMESTAMP`] to
    /// [`MAX_TIMESTAMP`].
    pub fn new(frontmatter: FrontMatter, content: String, seconds: i64) -> (made: Result<
        Change,
        ChangelogError,
    >)
        ensures
            match made {
                Ok(change) => {
                    &&& MIN_TIMESTAMP <= seconds <= MAX_TIMESTAMP
                    &&& change == (Change {
                        kind: frontmatter.kind,
                        breaking: frontmatter.breaking,
                        priority: frontmatter.priority,
                        created: seconds,
                        content,
                    })
                },
                Err(error) => {
                    &&& seconds < MIN_TIMESTAMP || seconds > MAX_TIMESTAMP
                    &&& error is TimestampOutOfRange
                },
            },
    {
        match unix_instant(seconds) {
            Ok(created) => Ok(
                Change {
                    kind: frontmatter.kind,
                    breaking: frontmatter.breaking,
                    priority: frontmatter.priority,
                    created,
                    content,
                },
            ),
            Err(reason) => Err(ChangelogError::TimestampOutOfRange(reason)),
        }
    }
}

} // verus!
