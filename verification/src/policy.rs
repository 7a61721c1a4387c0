//! The bump-level policy: which version increment a change calls for, and
//! which one a whole batch calls for.

use crate::change::{Change, ChangeView};
use crate::error::ChangelogError;
use crate::kind::Kind;
use crate::level::BumpLevel;
use crate::version::{Version, VersionView};
use vstd::prelude::*;

verus! {

/// The increment that one change of the given kind calls for when the
/// project stands at `version`.
///
/// The rules are tried in order and the first that applies decides:
///
/// 1. A security or bug fix is a patch, whatever else holds.
/// 2. From `1.0.0` on, changing or removing something is major unless the
///    change is marked as not breaking, which makes it minor; anything else is
///    minor unless it is marked as breaking, which makes it major.
/// 3. From `0.1.0` up to `1.0.0`, the same rules hold one level lower: minor
///    in place of major, patch in place of minor.
/// 4. Before `0.1.0`, every change is a patch.
///
/// A change that does not say whether it is breaking is not the same as one
/// that says it is not: rules 2 and 3 treat a silent change or removal as
/// breaking.
pub open spec fn bump_level(version: VersionView, kind: Kind, breaking: Option<bool>) -> BumpLevel {
    if kind is Security || kind is Fixed {
        BumpLevel::Patch
    } else if version.major >= 1 {
        if kind is Changed || kind is Removed {
            if breaking == Some(false) {
                BumpLevel::Minor
            } else {
                BumpLevel::Major
            }
        } else if breaking == Some(true) {
            BumpLevel::Major
        } else {
            BumpLevel::Minor
        }
    } else if version.minor >= 1 {
        if kind is Changed || kind is Removed {
            if breaking == Some(false) {
                BumpLevel::Patch
            } else {
                BumpLevel::Minor
            }
        } else if breaking == Some(true) {
            BumpLevel::Minor
        } else {
            BumpLevel::Patch
        }
    } else {
        BumpLevel::Patch
    }
}

impl ChangeView {
    /// The increment that this change calls for at `version`.
    pub open spec fn bump_level(self, version: VersionView) -> BumpLevel {
        bump_level(version, self.kind, self.breaking)
    }
}

/// Whether some change of the batch calls for exactly `level` at `version`.
pub open spec fn calls_for(changes: Seq<ChangeView>, version: VersionView, level: BumpLevel) -> bool {
    exists|i: int| 0 <= i < changes.len() && (#[trigger] changes[i]).bump_level(version) == level
}

/// The increment that a batch calls for at `version`: the highest that any of
/// its changes calls for. An empty batch calls for none.
pub open spec fn batch_bump_level(changes: Seq<ChangeView>, version: VersionView) -> Option<
    BumpLevel,
> {
    if changes.len() == 0 {
        None
    } else if calls_for(changes, version, BumpLevel::Major) {
        Some(BumpLevel::Major)
    } else if calls_for(changes, version, BumpLevel::Minor) {
        Some(BumpLevel::Minor)
    } else {
        Some(BumpLevel::Patch)
    }
}

impl Change {
    /// Returns the increment that this change calls for when the project
    /// stands at `version`.
    pub fn compute_bump_level(&self, version: &Version) -> (level: BumpLevel)
        ensures
            level == bump_level(version@, self.kind, self.breaking),
    {
        if let Kind::Security | Kind::Fixed = self.kind {
            BumpLevel::Patch
        } else if version.major >= 1 {
            match (self.kind, self.breaking) {
                (Kind::Changed | Kind::Removed, Some(false)) => BumpLevel::Minor,
                (Kind::Changed | Kind::Removed, _) => BumpLevel::Major,
                (_, Some(true)) => BumpLevel::Major,
                (_, _) => BumpLevel::Minor,
            }
        } else if version.minor >= 1 {
            match (self.kind, self.breaking) {
                (Kind::Changed | Kind::Removed, Some(false)) => BumpLevel::Patch,
                (Kind::Changed | Kind::Removed, _) => BumpLevel::Minor,
                (_, Some(true)) => BumpLevel::Minor,
                (_, _) => BumpLevel::Patch,
            }
        } else {
            BumpLevel::Patch
        }
    }
}

/// Returns the increment that the batch calls for when the project stands at
/// `version`: the highest level that any of its changes calls for.
///
/// An empty batch is an error, because there is nothing to release.
pub fn compute_batch_bump_level(changes: &[Change], version: &Version) -> (outcome: Result<
    BumpLevel,
    ChangelogError,
>)
    ensures
        match outcome {
            Ok(level) => batch_bump_level(changes.deep_view(), version@) == Some(level),
            Err(error) => changes.len() == 0 && error is EmptyBatch,
        },
{
    if changes.len() == 0 {
        return Err(ChangelogError::EmptyBatch);
    }
    let ghost views = changes.deep_view();
    let mut highest = changes[0].compute_bump_level(version);
    assert(views[0] == changes[0]@);
    let mut i: usize = 1;
    while i < changes.len()
        invariant
            1 <= i <= changes.len(),
            views == changes.deep_view(),
            exists|k: int| 0 <= k < i && (#[trigger] views[k]).bump_level(version@) == highest,
            forall|k: int|
                0 <= k < i ==> (#[trigger] views[k]).bump_level(version@).rank() <= highest.rank(),
        decreases changes.len() - i,
    {
        let level = changes[i].compute_bump_level(version);
        assert(views[i as int] == changes[i as int]@);
        highest = highest.at_least(level);
        i += 1;
    }
    Ok(highest)
}

/// The level of a non-empty batch is the maximum of the levels of its
/// changes: some change calls for it, and none calls for more.
pub proof fn lemma_batch_level_is_maximum(changes: Seq<ChangeView>, version: VersionView)
    requires
        changes.len() > 0,
    ensures
        batch_bump_level(changes, version) is Some,
        calls_for(changes, version, batch_bump_level(changes, version)->0),
        forall|i: int|
            0 <= i < changes.len() ==> (#[trigger] changes[i]).bump_level(version).rank()
                <= batch_bump_level(changes, version)->0.rank(),
{
    assert(calls_for(changes, version, changes[0].bump_level(version)));
}

/// Adding changes to a batch never lowers the level it calls for, wherever
/// they are added.
pub proof fn lemma_batch_level_is_monotone(
    batch: Seq<ChangeView>,
    before: Seq<ChangeView>,
    after: Seq<ChangeView>,
    version: VersionView,
)
    requires
        batch.len() > 0,
    ensures
        batch_bump_level(before + batch + after, version) is Some,
        batch_bump_level(before + batch + after, version)->0.rank() >= batch_bump_level(
            batch,
            version,
        )->0.rank(),
{
    let whole = before + batch + after;
    lemma_batch_level_is_maximum(batch, version);
    let level = batch_bump_level(batch, version)->0;
    let i = choose|i: int| 0 <= i < batch.len() && (#[trigger] batch[i]).bump_level(version) == level;
    assert(whole[before.len() + i] == batch[i]);
    lemma_batch_level_is_maximum(whole, version);
}

/// Against a version from `1.0.0` on, a batch that holds a removal which
/// does not say whether it is breaking calls for a major bump, whatever else
/// the batch holds.
pub proof fn lemma_silent_removal_calls_for_major(changes: Seq<ChangeView>, version: VersionView)
    requires
        version.major >= 1,
        exists|i: int|
            0 <= i < changes.len() && (#[trigger] changes[i]).kind is Removed
                && changes[i].breaking is None,
    ensures
        batch_bump_level(changes, version) == Some(BumpLevel::Major),
{
}

/// A security or bug fix decides only its own level. Alone in a batch it
/// calls for a patch at every version, the earliest ones included; a batch
/// that holds it beside a change that calls for a major bump calls for a
/// major bump.
pub proof fn lemma_fix_decides_only_its_own_level(
    fix: ChangeView,
    other: ChangeView,
    version: VersionView,
)
    requires
        fix.kind is Security || fix.kind is Fixed,
        other.bump_level(version) == BumpLevel::Major,
    ensures
        batch_bump_level(seq![fix], version) == Some(BumpLevel::Patch),
        batch_bump_level(seq![fix, other], version) == Some(BumpLevel::Major),
        batch_bump_level(seq![other, fix], version) == Some(BumpLevel::Major),
{
    lemma_batch_level_is_maximum(seq![fix], version);
}

} // verus!
