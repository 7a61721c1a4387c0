//! The changelog section that announces a release.

use crate::change::{Change, ChangeView};
use crate::group::{group_by_kind, grouped, Group, GroupView};
use crate::order::stable_sort;
use crate::sort::sort_changes;
use crate::text::{decimal, push_decimal, push_signed_decimal, signed_decimal};
use crate::version::{Version, VersionView};
use vstd::prelude::*;
use vstd::string::StringExecFns;

verus! {

/// A calendar date.
#[derive(Clone, Copy, Debug, PartialEq, Eq, Structural)]
pub struct Date {
    pub year: i32,
    /// The month, counted from 1.
    pub month: u8,
    /// The day of the month, counted from 1.
    pub day: u8,
}

impl Date {
    /// Whether month and day lie in the ranges of the calendar.
    pub open spec fn in_calendar(self) -> bool {
        1 <= self.month <= 12 && 1 <= self.day <= 31
    }
}

/// The heading of the section: the version and the date, with year, month
/// and day in decimal and without padding, and a blank line after it.
pub open spec fn heading(version: VersionView, date: Date) -> Seq<char> {
    "## "@ + version.text() + " - "@ + signed_decimal(date.year as int) + "-"@ + decimal(
        date.month as nat,
    ) + "-"@ + decimal(date.day as nat) + "\n\n"@
}

/// The line that lists one change.
pub open spec fn entry(change: ChangeView) -> Seq<char> {
    "- "@ + change.content + "\n"@
}

/// The subsection of one group: its title, a blank line, and one line for
/// each of its changes.
pub open spec fn subsection(group: GroupView) -> Seq<char> {
    "### "@ + group.kind.header_text() + "\n\n"@ + group.changes.flat_map(
        |change: ChangeView| entry(change),
    )
}

/// The whole section: the heading and then the subsections of the groups.
pub open spec fn rendered(version: VersionView, date: Date, groups: Seq<GroupView>) -> Seq<char> {
    heading(version, date) + groups.flat_map(|group: GroupView| subsection(group))
}

/// Reads the clock with `time::OffsetDateTime::now_utc` and takes the
/// calendar date of that instant. Trusted: the month is from 1 to 12 and the
/// day from 1 to 31, whatever the clock says. The call panics where the
/// system clock is set outside the years that the `time` crate represents.
#[verifier::external_body]
fn today() -> (date: Date)
    ensures
        date.in_calendar(),
{
    let (year, month, day) = time::OffsetDateTime::now_utc().date().to_calendar_date();
    Date { year, month: u8::from(month), day }
}

/// Appends the lines that list `changes` to `out`.
fn push_entries(out: &mut String, changes: &Vec<Change>)
    ensures
        final(out)@ == old(out)@ + changes.deep_view().flat_map(|change: ChangeView| entry(change)),
{
    let ghost line = |change: ChangeView| entry(change);
    let ghost all = changes.deep_view();
    proof {
        assert(all.take(0).flat_map(line) =~= Seq::<char>::empty()) by {
            reveal_with_fuel(Seq::flatten, 1);
        }
    }
    let mut i: usize = 0;
    while i < changes.len()
        invariant
            i <= changes.len(),
            all == changes.deep_view(),
            line == |change: ChangeView| entry(change),
            out@ == old(out)@ + all.take(i as int).flat_map(line),
        decreases changes.len() - i,
    {
        out.append("- ");
        out.append(changes[i].content.as_str());
        out.append("\n");
        proof {
            let done = all.take(i as int);
            assert(all.take(i + 1) =~= done.push(all[i as int]));
            done.lemma_flat_map_push(line, all[i as int]);
        }
        i += 1;
    }
    proof {
        assert(all.take(changes.len() as int) =~= all);
    }
}

/// Renders the changelog section for `version`, dated `date`, from changes
/// that are sorted and grouped already.
///
/// Without groups the section is its heading alone.
pub fn render_changelog(version: &Version, date: Date, groups: &[Group]) -> (text: String)
    ensures
        text@ == rendered(version@, date, groups.deep_view()),
{
    let ghost part = |group: GroupView| subsection(group);
    let ghost all = groups.deep_view();
    let mut text = String::new();
    text.append("## ");
    text.append(version.to_text().as_str());
    text.append(" - ");
    push_signed_decimal(&mut text, date.year);
    text.append("-");
    push_decimal(&mut text, date.month as u64);
    text.append("-");
    push_decimal(&mut text, date.day as u64);
    text.append("\n\n");
    proof {
        assert(all.take(0).flat_map(part) =~= Seq::<char>::empty()) by {
            reveal_with_fuel(Seq::flatten, 1);
        }
    }
    let mut i: usize = 0;
    while i < groups.len()
        invariant
            i <= groups.len(),
            all == groups.deep_view(),
            part == |group: GroupView| subsection(group),
            text@ == heading(version@, date) + all.take(i as int).flat_map(part),
        decreases groups.len() - i,
    {
        text.append("### ");
        text.append(groups[i].kind.header());
        text.append("\n\n");
        push_entries(&mut text, &groups[i].changes);
        proof {
            let done = all.take(i as int);
            assert(all.take(i + 1) =~= done.push(all[i as int]));
            done.lemma_flat_map_push(part, all[i as int]);
        }
        i += 1;
    }
    proof {
        assert(all.take(groups.len() as int) =~= all);
    }
    text
}

/// Compiles the changelog section for `version`, dated `date`: sorts the
/// changes, groups them by kind and renders the groups.
///
/// An empty batch gives the heading alone.
pub fn compile_changelog_dated(version: &Version, date: Date, changes: Vec<Change>) -> (text: String)
    ensures
        text@ == rendered(version@, date, grouped(stable_sort(changes.deep_view()))),
{
    let mut changes = changes;
    sort_changes(&mut changes);
    let groups = group_by_kind(changes);
    render_changelog(version, date, &groups)
}

/// Compiles the changelog section for `version`, dated today by the clock
/// in UTC.
pub fn compile_changelog(version: &Version, changes: Vec<Change>) -> (text: String)
    ensures
        exists|date: Date| #[trigger]
            date.in_calendar() && text@ == rendered(
                version@,
                date,
                grouped(stable_sort(changes.deep_view())),
            ),
{
    let date = today();
    compile_changelog_dated(version, date, changes)
}

} // verus!
