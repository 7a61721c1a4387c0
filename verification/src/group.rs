//! Grouping a batch of changes by kind, for listing.

use crate::change::{Change, ChangeView};
use crate::kind::Kind;
use vstd::prelude::*;
use vstd::seq_lib::to_multiset_build;

verus! {

/// The changes of one kind, in the order in which they are listed.
#[derive(Debug)]
pub struct Group {
    pub kind: Kind,
    pub changes: Vec<Change>,
}

/// The mathematical content of a [`Group`].
pub struct GroupView {
    pub kind: Kind,
    pub changes: Seq<ChangeView>,
}

impl View for Group {
    type V = GroupView;

    open spec fn view(&self) -> GroupView {
        GroupView { kind: self.kind, changes: self.changes.deep_view() }
    }
}

impl DeepView for Group {
    type V = GroupView;

    open spec fn deep_view(&self) -> GroupView {
        self@
    }
}

/// The kinds in the order in which their groups are listed. The order is
/// fixed: it depends neither on the changes nor on how they are sorted.
pub open spec fn listing_order() -> Seq<Kind> {
    seq![
        Kind::Added,
        Kind::Fixed,
        Kind::Changed,
        Kind::Removed,
        Kind::Deprecated,
        Kind::Security,
    ]
}

/// The test for a change being of the given kind.
pub open spec fn has_kind(kind: Kind) -> spec_fn(ChangeView) -> bool {
    |change: ChangeView| change.kind == kind
}

/// The changes of the given kind, in the order in which they stand in
/// `changes`.
pub open spec fn of_kind(changes: Seq<ChangeView>, kind: Kind) -> Seq<ChangeView> {
    changes.filter(has_kind(kind))
}

/// The test for a kind having at least one change among `changes`.
pub open spec fn occurs_in(changes: Seq<ChangeView>) -> spec_fn(Kind) -> bool {
    |kind: Kind| of_kind(changes, kind).len() > 0
}

/// The group that `changes` gives for each kind.
pub open spec fn group_in(changes: Seq<ChangeView>) -> spec_fn(Kind) -> GroupView {
    |kind: Kind| GroupView { kind, changes: of_kind(changes, kind) }
}

/// The groups that the given kinds give, leaving out those without changes.
pub open spec fn groups_for(kinds: Seq<Kind>, changes: Seq<ChangeView>) -> Seq<GroupView> {
    kinds.filter(occurs_in(changes)).map_values(group_in(changes))
}

/// The groups in which `changes` are listed: one for each kind that occurs
/// among them, in the listing order of the kinds, each holding the changes
/// of its kind in the order in which they stand in `changes`.
pub open spec fn grouped(changes: Seq<ChangeView>) -> Seq<GroupView> {
    groups_for(listing_order(), changes)
}

/// Taking one more kind into account adds its group, if it has changes.
proof fn lemma_groups_for_one_more(kinds: Seq<Kind>, kind: Kind, changes: Seq<ChangeView>)
    ensures
        groups_for(kinds.push(kind), changes) == if of_kind(changes, kind).len() > 0 {
            groups_for(kinds, changes).push(GroupView { kind, changes: of_kind(changes, kind) })
        } else {
            groups_for(kinds, changes)
        },
{
    kinds.lemma_filter_push(kind, occurs_in(changes));
    kinds.filter(occurs_in(changes)).lemma_push_map_commute(group_in(changes), kind);
}

/// Appends the group of `kind` to `groups`, unless it has no changes.
fn push_group(
    groups: &mut Vec<Group>,
    kind: Kind,
    changes: Vec<Change>,
    Ghost(kinds): Ghost<Seq<Kind>>,
    Ghost(all): Ghost<Seq<ChangeView>>,
)
    requires
        old(groups).deep_view() == groups_for(kinds, all),
        changes.deep_view() == of_kind(all, kind),
    ensures
        final(groups).deep_view() == groups_for(kinds.push(kind), all),
{
    proof {
        lemma_groups_for_one_more(kinds, kind, all);
    }
    if changes.len() > 0 {
        groups.push(Group { kind, changes });
    }
}

/// Groups the changes by kind for listing.
///
/// The groups come in the fixed listing order of the kinds. A kind without
/// changes gets no group. Within a group the changes keep the order in which
/// they were given: grouping does not sort.
pub fn group_by_kind(changes: Vec<Change>) -> (groups: Vec<Group>)
    ensures
        groups.deep_view() == grouped(changes.deep_view()),
{
    let ghost all = changes.deep_view();
    let ghost given = changes@;
    let mut added: Vec<Change> = Vec::new();
    let mut fixed: Vec<Change> = Vec::new();
    let mut changed: Vec<Change> = Vec::new();
    let mut removed: Vec<Change> = Vec::new();
    let mut deprecated: Vec<Change> = Vec::new();
    let mut security: Vec<Change> = Vec::new();
    proof {
        reveal_with_fuel(Seq::filter, 1);
    }
    for change in it: changes
        invariant
            it.seq() == given,
            all.len() == given.len(),
            forall|k: int| 0 <= k < given.len() ==> all[k] == (#[trigger] given[k])@,
            added.deep_view() == of_kind(all.take(it.index() as int), Kind::Added),
            fixed.deep_view() == of_kind(all.take(it.index() as int), Kind::Fixed),
            changed.deep_view() == of_kind(all.take(it.index() as int), Kind::Changed),
            removed.deep_view() == of_kind(all.take(it.index() as int), Kind::Removed),
            deprecated.deep_view() == of_kind(all.take(it.index() as int), Kind::Deprecated),
            security.deep_view() == of_kind(all.take(it.index() as int), Kind::Security),
    {
        proof {
            let done = all.take(it.index() as int);
            assert(all.take(it.index() + 1) =~= done.push(change@));
            done.lemma_filter_push(change@, has_kind(Kind::Added));
            done.lemma_filter_push(change@, has_kind(Kind::Fixed));
            done.lemma_filter_push(change@, has_kind(Kind::Changed));
            done.lemma_filter_push(change@, has_kind(Kind::Removed));
            done.lemma_filter_push(change@, has_kind(Kind::Deprecated));
            done.lemma_filter_push(change@, has_kind(Kind::Security));
        }
        match change.kind {
            Kind::Added => added.push(change),
            Kind::Fixed => fixed.push(change),
            Kind::Changed => changed.push(change),
            Kind::Deprecated => deprecated.push(change),
            Kind::Removed => removed.push(change),
            Kind::Security => security.push(change),
        }
    }
    proof {
        assert(all.take(given.len() as int) =~= all);
    }
    let ghost none = Seq::<Kind>::empty();
    let mut groups: Vec<Group> = Vec::new();
    proof {
        assert(groups.deep_view() =~= groups_for(none, all)) by {
            reveal_with_fuel(Seq::filter, 1);
        }
    }
    push_group(&mut groups, Kind::Added, added, Ghost(none), Ghost(all));
    let ghost kinds = none.push(Kind::Added);
    push_group(&mut groups, Kind::Fixed, fixed, Ghost(kinds), Ghost(all));
    let ghost kinds = kinds.push(Kind::Fixed);
    push_group(&mut groups, Kind::Changed, changed, Ghost(kinds), Ghost(all));
    let ghost kinds = kinds.push(Kind::Changed);
    push_group(&mut groups, Kind::Removed, removed, Ghost(kinds), Ghost(all));
    let ghost kinds = kinds.push(Kind::Removed);
    push_group(&mut groups, Kind::Deprecated, deprecated, Ghost(kinds), Ghost(all));
    let ghost kinds = kinds.push(Kind::Deprecated);
    push_group(&mut groups, Kind::Security, security, Ghost(kinds), Ghost(all));
    proof {
        assert(kinds.push(Kind::Security) =~= listing_order());
    }
    groups
}

/// Filtering a sequence without duplicates leaves no duplicates.
proof fn lemma_filter_keeps_distinct<A>(s: Seq<A>, pred: spec_fn(A) -> bool)
    requires
        s.no_duplicates(),
    ensures
        s.filter(pred).no_duplicates(),
    decreases s.len(),
{
    reveal(Seq::filter);
    if s.len() > 0 {
        let front = s.drop_last();
        lemma_filter_keeps_distinct(front, pred);
        if pred(s.last()) {
            let kept = front.filter(pred);
            assert forall|i: int| 0 <= i < kept.len() implies kept[i] != s.last() by {
                front.lemma_filter_contains_rev(pred, kept[i]);
            }
        }
    }
}

/// An element that passes a filter stands in the filtered sequence as often
/// as in the sequence itself; one that does not pass does not stand in it.
proof fn lemma_filter_count<A>(s: Seq<A>, pred: spec_fn(A) -> bool, a: A)
    ensures
        s.filter(pred).to_multiset().count(a) == if pred(a) {
            s.to_multiset().count(a)
        } else {
            0
        },
    decreases s.len(),
{
    reveal(Seq::filter);
    if s.len() == 0 {
        s.to_multiset_ensures();
    } else {
        let front = s.drop_last();
        lemma_filter_count(front, pred, a);
        assert(s =~= front.push(s.last()));
        to_multiset_build(front, s.last());
        if pred(s.last()) {
            to_multiset_build(front.filter(pred), s.last());
        }
    }
}

/// Grouping is complete. No group is empty. Each group holds the changes of
/// its kind, in the order in which they were given. No two groups have the
/// same kind, and every change has a group of its kind: so each change
/// stands in exactly one group, as often as it was given.
pub proof fn lemma_grouping_is_complete(changes: Seq<ChangeView>)
    ensures
        forall|g: int|
            0 <= g < grouped(changes).len() ==> (#[trigger] grouped(changes)[g]).changes.len() > 0,
        forall|g: int|
            0 <= g < grouped(changes).len() ==> (#[trigger] grouped(changes)[g]).changes == of_kind(
                changes,
                grouped(changes)[g].kind,
            ),
        forall|g: int, h: int|
            0 <= g < h < grouped(changes).len() ==> (#[trigger] grouped(changes)[g]).kind != (
            #[trigger] grouped(changes)[h]).kind,
        forall|i: int|
            0 <= i < changes.len() ==> exists|g: int|
                0 <= g < grouped(changes).len() && (#[trigger] grouped(changes)[g]).kind == (
                #[trigger] changes[i]).kind,
        forall|g: int, change: ChangeView|
            0 <= g < grouped(changes).len() ==> #[trigger] grouped(
                changes,
            )[g].changes.to_multiset().count(change) == if change.kind == grouped(changes)[g].kind {
                changes.to_multiset().count(change)
            } else {
                0
            },
{
    let order = listing_order();
    let kinds = order.filter(occurs_in(changes));
    let groups = grouped(changes);
    assert forall|g: int| 0 <= g < groups.len() implies (#[trigger] groups[g]).changes.len()
        > 0 by {
        order.lemma_filter_pred(occurs_in(changes), g);
    }
    lemma_filter_keeps_distinct(order, occurs_in(changes));
    assert forall|i: int| 0 <= i < changes.len() implies exists|g: int|
        0 <= g < groups.len() && (#[trigger] groups[g]).kind == (#[trigger] changes[i]).kind by {
        let kind = changes[i].kind;
        changes.lemma_filter_contains(has_kind(kind), i);
        let at: int = match kind {
            Kind::Added => 0,
            Kind::Fixed => 1,
            Kind::Changed => 2,
            Kind::Removed => 3,
            Kind::Deprecated => 4,
            Kind::Security => 5,
        };
        order.lemma_filter_contains(occurs_in(changes), at);
        let g = choose|g: int| 0 <= g < kinds.len() && kinds[g] == kind;
        assert(groups[g].kind == kind);
    }
    assert forall|g: int, change: ChangeView| 0 <= g < groups.len() implies #[trigger] groups[g].changes.to_multiset().count(
        change,
    ) == if change.kind == groups[g].kind {
        changes.to_multiset().count(change)
    } else {
        0
    } by {
        lemma_filter_count(changes, has_kind(groups[g].kind), change);
    }
}

} // verus!
