//! The order in which changes are listed: by priority, highest first, and
//! among equal priorities by age, oldest first.

use crate::change::{Change, ChangeView};
use std::cmp::Ordering;
use vstd::prelude::*;

verus! {

impl ChangeView {
    /// The priority as a number: a change without priority ranks below every
    /// change that has one.
    pub open spec fn priority_level(self) -> int {
        match self.priority {
            Some(priority) => priority as int,
            None => -1,
        }
    }

    /// Whether this change must be listed before `other`: it has the higher
    /// priority, or the same priority and was created earlier.
    pub open spec fn precedes(self, other: ChangeView) -> bool {
        self.priority_level() > other.priority_level() || (self.priority_level()
            == other.priority_level() && self.created < other.created)
    }
}

/// Whether no change of the sequence must be listed before an earlier one.
pub open spec fn is_ordered(changes: Seq<ChangeView>) -> bool {
    forall|i: int, j: int|
        0 <= i < j < changes.len() ==> !(#[trigger] changes[j]).precedes(#[trigger] changes[i])
}

/// Whether `places` names each of the positions `0..len` exactly once.
pub open spec fn is_rearrangement(places: Seq<int>, len: nat) -> bool {
    &&& places.len() == len
    &&& forall|i: int| 0 <= i < len ==> 0 <= #[trigger] places[i] < len
    &&& forall|i: int, j: int| 0 <= i < j < len ==> #[trigger] places[i] != #[trigger] places[j]
}

/// Whether `output` is `input` sorted stably, `places[i]` being the position
/// in `input` of the change that stands at `i` in `output`: the changes are
/// those of `input`, each once; they are in order; and changes of which
/// neither must precede the other stand as they stood in `input`.
pub open spec fn sorts_stably(
    places: Seq<int>,
    input: Seq<ChangeView>,
    output: Seq<ChangeView>,
) -> bool {
    &&& is_rearrangement(places, input.len())
    &&& output.len() == input.len()
    &&& forall|i: int| 0 <= i < output.len() ==> #[trigger] output[i] == input[places[i]]
    &&& is_ordered(output)
    &&& forall|i: int, j: int|
        0 <= i < j < output.len() && !output[i].precedes(output[j]) ==> #[trigger] places[i]
            < #[trigger] places[j]
}

/// Whether `output` is the stable sort of `input`.
pub open spec fn is_stable_sort_of(output: Seq<ChangeView>, input: Seq<ChangeView>) -> bool {
    exists|places: Seq<int>| sorts_stably(places, input, output)
}

/// The stable sort of `input`. Every sequence of changes has exactly one.
pub open spec fn stable_sort(input: Seq<ChangeView>) -> Seq<ChangeView> {
    choose|output: Seq<ChangeView>| is_stable_sort_of(output, input)
}

/// Compares two changes for listing: `Less` where `a` must come before `b`,
/// `Greater` where `b` must come before `a`, `Equal` where neither must.
pub fn highest_priority_then_chronologically(a: &Change, b: &Change) -> (order: Ordering)
    ensures
        order == Ordering::Less <==> a@.precedes(b@),
        order == Ordering::Greater <==> b@.precedes(a@),
        order == Ordering::Equal <==> !a@.precedes(b@) && !b@.precedes(a@),
{
    match (a.priority, b.priority) {
        (Some(_), None) => Ordering::Less,
        (None, Some(_)) => Ordering::Greater,
        (Some(left), Some(right)) if left > right => Ordering::Less,
        (Some(left), Some(right)) if left < right => Ordering::Greater,
        _ => if a.created < b.created {
            Ordering::Less
        } else if a.created > b.created {
            Ordering::Greater
        } else {
            Ordering::Equal
        },
    }
}

/// Returns whether `a` must be listed before `b`.
pub fn comes_before(a: &Change, b: &Change) -> (before: bool)
    ensures
        before == a@.precedes(b@),
{
    match highest_priority_then_chronologically(a, b) {
        Ordering::Less => true,
        _ => false,
    }
}

} // verus!
