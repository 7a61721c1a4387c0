//! Sorting a batch of changes for listing.

use crate::change::{Change, ChangeView};
use crate::order::{
    comes_before, is_ordered, is_rearrangement, is_stable_sort_of, sorts_stably, stable_sort,
};
use vstd::prelude::*;
use vstd::seq_lib::seq_to_set_is_finite;
use vstd::set_lib::{lemma_int_range, lemma_subset_equality, set_int_range};

verus! {

/// Taking the element at `from` out of `s` and putting it back at `to`, in
/// front of it, shifts the elements in between by one place and leaves the
/// others where they were.
proof fn lemma_move_forward<A>(s: Seq<A>, from: int, to: int)
    requires
        0 <= to <= from < s.len(),
    ensures
        s.remove(from).insert(to, s[from]).len() == s.len(),
        forall|k: int| 0 <= k < to ==> #[trigger] s.remove(from).insert(to, s[from])[k] == s[k],
        s.remove(from).insert(to, s[from])[to] == s[from],
        forall|k: int|
            to < k <= from ==> #[trigger] s.remove(from).insert(to, s[from])[k] == s[k - 1],
        forall|k: int|
            from < k < s.len() ==> #[trigger] s.remove(from).insert(to, s[from])[k] == s[k],
{
}

/// Sorts the changes for listing: by priority, highest first, changes
/// without priority last; among equal priorities by creation time, oldest
/// first; and changes that agree in both stay in the order they had.
pub fn sort_changes(changes: &mut Vec<Change>)
    ensures
        is_stable_sort_of(final(changes).deep_view(), old(changes).deep_view()),
        final(changes).deep_view() == stable_sort(old(changes).deep_view()),
        is_ordered(final(changes).deep_view()),
        is_ordered(old(changes).deep_view()) ==> final(changes).deep_view() == old(
            changes,
        ).deep_view(),
{
    let ghost input = changes.deep_view();
    let n = changes.len();
    let ghost mut places: Seq<int> = Seq::new(n as nat, |k: int| k);
    let mut i: usize = 0;
    while i < n
        invariant
            i <= n,
            changes.len() == n,
            input.len() == n,
            is_rearrangement(places, n as nat),
            forall|k: int| 0 <= k < n ==> (#[trigger] changes@[k])@ == input[places[k]],
            forall|k: int| i <= k < n ==> #[trigger] places[k] == k,
            forall|k: int| 0 <= k < i ==> #[trigger] places[k] < i,
            forall|k: int, l: int|
                0 <= k < l < i ==> !(#[trigger] changes@[l])@.precedes((#[trigger] changes@[k])@),
            forall|k: int, l: int|
                0 <= k < l < i && !changes@[k]@.precedes(changes@[l]@) ==> #[trigger] places[k]
                    < #[trigger] places[l],
        decreases n - i,
    {
        let mut j: usize = i;
        while j > 0 && comes_before(&changes[i], &changes[j - 1])
            invariant
                j <= i < n,
                changes.len() == n,
                forall|k: int| j <= k < i ==> changes@[i as int]@.precedes((#[trigger] changes@[k])@),
            decreases j,
        {
            j -= 1;
        }
        if j < i {
            let ghost before = changes@;
            let ghost old_places = places;
            let moved = changes.remove(i);
            changes.insert(j, moved);
            proof {
                places = old_places.remove(i as int).insert(j as int, old_places[i as int]);
                lemma_move_forward(before, i as int, j as int);
                lemma_move_forward(old_places, i as int, j as int);
            }
        }
        i += 1;
    }
    proof {
        let output = changes.deep_view();
        assert(sorts_stably(places, input, output));
        lemma_stable_sort_is_unique(input, output, stable_sort(input));
        if is_ordered(input) {
            lemma_ordered_input_is_kept(places, input, output);
        }
    }
}

/// A sequence of `len` positions below `len` that rises strictly names each
/// position at its own place.
proof fn lemma_rising_places_are_fixed(places: Seq<int>, len: nat, i: int)
    requires
        is_rearrangement(places, len),
        forall|k: int, l: int| 0 <= k < l < len ==> #[trigger] places[k] < #[trigger] places[l],
        0 <= i < len,
    ensures
        places[i] == i,
{
    lemma_rising_places_from_below(places, len, i);
    lemma_rising_places_from_above(places, len, i);
}

proof fn lemma_rising_places_from_below(places: Seq<int>, len: nat, i: int)
    requires
        is_rearrangement(places, len),
        forall|k: int, l: int| 0 <= k < l < len ==> #[trigger] places[k] < #[trigger] places[l],
        0 <= i < len,
    ensures
        places[i] >= i,
    decreases i,
{
    if i > 0 {
        lemma_rising_places_from_below(places, len, i - 1);
    }
}

proof fn lemma_rising_places_from_above(places: Seq<int>, len: nat, i: int)
    requires
        is_rearrangement(places, len),
        forall|k: int, l: int| 0 <= k < l < len ==> #[trigger] places[k] < #[trigger] places[l],
        0 <= i < len,
    ensures
        places[i] <= i,
    decreases len - i,
{
    if i + 1 < len {
        lemma_rising_places_from_above(places, len, i + 1);
    }
}

/// A stable sort moves nothing in a sequence that is in order already.
proof fn lemma_ordered_input_is_kept(
    places: Seq<int>,
    input: Seq<ChangeView>,
    output: Seq<ChangeView>,
)
    requires
        is_ordered(input),
        sorts_stably(places, input, output),
    ensures
        output == input,
{
    let len = input.len();
    assert forall|k: int, l: int| 0 <= k < l < len implies #[trigger] places[k] < #[trigger] places[l] by {
        // Where output[k] need not precede output[l], stability says so. Where
        // it must, the two cannot have stood the other way round in an input
        // that was in order.
        if output[k].precedes(output[l]) {
            assert(places[k] != places[l]);
        }
    }
    assert forall|i: int| 0 <= i < len implies output[i] == input[i] by {
        lemma_rising_places_are_fixed(places, len, i);
    }
}

/// Every position below `len` stands somewhere in a rearrangement of them.
proof fn lemma_rearrangement_reaches(places: Seq<int>, len: nat, position: int) -> (at: int)
    requires
        is_rearrangement(places, len),
        0 <= position < len,
    ensures
        0 <= at < len,
        places[at] == position,
{
    let all = set_int_range(0, len as int);
    places.unique_seq_to_set();
    seq_to_set_is_finite(places);
    lemma_int_range(0, len as int);
    assert(places.to_set().subset_of(all));
    lemma_subset_equality(places.to_set(), all);
    assert(all.contains(position));
    choose|k: int| 0 <= k < places.len() && places[k] == position
}

/// Two stable sorts of one input take the change for each place from the
/// same position.
proof fn lemma_stable_sorts_agree(
    first_places: Seq<int>,
    second_places: Seq<int>,
    input: Seq<ChangeView>,
    first: Seq<ChangeView>,
    second: Seq<ChangeView>,
    i: int,
)
    requires
        sorts_stably(first_places, input, first),
        sorts_stably(second_places, input, second),
        0 <= i < input.len(),
    ensures
        forall|k: int| 0 <= k <= i ==> first_places[k] == second_places[k],
    decreases i,
{
    if i > 0 {
        lemma_stable_sorts_agree(first_places, second_places, input, first, second, i - 1);
    }
    if first_places[i] != second_places[i] {
        let len = input.len();
        let m = lemma_rearrangement_reaches(second_places, len, first_places[i]);
        let n = lemma_rearrangement_reaches(first_places, len, second_places[i]);
        // Both positions are taken up later in the other sort, since the
        // two agree before `i`. Then each of the two changes would have to
        // stand before the other.
        assert(m > i);
        assert(n > i);
    }
}

/// Sorting is deterministic: a sequence of changes has one stable sort.
pub proof fn lemma_stable_sort_is_unique(
    input: Seq<ChangeView>,
    first: Seq<ChangeView>,
    second: Seq<ChangeView>,
)
    requires
        is_stable_sort_of(first, input),
        is_stable_sort_of(second, input),
    ensures
        first == second,
{
    let first_places = choose|places: Seq<int>| sorts_stably(places, input, first);
    let second_places = choose|places: Seq<int>| sorts_stably(places, input, second);
    if input.len() > 0 {
        lemma_stable_sorts_agree(
            first_places,
            second_places,
            input,
            first,
            second,
            input.len() - 1,
        );
    }
}

/// In a sequence that is in order, the changes that `change` must precede
/// stand together at the end: the result is where they begin.
proof fn lemma_insertion_point(changes: Seq<ChangeView>, change: ChangeView) -> (at: int)
    requires
        is_ordered(changes),
    ensures
        0 <= at <= changes.len(),
        forall|k: int| 0 <= k < at ==> !change.precedes(#[trigger] changes[k]),
        forall|k: int| at <= k < changes.len() ==> change.precedes(#[trigger] changes[k]),
    decreases changes.len(),
{
    if changes.len() == 0 {
        0
    } else if change.precedes(changes.last()) {
        let front = changes.drop_last();
        assert(is_ordered(front));
        let at = lemma_insertion_point(front, change);
        assert forall|k: int| 0 <= k < at implies !change.precedes(#[trigger] changes[k]) by {
            assert(changes[k] == front[k]);
        }
        assert forall|k: int| at <= k < changes.len() implies change.precedes(
            #[trigger] changes[k],
        ) by {
            if k < front.len() {
                assert(changes[k] == front[k]);
            }
        }
        at
    } else {
        // Nothing comes after the last change, and `change` need not precede
        // that one.
        assert forall|k: int| 0 <= k < changes.len() implies !change.precedes(
            #[trigger] changes[k],
        ) by {
            assert(k < changes.len() - 1 ==> !changes.last().precedes(changes[k]));
        }
        changes.len() as int
    }
}

/// Every sequence of changes has a stable sort.
pub proof fn lemma_stable_sort_exists(input: Seq<ChangeView>)
    ensures
        is_stable_sort_of(stable_sort(input), input),
    decreases input.len(),
{
    if input.len() == 0 {
        assert(sorts_stably(Seq::<int>::empty(), input, input));
        assert(is_stable_sort_of(input, input));
    } else {
        let front = input.drop_last();
        let last = input.len() - 1;
        lemma_stable_sort_exists(front);
        let sorted = stable_sort(front);
        let front_places = choose|places: Seq<int>| sorts_stably(places, front, sorted);
        let at = lemma_insertion_point(sorted, input.last());
        let output = sorted.insert(at, input.last());
        let places = front_places.insert(at, last);
        // Put the last change of the input into the stable sort of the
        // others, behind all that it need not precede.
        assert(is_rearrangement(places, input.len()));
        assert(is_ordered(output));
        assert(sorts_stably(places, input, output));
        assert(is_stable_sort_of(output, input));
    }
}

/// A sequence that is in order is its own stable sort.
pub proof fn lemma_ordered_changes_are_sorted(input: Seq<ChangeView>)
    requires
        is_ordered(input),
    ensures
        stable_sort(input) == input,
{
    lemma_stable_sort_exists(input);
    let places = choose|places: Seq<int>| sorts_stably(places, input, stable_sort(input));
    lemma_ordered_input_is_kept(places, input, stable_sort(input));
}

/// Sorting is idempotent: sorting what is sorted already gives it back.
pub proof fn lemma_sorting_is_idempotent(input: Seq<ChangeView>)
    ensures
        stable_sort(stable_sort(input)) == stable_sort(input),
{
    lemma_stable_sort_exists(input);
    lemma_ordered_changes_are_sorted(stable_sort(input));
}

} // verus!
