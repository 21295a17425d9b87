//! A stable sort by rank.
//!
//! The venues send their levels sorted already; a snapshot is sorted again
//! when it is taken in, so that the merge can rely on the order. The sort is
//! stable: levels of equal rank keep the order in which the venue sent them.

use crate::rank::{goes_before, in_order, is_sorted, strictly_before, Direction, Ranked};
use vstd::prelude::*;

verus! {

/// The test whether an item has rank `rank`.
pub open spec fn has_rank<T: Ranked>(rank: int) -> spec_fn(T) -> bool {
    |x: T| x.rank() == rank
}

/// The items of `s` that have rank `rank`, in the order in which `s` holds
/// them.
pub open spec fn with_rank<T: Ranked>(s: Seq<T>, rank: int) -> Seq<T> {
    s.filter(has_rank(rank))
}

/// Whether `sorted` is `input` after a stable sort in direction `direction`:
/// it is as long as `input` and sorted, and for every rank it holds the same
/// items as `input` in the same order. By [`stable_sort_is_unique`] there is
/// at most one such sequence for an input; [`sort_stable`] computes it.
pub open spec fn is_stable_sort_of<T: Ranked>(
    sorted: Seq<T>,
    input: Seq<T>,
    direction: Direction,
) -> bool {
    &&& sorted.len() == input.len()
    &&& is_sorted(sorted, direction)
    &&& forall|rank: int| #[trigger] with_rank(sorted, rank) == with_rank(input, rank)
}

/// No item of `s` has rank `rank`, so `with_rank` finds none.
proof fn lemma_with_rank_none<T: Ranked>(s: Seq<T>, rank: int)
    requires
        forall|k: int| 0 <= k < s.len() ==> (#[trigger] s[k]).rank() != rank,
    ensures
        with_rank(s, rank) == Seq::<T>::empty(),
{
    let found = with_rank(s, rank);
    if found.len() > 0 {
        s.lemma_filter_pred(has_rank(rank), 0);
        assert(found.contains(found[0]));
        s.lemma_filter_contains_rev(has_rank(rank), found[0]);
        let k = choose|k: int| 0 <= k < s.len() && s[k] == found[0];
        assert(s[k].rank() != rank);
    }
    assert(found =~= Seq::<T>::empty());
}

/// Moving the item at `from` down to `to`, past items that all have another
/// rank than it, changes `with_rank` for no rank.
proof fn lemma_move_keeps_ranks<T: Ranked>(s: Seq<T>, to: int, from: int, rank: int)
    requires
        0 <= to <= from < s.len(),
        forall|k: int| to <= k < from ==> (#[trigger] s[k]).rank() != s[from].rank(),
    ensures
        with_rank(s.remove(from).insert(to, s[from]), rank) == with_rank(s, rank),
{
    broadcast use Seq::filter_distributes_over_add;

    let pred = has_rank::<T>(rank);
    let x = s[from];
    let front = s.subrange(0, to);
    let passed = s.subrange(to, from);
    let back = s.subrange(from + 1, s.len() as int);
    let moved = s.remove(from).insert(to, x);
    assert(s =~= front + passed + seq![x] + back);
    assert(moved =~= front + seq![x] + passed + back);
    if x.rank() == rank {
        lemma_with_rank_none(passed, rank);
        assert(passed.filter(pred) =~= Seq::<T>::empty());
    } else {
        lemma_with_rank_none(seq![x], rank);
        assert(seq![x].filter(pred) =~= Seq::<T>::empty());
    }
    assert((front + passed + seq![x] + back).filter(pred) =~= front.filter(pred) + passed.filter(
        pred,
    ) + seq![x].filter(pred) + back.filter(pred));
    assert((front + seq![x] + passed + back).filter(pred) =~= front.filter(pred) + seq![x].filter(
        pred,
    ) + passed.filter(pred) + back.filter(pred));
}

/// The items of rank `rank` in `s` without its first item: those of `s`,
/// less the first of them where the first item of `s` has that rank.
proof fn lemma_with_rank_drop_first<T: Ranked>(s: Seq<T>, rank: int)
    requires
        s.len() > 0,
    ensures
        with_rank(s, rank) == if s[0].rank() == rank {
            seq![s[0]] + with_rank(s.drop_first(), rank)
        } else {
            with_rank(s.drop_first(), rank)
        },
{
    broadcast use Seq::filter_distributes_over_add;

    let pred = has_rank::<T>(rank);
    let first = seq![s[0]];
    assert(s =~= first + s.drop_first());
    assert(first.filter(pred) =~= if s[0].rank() == rank {
        first
    } else {
        Seq::<T>::empty()
    }) by {
        reveal_with_fuel(Seq::filter, 2);
        assert(first.drop_last() =~= Seq::<T>::empty());
    }
    assert((first + s.drop_first()).filter(pred) =~= first.filter(pred) + s.drop_first().filter(
        pred,
    ));
}

/// An item of `s` is found by `with_rank` under its own rank.
proof fn lemma_with_rank_finds<T: Ranked>(s: Seq<T>, k: int)
    requires
        0 <= k < s.len(),
    ensures
        with_rank(s, s[k].rank()).len() > 0,
{
    s.lemma_filter_contains(has_rank(s[k].rank()), k);
}

/// What `with_rank` finds is an item of `s` of that rank.
proof fn lemma_with_rank_found<T: Ranked>(s: Seq<T>, rank: int) -> (k: int)
    requires
        with_rank(s, rank).len() > 0,
    ensures
        0 <= k < s.len(),
        s[k].rank() == rank,
{
    let found = with_rank(s, rank);
    s.lemma_filter_pred(has_rank(rank), 0);
    assert(found.contains(found[0]));
    s.lemma_filter_contains_rev(has_rank(rank), found[0]);
    choose|k: int| 0 <= k < s.len() && s[k] == found[0]
}

/// A stable sort has one result: two sequences that are both the stable
/// sort of one input in one direction are equal.
pub proof fn stable_sort_is_unique<T: Ranked>(
    first: Seq<T>,
    second: Seq<T>,
    input: Seq<T>,
    direction: Direction,
)
    requires
        is_stable_sort_of(first, input, direction),
        is_stable_sort_of(second, input, direction),
    ensures
        first == second,
    decreases first.len(),
{
    assert forall|rank: int| #[trigger] with_rank(first, rank) == with_rank(second, rank) by {
        assert(with_rank(first, rank) == with_rank(input, rank));
        assert(with_rank(second, rank) == with_rank(input, rank));
    }
    if first.len() == 0 {
        if second.len() > 0 {
            lemma_with_rank_finds(second, 0);
            assert(with_rank(first, second[0].rank()) =~= Seq::<T>::empty());
        }
        assert(first =~= second);
    } else {
        lemma_with_rank_finds(first, 0);
        let p = lemma_with_rank_found(second, first[0].rank());
        lemma_with_rank_finds(second, 0);
        let q = lemma_with_rank_found(first, second[0].rank());
        assert(in_order(second[0].rank(), second[p].rank(), direction));
        assert(in_order(first[0].rank(), first[q].rank(), direction));
        assert(first[0].rank() == second[0].rank());
        lemma_with_rank_drop_first(first, first[0].rank());
        lemma_with_rank_drop_first(second, first[0].rank());
        assert(first[0] == with_rank(first, first[0].rank())[0]);
        assert(second[0] == with_rank(second, first[0].rank())[0]);
        let first_rest = first.drop_first();
        let second_rest = second.drop_first();
        assert forall|rank: int| #[trigger]
            with_rank(second_rest, rank) == with_rank(first_rest, rank) by {
            lemma_with_rank_drop_first(first, rank);
            lemma_with_rank_drop_first(second, rank);
            assert(with_rank(first, rank) == with_rank(second, rank));
            if first[0].rank() == rank {
                assert(with_rank(first_rest, rank) =~= with_rank(first, rank).drop_first());
                assert(with_rank(second_rest, rank) =~= with_rank(second, rank).drop_first());
            }
        }
        assert(is_sorted(first_rest, direction)) by {
            assert forall|i: int, j: int| 0 <= i <= j < first_rest.len() implies in_order(
                #[trigger] first_rest[i].rank(),
                #[trigger] first_rest[j].rank(),
                direction,
            ) by {
                assert(first_rest[i] == first[i + 1] && first_rest[j] == first[j + 1]);
            }
        }
        assert(is_sorted(second_rest, direction)) by {
            assert forall|i: int, j: int| 0 <= i <= j < second_rest.len() implies in_order(
                #[trigger] second_rest[i].rank(),
                #[trigger] second_rest[j].rank(),
                direction,
            ) by {
                assert(second_rest[i] == second[i + 1] && second_rest[j] == second[j + 1]);
            }
        }
        stable_sort_is_unique(first_rest, second_rest, first_rest, direction);
        assert(first =~= seq![first[0]] + first_rest);
        assert(second =~= seq![second[0]] + second_rest);
    }
}

/// Sorts `items` by rank in direction `direction`, keeping items of equal
/// rank in the order they had.
pub fn sort_stable<T: Ranked>(items: &mut Vec<T>, direction: Direction)
    ensures
        is_stable_sort_of(final(items)@, old(items)@, direction),
        final(items)@.to_multiset() == old(items)@.to_multiset(),
{
    let mut i: usize = 0;
    while i < items.len()
        invariant
            i <= items@.len(),
            items@.len() == old(items)@.len(),
            is_sorted(items@.take(i as int), direction),
            forall|rank: int| #[trigger] with_rank(items@, rank) == with_rank(old(items)@, rank),
            items@.to_multiset() == old(items)@.to_multiset(),
        decreases items@.len() - i,
    {
        let mut j: usize = i;
        while j > 0 && goes_before(&items[i], &items[j - 1], direction)
            invariant
                j <= i < items@.len(),
                forall|k: int|
                    j <= k < i ==> strictly_before(
                        items@[i as int].rank(),
                        (#[trigger] items@[k]).rank(),
                        direction,
                    ),
            decreases j,
        {
            j = j - 1;
        }
        let ghost before = items@;
        if j < i {
            let x = items.remove(i);
            items.insert(j, x);
        }
        proof {
            let after = items@;
            assert(after =~= before.remove(i as int).insert(j as int, before[i as int]));
            assert forall|rank: int| #[trigger]
                with_rank(after, rank) == with_rank(old(items)@, rank) by {
                lemma_move_keeps_ranks(before, j as int, i as int, rank);
            }
            assert(after.to_multiset() =~= before.to_multiset()) by {
                broadcast use vstd::seq_lib::group_to_multiset_ensures;

                assert(before.to_multiset().count(before[i as int]) > 0);
            }
            let head = after.take(i + 1);
            assert forall|p: int, q: int| 0 <= p <= q < head.len() implies in_order(
                #[trigger] head[p].rank(),
                #[trigger] head[q].rank(),
                direction,
            ) by {
                let sorted = before.take(i as int);
                let x = before[i as int];
                if q < j {
                    assert(head[p] == sorted[p] && head[q] == sorted[q]);
                } else if q == j {
                    if p < j {
                        assert(head[p] == sorted[p]);
                        assert(sorted[j - 1] == before[j - 1]);
                        assert(in_order(sorted[p].rank(), sorted[j - 1].rank(), direction));
                    }
                } else {
                    assert(head[q] == sorted[q - 1]);
                    assert(sorted[q - 1] == before[q - 1]);
                    if p < j {
                        assert(head[p] == sorted[p]);
                    } else if p > j {
                        assert(head[p] == sorted[p - 1]);
                    }
                }
            }
        }
        i = i + 1;
    }
    proof {
        assert(items@.take(i as int) =~= items@);
    }
}

} // verus!
