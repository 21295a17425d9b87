//! The ordered merge of two sorted sequences.
//!
//! [`OrderedChain`] interleaves two sequences that are each sorted in one
//! direction and tags every item with the side it came from. It is lazy: each
//! call of [`OrderedChain::next`] compares the two heads and hands out one
//! item. [`merge`] is the sequence of all the items it hands out.

use crate::rank::{goes_before, in_order, is_sorted, strictly_before, Direction, Ranked};
use std::cmp::Ordering;
use vstd::prelude::*;

verus! {

/// A value that came from the left or from the right of two sources.
#[derive(Debug, PartialEq, Eq)]
pub enum Either<A, B> {
    /// The item was taken from the first sequence.
    Left(A),
    /// The item was taken from the second sequence.
    Right(B),
}

impl<T> Either<T, T> {
    /// The item, without its side.
    pub open spec fn inner(self) -> T {
        match self {
            Either::Left(x) => x,
            Either::Right(x) => x,
        }
    }

    /// The item, without its side.
    pub fn into_inner(self) -> (item: T)
        ensures
            item == self.inner(),
    {
        match self {
            Either::Left(x) => x,
            Either::Right(x) => x,
        }
    }
}

/// The item that a merge of `a` and `b` hands out first, if any.
///
/// With both sequences empty there is none. With one empty it is the head of
/// the other. Otherwise it is the head of `a` where that goes strictly before
/// the head of `b`, and the head of `b` if not: on a tie `b` goes first.
pub open spec fn head<T: Ranked>(a: Seq<T>, b: Seq<T>, direction: Direction) -> Option<
    Either<T, T>,
> {
    if a.len() == 0 && b.len() == 0 {
        None
    } else if b.len() == 0 {
        Some(Either::Left(a[0]))
    } else if a.len() == 0 {
        Some(Either::Right(b[0]))
    } else if strictly_before(a[0].rank(), b[0].rank(), direction) {
        Some(Either::Left(a[0]))
    } else {
        Some(Either::Right(b[0]))
    }
}

/// The merge of `a` and `b` in direction `direction`: the first item is
/// [`head`], the rest is the merge of what is left once that item is taken
/// from its side.
pub open spec fn merge<T: Ranked>(a: Seq<T>, b: Seq<T>, direction: Direction) -> Seq<Either<T, T>>
    decreases a.len() + b.len(),
{
    if a.len() == 0 && b.len() == 0 {
        Seq::empty()
    } else if b.len() == 0 || (a.len() > 0 && strictly_before(
        a[0].rank(),
        b[0].rank(),
        direction,
    )) {
        seq![Either::Left(a[0])] + merge(a.drop_first(), b, direction)
    } else {
        seq![Either::Right(b[0])] + merge(a, b.drop_first(), direction)
    }
}

/// The items of a merge without their sides.
pub open spec fn untagged<T>(merged: Seq<Either<T, T>>) -> Seq<T> {
    merged.map_values(|e: Either<T, T>| e.inner())
}

/// The items of a merge that came from the first sequence, in the order in
/// which the merge holds them.
pub open spec fn lefts<T>(merged: Seq<Either<T, T>>) -> Seq<T>
    decreases merged.len(),
{
    if merged.len() == 0 {
        Seq::empty()
    } else {
        match merged[0] {
            Either::Left(x) => seq![x] + lefts(merged.drop_first()),
            Either::Right(_) => lefts(merged.drop_first()),
        }
    }
}

/// The items of a merge that came from the second sequence, in the order in
/// which the merge holds them.
pub open spec fn rights<T>(merged: Seq<Either<T, T>>) -> Seq<T>
    decreases merged.len(),
{
    if merged.len() == 0 {
        Seq::empty()
    } else {
        match merged[0] {
            Either::Left(_) => rights(merged.drop_first()),
            Either::Right(x) => seq![x] + rights(merged.drop_first()),
        }
    }
}

/// The item behind a borrowed item.
pub open spec fn owned<T>(item: Either<&T, &T>) -> Either<T, T> {
    match item {
        Either::Left(x) => Either::Left(*x),
        Either::Right(x) => Either::Right(*x),
    }
}

/// The items behind a sequence of borrowed items.
pub open spec fn owned_all<T>(items: Seq<Either<&T, &T>>) -> Seq<Either<T, T>> {
    items.map_values(|e: Either<&T, &T>| owned(e))
}

/// The direction that an ordering between neighbours stands for: `Less` for
/// ascending, `Greater` for descending, none for `Equal`.
pub open spec fn direction_of(cmp: Ordering) -> Option<Direction> {
    match cmp {
        Ordering::Less => Some(Direction::Ascending),
        Ordering::Equal => None,
        Ordering::Greater => Some(Direction::Descending),
    }
}

/// A merge in progress over two borrowed sequences.
pub struct OrderedChain<'a, T> {
    a: &'a [T],
    b: &'a [T],
    taken_a: usize,
    taken_b: usize,
    direction: Direction,
}

impl<'a, T> OrderedChain<'a, T> {
    #[verifier::type_invariant]
    spec fn within_inputs(self) -> bool {
        self.taken_a <= self.a@.len() && self.taken_b <= self.b@.len()
    }
}

impl<'a, T: Ranked> OrderedChain<'a, T> {
    /// What is left of the first sequence.
    pub closed spec fn remaining_a(&self) -> Seq<T> {
        self.a@.skip(self.taken_a as int)
    }

    /// What is left of the second sequence.
    pub closed spec fn remaining_b(&self) -> Seq<T> {
        self.b@.skip(self.taken_b as int)
    }

    /// The direction of the merge.
    pub closed spec fn direction(&self) -> Direction {
        self.direction
    }

    /// A merge of `a` and `b`, each of which the caller has sorted in the
    /// direction that `cmp` stands for. `Equal` stands for no direction and
    /// is no legal argument.
    pub fn new(a: &'a [T], b: &'a [T], cmp: Ordering) -> (chain: Self)
        requires
            cmp != Ordering::Equal,
        ensures
            chain.remaining_a() == a@,
            chain.remaining_b() == b@,
            Some(chain.direction()) == direction_of(cmp),
    {
        match cmp {
            Ordering::Less => OrderedChain::with_direction(a, b, Direction::Ascending),
            Ordering::Equal => unreached(),
            Ordering::Greater => OrderedChain::with_direction(a, b, Direction::Descending),
        }
    }

    /// A merge of `a` and `b` in direction `direction`, in which the caller
    /// has sorted both.
    pub fn with_direction(a: &'a [T], b: &'a [T], direction: Direction) -> (chain: Self)
        ensures
            chain.remaining_a() == a@,
            chain.remaining_b() == b@,
            chain.direction() == direction,
    {
        let chain = OrderedChain { a, b, taken_a: 0, taken_b: 0, direction };
        proof {
            assert(chain.remaining_a() =~= a@);
            assert(chain.remaining_b() =~= b@);
        }
        chain
    }

    /// The next item of the merge, tagged with its side, or `None` once both
    /// sequences are used up.
    pub fn next(&mut self) -> (item: Option<Either<&'a T, &'a T>>)
        ensures
            match item {
                Some(e) => Some(owned(e)),
                None => None,
            } == head(old(self).remaining_a(), old(self).remaining_b(), old(self).direction()),
            final(self).direction() == old(self).direction(),
            final(self).remaining_a() == if item matches Some(Either::Left(_)) {
                old(self).remaining_a().drop_first()
            } else {
                old(self).remaining_a()
            },
            final(self).remaining_b() == if item matches Some(Either::Right(_)) {
                old(self).remaining_b().drop_first()
            } else {
                old(self).remaining_b()
            },
    {
        proof {
            use_type_invariant(&*self);
        }
        let a: &'a [T] = self.a;
        let b: &'a [T] = self.b;
        let has_a = self.taken_a < a.len();
        let has_b = self.taken_b < b.len();
        if has_a && (!has_b || goes_before(&a[self.taken_a], &b[self.taken_b], self.direction)) {
            let x = &a[self.taken_a];
            self.taken_a = self.taken_a + 1;
            proof {
                assert(self.remaining_a() =~= old(self).remaining_a().drop_first());
            }
            Some(Either::Left(x))
        } else if has_b {
            let x = &b[self.taken_b];
            self.taken_b = self.taken_b + 1;
            proof {
                assert(self.remaining_b() =~= old(self).remaining_b().drop_first());
            }
            Some(Either::Right(x))
        } else {
            None
        }
    }

    /// All the items that are left of the merge, in the order in which
    /// [`OrderedChain::next`] would hand them out.
    pub fn collect(self) -> (items: Vec<Either<&'a T, &'a T>>)
        ensures
            owned_all(items@) == merge(self.remaining_a(), self.remaining_b(), self.direction()),
    {
        let ghost whole = merge(self.remaining_a(), self.remaining_b(), self.direction());
        let mut chain = self;
        let mut items: Vec<Either<&'a T, &'a T>> = Vec::new();
        proof {
            assert(owned_all(items@) =~= Seq::empty());
        }
        loop
            invariant
                whole == owned_all(items@) + merge(
                    chain.remaining_a(),
                    chain.remaining_b(),
                    chain.direction(),
                ),
            ensures
                whole == owned_all(items@),
            decreases chain.remaining_a().len() + chain.remaining_b().len(),
        {
            let ghost before = items@;
            match chain.next() {
                Some(e) => {
                    items.push(e);
                    proof {
                        assert(owned_all(items@) =~= owned_all(before).push(owned(e)));
                    }
                },
                None => {
                    break ;
                },
            }
        }
        items
    }
}

/// Sequences that can be merged with another by calling a method on them.
pub trait OrderedChainExt<'a, T: Ranked>: Sized {
    /// The items of the sequence.
    spec fn items(self) -> Seq<T>;

    /// The sequence as a borrowed slice.
    fn into_items(self) -> (items: &'a [T])
        ensures
            items@ == self.items(),
    ;

    /// A merge of this sequence with `other`: [`OrderedChain::new`] with
    /// this sequence as the first of the two.
    fn ordered_chain(self, other: &'a [T], cmp: Ordering) -> (chain: OrderedChain<'a, T>)
        requires
            cmp != Ordering::Equal,
        ensures
            chain.remaining_a() == self.items(),
            chain.remaining_b() == other@,
            Some(chain.direction()) == direction_of(cmp),
    {
        OrderedChain::new(self.into_items(), other, cmp)
    }
}

impl<'a, T: Ranked> OrderedChainExt<'a, T> for &'a [T] {
    open spec fn items(self) -> Seq<T> {
        self@
    }

    fn into_items(self) -> (items: &'a [T]) {
        self
    }
}

impl<'a, T: Ranked> OrderedChainExt<'a, T> for &'a Vec<T> {
    open spec fn items(self) -> Seq<T> {
        self@
    }

    fn into_items(self) -> (items: &'a [T]) {
        self.as_slice()
    }
}

/// A merge holds as many items as the two sequences together.
pub proof fn merge_len<T: Ranked>(a: Seq<T>, b: Seq<T>, direction: Direction)
    ensures
        merge(a, b, direction).len() == a.len() + b.len(),
    decreases a.len() + b.len(),
{
    if a.len() == 0 && b.len() == 0 {
    } else if b.len() == 0 || (a.len() > 0 && strictly_before(
        a[0].rank(),
        b[0].rank(),
        direction,
    )) {
        merge_len(a.drop_first(), b, direction);
    } else {
        merge_len(a, b.drop_first(), direction);
    }
}

/// Every item of a merge carries the side it came from: the items tagged
/// `Left` are the first sequence, the items tagged `Right` the second, each
/// in its own order. This holds of any two sequences, sorted or not.
pub proof fn merge_keeps_each_side<T: Ranked>(a: Seq<T>, b: Seq<T>, direction: Direction)
    ensures
        lefts(merge(a, b, direction)) == a,
        rights(merge(a, b, direction)) == b,
    decreases a.len() + b.len(),
{
    let merged = merge(a, b, direction);
    if a.len() == 0 && b.len() == 0 {
        assert(lefts(merged) =~= a);
        assert(rights(merged) =~= b);
    } else if b.len() == 0 || (a.len() > 0 && strictly_before(
        a[0].rank(),
        b[0].rank(),
        direction,
    )) {
        merge_keeps_each_side(a.drop_first(), b, direction);
        assert(merged.drop_first() =~= merge(a.drop_first(), b, direction));
        assert(lefts(merged) =~= a);
    } else {
        merge_keeps_each_side(a, b.drop_first(), direction);
        assert(merged.drop_first() =~= merge(a, b.drop_first(), direction));
        assert(rights(merged) =~= b);
    }
}

/// Cutting a merge short keeps the sides in step: of the first `n` items the
/// ones tagged `Left` are the first of all that are tagged `Left`, and
/// likewise those tagged `Right`.
pub proof fn sides_of_prefix<T>(merged: Seq<Either<T, T>>, n: int)
    requires
        0 <= n <= merged.len(),
    ensures
        lefts(merged.take(n)).is_prefix_of(lefts(merged)),
        rights(merged.take(n)).is_prefix_of(rights(merged)),
    decreases n,
{
    let cut = merged.take(n);
    if n == 0 {
        assert(lefts(cut) =~= Seq::<T>::empty());
        assert(rights(cut) =~= Seq::<T>::empty());
    } else {
        sides_of_prefix(merged.drop_first(), n - 1);
        assert(cut.drop_first() =~= merged.drop_first().take(n - 1));
        assert(cut[0] == merged[0]);
        let short_l = lefts(cut.drop_first());
        let long_l = lefts(merged.drop_first());
        let short_r = rights(cut.drop_first());
        let long_r = rights(merged.drop_first());
        match merged[0] {
            Either::Left(x) => {
                assert((seq![x] + long_l).subrange(0, (short_l.len() + 1) as int) =~= seq![x] + short_l);
            },
            Either::Right(x) => {
                assert((seq![x] + long_r).subrange(0, (short_r.len() + 1) as int) =~= seq![x] + short_r);
            },
        }
    }
}

/// The merge of two sorted sequences is sorted in the same direction, and
/// holds each item of the two as often as they hold it together.
pub proof fn merge_is_sorted_union<T: Ranked>(a: Seq<T>, b: Seq<T>, direction: Direction)
    requires
        is_sorted(a, direction),
        is_sorted(b, direction),
    ensures
        is_sorted(untagged(merge(a, b, direction)), direction),
        untagged(merge(a, b, direction)).to_multiset() == a.to_multiset().add(b.to_multiset()),
    decreases a.len() + b.len(),
{
    broadcast use vstd::seq_lib::group_to_multiset_ensures;

    let merged = untagged(merge(a, b, direction));
    if a.len() == 0 && b.len() == 0 {
        assert(merged =~= Seq::empty());
        assert(merged.to_multiset() =~= a.to_multiset().add(b.to_multiset()));
    } else if b.len() == 0 || (a.len() > 0 && strictly_before(
        a[0].rank(),
        b[0].rank(),
        direction,
    )) {
        let rest = untagged(merge(a.drop_first(), b, direction));
        merge_is_sorted_union(a.drop_first(), b, direction);
        assert(merged =~= rest.insert(0, a[0]));
        assert(a =~= a.drop_first().insert(0, a[0]));
        assert(merged.to_multiset() =~= a.to_multiset().add(b.to_multiset()));
        assert forall|j: int| 0 <= j < rest.len() implies in_order(
            a[0].rank(),
            #[trigger] rest[j].rank(),
            direction,
        ) by {
            let y = rest[j];
            assert(rest.contains(y));
            assert(rest.to_multiset().count(y) == a.drop_first().to_multiset().count(y)
                + b.to_multiset().count(y));
            if a.drop_first().contains(y) {
                let k = choose|k: int| 0 <= k < a.drop_first().len() && a.drop_first()[k] == y;
                assert(a[k + 1] == y);
            } else {
                assert(b.contains(y));
                let k = choose|k: int| 0 <= k < b.len() && b[k] == y;
                assert(in_order(b[0].rank(), b[k].rank(), direction));
            }
        }
    } else {
        let rest = untagged(merge(a, b.drop_first(), direction));
        merge_is_sorted_union(a, b.drop_first(), direction);
        assert(merged =~= rest.insert(0, b[0]));
        assert(b =~= b.drop_first().insert(0, b[0]));
        assert(merged.to_multiset() =~= a.to_multiset().add(b.to_multiset()));
        assert forall|j: int| 0 <= j < rest.len() implies in_order(
            b[0].rank(),
            #[trigger] rest[j].rank(),
            direction,
        ) by {
            let y = rest[j];
            assert(rest.contains(y));
            assert(rest.to_multiset().count(y) == a.to_multiset().count(y)
                + b.drop_first().to_multiset().count(y));
            if b.drop_first().contains(y) {
                let k = choose|k: int| 0 <= k < b.drop_first().len() && b.drop_first()[k] == y;
                assert(b[k + 1] == y);
            } else {
                assert(a.contains(y));
                let k = choose|k: int| 0 <= k < a.len() && a[k] == y;
                assert(in_order(a[0].rank(), a[k].rank(), direction));
            }
        }
    }
}

} // verus!
