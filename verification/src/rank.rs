//! The order that levels and test values are merged and sorted under.

use vstd::prelude::*;

verus! {

/// The direction of a merge or a sort.
#[derive(Clone, Copy, Debug, PartialEq, Eq)]
pub enum Direction {
    /// Smallest rank first.
    Ascending,
    /// Largest rank first.
    Descending,
}

/// A value that is ordered by an integer rank.
///
/// Two values with the same rank are ties: neither goes before the other.
pub trait Ranked {
    /// The rank of the value; values compare as their ranks do.
    spec fn rank(&self) -> int;

    /// Whether `self` ranks strictly below `other`.
    fn ranks_below(&self, other: &Self) -> (below: bool)
        ensures
            below == (self.rank() < other.rank()),
    ;
}

/// Whether rank `x` goes strictly before rank `y` in direction `direction`.
pub open spec fn strictly_before(x: int, y: int, direction: Direction) -> bool {
    match direction {
        Direction::Ascending => x < y,
        Direction::Descending => x > y,
    }
}

/// Whether rank `x` may stand before rank `y` in a sequence sorted in
/// direction `direction`.
pub open spec fn in_order(x: int, y: int, direction: Direction) -> bool {
    match direction {
        Direction::Ascending => x <= y,
        Direction::Descending => x >= y,
    }
}

/// Whether `s` is sorted by rank in direction `direction`, ties allowed.
pub open spec fn is_sorted<T: Ranked>(s: Seq<T>, direction: Direction) -> bool {
    forall|i: int, j: int|
        0 <= i <= j < s.len() ==> in_order(#[trigger] s[i].rank(), #[trigger] s[j].rank(), direction)
}

/// Whether `x` goes strictly before `y` in direction `direction`.
pub fn goes_before<T: Ranked>(x: &T, y: &T, direction: Direction) -> (first: bool)
    ensures
        first == strictly_before(x.rank(), y.rank(), direction),
{
    match direction {
        Direction::Ascending => x.ranks_below(y),
        Direction::Descending => y.ranks_below(x),
    }
}

impl Ranked for i32 {
    open spec fn rank(&self) -> int {
        *self as int
    }

    fn ranks_below(&self, other: &Self) -> (below: bool) {
        *self < *other
    }
}

impl Ranked for i64 {
    open spec fn rank(&self) -> int {
        *self as int
    }

    fn ranks_below(&self, other: &Self) -> (below: bool) {
        *self < *other
    }
}

impl Ranked for u32 {
    open spec fn rank(&self) -> int {
        *self as int
    }

    fn ranks_below(&self, other: &Self) -> (below: bool) {
        *self < *other
    }
}

impl Ranked for u64 {
    open spec fn rank(&self) -> int {
        *self as int
    }

    fn ranks_below(&self, other: &Self) -> (below: bool) {
        *self < *other
    }
}

impl<'a, T: Ranked> Ranked for &'a T {
    open spec fn rank(&self) -> int {
        (**self).rank()
    }

    fn ranks_below(&self, other: &Self) -> (below: bool) {
        (**self).ranks_below(*other)
    }
}

} // verus!
