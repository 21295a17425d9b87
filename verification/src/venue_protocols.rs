//! What the two venues send and expect, in the common form that the
//! aggregation works on.

pub mod binance;
pub mod bitstamp;

use crate::decimal::Decimal;
use crate::rank::Ranked;
use vstd::prelude::*;

verus! {

/// A price, exactly as the venue sent it.
pub type Price = Decimal;

/// A quantity, exactly as the venue sent it.
pub type Qty = Decimal;

/// One row of a book side: a price and the quantity resting at it.
pub type Level = (Price, Qty);

/// Levels are ordered by price alone: two levels at one price are a tie,
/// whatever their quantities.
impl Ranked for (Decimal, Decimal) {
    open spec fn rank(&self) -> int {
        self.0.value()
    }

    fn ranks_below(&self, other: &Self) -> (below: bool) {
        self.0.ranks_below(&other.0)
    }
}

} // verus!
