//! Binance: the partial-book stream of twenty levels per side.

use crate::venue_protocols::Level;
use vstd::prelude::*;
use vstd::string::*;

verus! {

/// One frame of the stream: the whole top of the book, both sides.
#[derive(Debug)]
pub struct BookUpdate {
    /// The bids, best first.
    pub bids: Vec<Level>,
    /// The asks, best first.
    pub asks: Vec<Level>,
}

/// The address of the stream for `symbol`, which stands in its path.
pub open spec fn stream_address(symbol: Seq<char>) -> Seq<char> {
    "wss://stream.binance.com:9443/ws/"@ + symbol + "@depth20@100ms"@
}

/// The address to connect to for the book of `symbol`. Binance takes no
/// subscription frame: the symbol is part of the address, unchanged.
pub fn stream_url(symbol: &str) -> (url: String)
    ensures
        url@ == stream_address(symbol@),
{
    let mut url = String::from_str("wss://stream.binance.com:9443/ws/");
    url.append(symbol);
    url.append("@depth20@100ms");
    url
}

} // verus!
