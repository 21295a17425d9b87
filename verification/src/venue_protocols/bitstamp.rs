//! Bitstamp: the order-book channel, its subscription and its events.

use crate::json::{
    is_plain, is_plain_text, json_string, json_string_text, plain_text_is_unescaped,
};
use crate::venue_protocols::Level;
use vstd::prelude::*;
use vstd::string::*;

verus! {

/// The payload of a data event: the whole top of the book, both sides.
#[derive(Debug)]
pub struct BookUpdate {
    /// The bids, best first.
    pub bids: Vec<Level>,
    /// The asks, best first.
    pub asks: Vec<Level>,
}

/// A decoded frame, told apart by its `event` field.
#[derive(Debug)]
pub enum FeedMessage {
    /// `bts:subscription_succeeded`: the venue accepted the subscription.
    SubscriptionSucceeded {
        /// The channel subscribed to.
        channel: String,
    },
    /// `bts:error`: the venue refused what was asked of it.
    Error {
        /// The venue's error code.
        code: u64,
        /// The venue's explanation.
        message: String,
    },
    /// `data`: a new snapshot of the book.
    Data {
        /// The channel the snapshot belongs to.
        channel: String,
        /// The snapshot.
        data: BookUpdate,
    },
}

/// What the `event` field of a frame says the frame is.
#[derive(Clone, Copy, Debug, PartialEq, Eq)]
pub enum EventKind {
    /// The venue accepted the subscription: nothing to take in.
    SubscriptionSucceeded,
    /// The venue reports an error, with a code and a message.
    Error,
    /// Every other event: the frame is read as a snapshot of the book.
    Data,
}

/// The kind of frame that the event named `event` announces.
pub open spec fn kind_of(event: Seq<char>) -> EventKind {
    if event == "bts:subscription_succeeded"@ {
        EventKind::SubscriptionSucceeded
    } else if event == "bts:error"@ {
        EventKind::Error
    } else {
        EventKind::Data
    }
}

fn same_text(a: &str, b: &str) -> (same: bool)
    ensures
        same == (a@ == b@),
{
    let a = String::from_str(a);
    let b = String::from_str(b);
    a == b
}

/// The kind of frame that the event named `event` announces.
pub fn event_kind(event: &str) -> (kind: EventKind)
    ensures
        kind == kind_of(event@),
{
    if same_text(event, "bts:subscription_succeeded") {
        EventKind::SubscriptionSucceeded
    } else if same_text(event, "bts:error") {
        EventKind::Error
    } else {
        EventKind::Data
    }
}

/// The address of the venue's socket.
pub fn endpoint() -> (url: &'static str)
    ensures
        url@ == "wss://ws.bitstamp.net."@,
{
    "wss://ws.bitstamp.net."
}

/// The name of the order-book channel of `symbol`.
pub open spec fn channel_name(symbol: Seq<char>) -> Seq<char> {
    "order_book_"@ + symbol
}

/// The subscription frame for a channel whose name, as JSON text, is
/// `quoted_channel`: one JSON object without any whitespace.
pub open spec fn subscription_frame(quoted_channel: Seq<char>) -> Seq<char> {
    "{\"event\":\"bts:subscribe\",\"data\":{\"channel\":"@ + quoted_channel + "}}"@
}

/// The subscription frame around the channel name `quoted_channel`, which is
/// JSON text already.
pub fn frame_subscription(quoted_channel: &str) -> (frame: String)
    ensures
        frame@ == subscription_frame(quoted_channel@),
{
    let mut frame = String::from_str("{\"event\":\"bts:subscribe\",\"data\":{\"channel\":");
    frame.append(quoted_channel);
    frame.append("}}");
    frame
}

/// The subscription frame for `symbol` where nothing in it needs escaping:
/// the channel name stands between double quotes as it is.
pub open spec fn plain_subscription_frame(symbol: Seq<char>) -> Seq<char> {
    "{\"event\":\"bts:subscribe\",\"data\":{\"channel\":\"order_book_"@ + symbol + "\"}}"@
}

/// The text frame that subscribes to the order book of `symbol`; it is the
/// first thing sent once the socket is open. The symbol goes into the channel
/// name unchanged, and the channel name into the frame as a JSON string.
pub fn make_subscription_payload(symbol: &str) -> (payload: String)
    ensures
        payload@ == subscription_frame(json_string_text(channel_name(symbol@))),
        is_plain_text(symbol@) ==> payload@ == plain_subscription_frame(symbol@),
{
    let mut channel = String::from_str("order_book_");
    channel.append(symbol);
    let quoted = json_string(channel.as_str());
    let payload = frame_subscription(quoted.as_str());
    proof {
        if is_plain_text(symbol@) {
            reveal_strlit("order_book_");
            reveal_strlit("{\"event\":\"bts:subscribe\",\"data\":{\"channel\":");
            reveal_strlit("{\"event\":\"bts:subscribe\",\"data\":{\"channel\":\"order_book_");
            reveal_strlit("}}");
            reveal_strlit("\"}}");
            let prefix = "order_book_"@;
            assert forall|i: int| 0 <= i < channel@.len() implies is_plain(
                #[trigger] channel@[i],
            ) by {
                if i >= prefix.len() {
                    assert(channel@[i] == symbol@[i - prefix.len()]);
                }
            }
            plain_text_is_unescaped(channel@);
            assert(payload@ =~= plain_subscription_frame(symbol@));
        }
    }
    payload
}

} // verus!
