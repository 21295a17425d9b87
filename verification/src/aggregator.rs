//! The aggregation itself: two books, their merged summary, and the step
//! that each frame from a venue makes.
//!
//! [`Aggregator`] owns one [`Book`] per venue. A frame from a venue is handed
//! to [`Aggregator::on_bitstamp`] or [`Aggregator::on_binance`], which takes
//! in a new snapshot where the frame holds one and answers with a [`Step`]:
//! publish this summary, go on, or stop. The caller owns the sockets and the
//! channel, performs the step, and comes back with the next frame.

use crate::iter_utils::{
    lefts, merge, merge_is_sorted_union, merge_keeps_each_side, merge_len, rights,
    sides_of_prefix, untagged, Either, OrderedChain,
};
use crate::rank::{is_sorted, Direction, Ranked};
use crate::sort::{is_stable_sort_of, sort_stable};
use crate::venue_protocols::binance;
use crate::venue_protocols::bitstamp;
use crate::venue_protocols::{Level, Price, Qty};
use vstd::prelude::*;
use vstd::string::*;

verus! {

/// The number of levels that a summary holds per side, at most.
pub const DEPTH: usize = 10;

/// The number of summaries that the channel to the subscribers retains.
pub const FAN_OUT_CAPACITY: usize = 16;

/// One of the two venues.
#[derive(Clone, Copy, Debug, PartialEq, Eq)]
pub enum Venue {
    /// Bitstamp, the first source of every merge.
    Bitstamp,
    /// Binance, the second source of every merge: it wins ties.
    Binance,
}

impl Venue {
    /// The tag that a published level of this venue carries.
    pub open spec fn tag(self) -> Seq<char> {
        match self {
            Venue::Bitstamp => "bitstamp"@,
            Venue::Binance => "binance"@,
        }
    }

    /// The lowercase name of the venue.
    pub fn name(&self) -> (name: &'static str)
        ensures
            name@ == self.tag(),
    {
        match self {
            Venue::Bitstamp => "bitstamp",
            Venue::Binance => "binance",
        }
    }
}

/// One level of a summary: a level of a venue, with the venue's name.
#[derive(Debug)]
pub struct SummaryLevel {
    /// The name of the venue that quotes the level.
    pub exchange: String,
    /// The price of the level.
    pub price: Price,
    /// The quantity at that price.
    pub amount: Qty,
}

/// Summary levels are ordered by price alone, as levels are.
impl Ranked for SummaryLevel {
    open spec fn rank(&self) -> int {
        self.price.value()
    }

    fn ranks_below(&self, other: &Self) -> (below: bool) {
        self.price.ranks_below(&other.price)
    }
}

/// The merged top of both books.
#[derive(Debug)]
pub struct Summary {
    /// The best bids of both venues, highest price first.
    pub bids: Vec<SummaryLevel>,
    /// The best asks of both venues, lowest price first.
    pub asks: Vec<SummaryLevel>,
}

/// Whether `level` is what is published for the merged item `item`: price and
/// quantity of the item, under the name of the venue it came from. The first
/// source of a merge is Bitstamp, the second Binance.
pub open spec fn publishes(level: SummaryLevel, item: Either<Level, Level>) -> bool {
    match item {
        Either::Left(l) => {
            &&& level.exchange@ == Venue::Bitstamp.tag()
            &&& level.price == l.0
            &&& level.amount == l.1
        },
        Either::Right(l) => {
            &&& level.exchange@ == Venue::Binance.tag()
            &&& level.price == l.0
            &&& level.amount == l.1
        },
    }
}

/// Whether `levels` is what is published for the merged items `items`, one
/// for one.
pub open spec fn publishes_all(levels: Seq<SummaryLevel>, items: Seq<Either<Level, Level>>) -> bool {
    &&& levels.len() == items.len()
    &&& forall|i: int| 0 <= i < levels.len() ==> publishes(#[trigger] levels[i], items[i])
}

/// The first [`DEPTH`] items of the merge of Bitstamp's and Binance's levels
/// of one side, or all of them where there are fewer.
pub open spec fn top(bitstamp: Seq<Level>, binance: Seq<Level>, direction: Direction) -> Seq<
    Either<Level, Level>,
> {
    let merged = merge(bitstamp, binance, direction);
    if merged.len() <= DEPTH {
        merged
    } else {
        merged.take(DEPTH as int)
    }
}

/// The number of items in [`top`].
pub open spec fn top_len(bitstamp: Seq<Level>, binance: Seq<Level>) -> nat {
    if bitstamp.len() + binance.len() <= DEPTH {
        bitstamp.len() + binance.len()
    } else {
        DEPTH as nat
    }
}

/// Every item of [`top`] carries the venue it came from: the items tagged
/// `Left` are the first of Bitstamp's levels, the items tagged `Right` the
/// first of Binance's, each in the venue's own order.
pub proof fn top_keeps_each_venue(
    bitstamp: Seq<Level>,
    binance: Seq<Level>,
    direction: Direction,
)
    ensures
        lefts(top(bitstamp, binance, direction)).is_prefix_of(bitstamp),
        rights(top(bitstamp, binance, direction)).is_prefix_of(binance),
{
    let merged = merge(bitstamp, binance, direction);
    merge_keeps_each_side(bitstamp, binance, direction);
    if merged.len() <= DEPTH {
        assert(merged.take(merged.len() as int) =~= merged);
        sides_of_prefix(merged, merged.len() as int);
    } else {
        sides_of_prefix(merged, DEPTH as int);
    }
}

fn make_summary_level(venue: Venue, level: &Level) -> (out: SummaryLevel)
    ensures
        out.exchange@ == venue.tag(),
        out.price == level.0,
        out.amount == level.1,
{
    SummaryLevel { exchange: String::from_str(venue.name()), price: level.0, amount: level.1 }
}

/// What is published for sorted levels is sorted as they are.
proof fn lemma_published_sorted(
    levels: Seq<SummaryLevel>,
    bitstamp: Seq<Level>,
    binance: Seq<Level>,
    direction: Direction,
)
    requires
        is_sorted(bitstamp, direction),
        is_sorted(binance, direction),
        publishes_all(levels, top(bitstamp, binance, direction)),
    ensures
        is_sorted(levels, direction),
{
    merge_is_sorted_union(bitstamp, binance, direction);
    let merged = merge(bitstamp, binance, direction);
    let plain = untagged(merged);
    let items = top(bitstamp, binance, direction);
    assert forall|i: int, j: int| 0 <= i <= j < levels.len() implies crate::rank::in_order(
        #[trigger] levels[i].rank(),
        #[trigger] levels[j].rank(),
        direction,
    ) by {
        assert(items[i] == merged[i] && items[j] == merged[j]);
        assert(publishes(levels[i], items[i]) && publishes(levels[j], items[j]));
        assert(plain[i] == merged[i].inner() && plain[j] == merged[j].inner());
        assert(levels[i].rank() == plain[i].rank());
        assert(levels[j].rank() == plain[j].rank());
    }
}

/// The levels to publish for one side: the first [`DEPTH`] of the merge of
/// the two venues' levels in direction `direction`, each under the name of
/// its venue. Where both venues quote one price, Binance's level comes first.
pub fn aggregate_levels(
    bitstamp_levels: &[Level],
    binance_levels: &[Level],
    direction: Direction,
) -> (levels: Vec<SummaryLevel>)
    ensures
        publishes_all(levels@, top(bitstamp_levels@, binance_levels@, direction)),
        levels@.len() == top_len(bitstamp_levels@, binance_levels@),
        is_sorted(bitstamp_levels@, direction) && is_sorted(binance_levels@, direction)
            ==> is_sorted(levels@, direction),
{
    let ghost whole = merge(bitstamp_levels@, binance_levels@, direction);
    let ghost mut taken: Seq<Either<Level, Level>> = Seq::empty();
    let mut chain = OrderedChain::with_direction(bitstamp_levels, binance_levels, direction);
    let mut levels: Vec<SummaryLevel> = Vec::new();
    let mut exhausted = false;
    proof {
        assert(whole =~= taken + whole);
    }
    while levels.len() < DEPTH && !exhausted
        invariant
            whole == taken + merge(chain.remaining_a(), chain.remaining_b(), direction),
            chain.direction() == direction,
            publishes_all(levels@, taken),
            levels@.len() <= DEPTH,
            exhausted ==> whole == taken,
        decreases
                chain.remaining_a().len() + chain.remaining_b().len() + (if exhausted {
                    0int
                } else {
                    1int
                }),
    {
        let ghost rest = merge(chain.remaining_a(), chain.remaining_b(), direction);
        match chain.next() {
            Some(Either::Left(level)) => {
                levels.push(make_summary_level(Venue::Bitstamp, level));
                proof {
                    let item = Either::<Level, Level>::Left(*level);
                    assert(rest =~= seq![item] + merge(
                        chain.remaining_a(),
                        chain.remaining_b(),
                        direction,
                    ));
                    taken = taken.push(item);
                    assert(whole =~= taken + merge(
                        chain.remaining_a(),
                        chain.remaining_b(),
                        direction,
                    ));
                }
            },
            Some(Either::Right(level)) => {
                levels.push(make_summary_level(Venue::Binance, level));
                proof {
                    let item = Either::<Level, Level>::Right(*level);
                    assert(rest =~= seq![item] + merge(
                        chain.remaining_a(),
                        chain.remaining_b(),
                        direction,
                    ));
                    taken = taken.push(item);
                    assert(whole =~= taken + merge(
                        chain.remaining_a(),
                        chain.remaining_b(),
                        direction,
                    ));
                }
            },
            None => {
                exhausted = true;
                proof {
                    assert(whole =~= taken);
                }
            },
        }
    }
    proof {
        merge_len(bitstamp_levels@, binance_levels@, direction);
        assert(taken =~= top(bitstamp_levels@, binance_levels@, direction));
        if is_sorted(bitstamp_levels@, direction) && is_sorted(binance_levels@, direction) {
            lemma_published_sorted(levels@, bitstamp_levels@, binance_levels@, direction);
        }
    }
    levels
}

/// What a [`Book`] holds: its two sides, best level first.
pub struct BookView {
    /// The bids, highest price first.
    pub bids: Seq<Level>,
    /// The asks, lowest price first.
    pub asks: Seq<Level>,
}

/// Whether `book` holds the snapshot with bids `bids` and asks `asks`: the
/// same levels, the bids sorted by falling and the asks by rising price, with
/// levels at one price in the order of the snapshot.
pub open spec fn holds_snapshot(book: BookView, bids: Seq<Level>, asks: Seq<Level>) -> bool {
    &&& is_stable_sort_of(book.bids, bids, Direction::Descending)
    &&& is_stable_sort_of(book.asks, asks, Direction::Ascending)
    &&& book.bids.to_multiset() == bids.to_multiset()
    &&& book.asks.to_multiset() == asks.to_multiset()
}

/// The book of one venue: the last snapshot it sent, each side sorted.
#[derive(Debug)]
pub struct Book {
    bids: Vec<Level>,
    asks: Vec<Level>,
}

impl View for Book {
    type V = BookView;

    closed spec fn view(&self) -> BookView {
        BookView { bids: self.bids@, asks: self.asks@ }
    }
}

impl Book {
    #[verifier::type_invariant]
    spec fn sides_sorted(self) -> bool {
        &&& is_sorted(self.bids@, Direction::Descending)
        &&& is_sorted(self.asks@, Direction::Ascending)
    }

    /// The book before the venue has sent anything: both sides empty.
    pub fn new() -> (book: Book)
        ensures
            book@.bids.len() == 0,
            book@.asks.len() == 0,
    {
        Book { bids: Vec::new(), asks: Vec::new() }
    }

    /// The book of a snapshot. The sides are sorted once more, bids by
    /// falling and asks by rising price; levels at one price keep the order
    /// in which the venue sent them.
    pub fn from_snapshot(bids: Vec<Level>, asks: Vec<Level>) -> (book: Book)
        ensures
            holds_snapshot(book@, bids@, asks@),
    {
        let mut bids = bids;
        let mut asks = asks;
        sort_stable(&mut bids, Direction::Descending);
        sort_stable(&mut asks, Direction::Ascending);
        Book { bids, asks }
    }

    /// The bids, highest price first.
    pub fn bids(&self) -> (levels: &[Level])
        ensures
            levels@ == self@.bids,
            is_sorted(levels@, Direction::Descending),
    {
        proof {
            use_type_invariant(self);
        }
        self.bids.as_slice()
    }

    /// The asks, lowest price first.
    pub fn asks(&self) -> (levels: &[Level])
        ensures
            levels@ == self@.asks,
            is_sorted(levels@, Direction::Ascending),
    {
        proof {
            use_type_invariant(self);
        }
        self.asks.as_slice()
    }
}

impl Default for Book {
    fn default() -> (book: Book)
        ensures
            book@.bids.len() == 0,
            book@.asks.len() == 0,
    {
        Book::new()
    }
}

/// Whether the two books together lack a side: no bid on either venue, or no
/// ask on either.
pub open spec fn one_sided(bitstamp: BookView, binance: BookView) -> bool {
    ||| bitstamp.bids.len() + binance.bids.len() == 0
    ||| bitstamp.asks.len() + binance.asks.len() == 0
}

/// Whether `summary` is the summary of the two books: on each side the top
/// of the merge of the venues' levels, bids in falling and asks in rising
/// order of price.
pub open spec fn summarizes(summary: Summary, bitstamp: BookView, binance: BookView) -> bool {
    &&& publishes_all(summary.bids@, top(bitstamp.bids, binance.bids, Direction::Descending))
    &&& publishes_all(summary.asks@, top(bitstamp.asks, binance.asks, Direction::Ascending))
}

/// The summary of the two books, or `None` where they are one-sided: a
/// summary is never without bids or without asks. A crossed book, with the
/// best bid above the best ask, is summarized like any other.
pub fn summarize(bitstamp: &Book, binance: &Book) -> (summary: Option<Summary>)
    ensures
        summary is None <==> one_sided(bitstamp@, binance@),
        summary matches Some(s) ==> {
            &&& summarizes(s, bitstamp@, binance@)
            &&& is_sorted(s.bids@, Direction::Descending)
            &&& is_sorted(s.asks@, Direction::Ascending)
            &&& 0 < s.bids@.len() <= DEPTH
            &&& 0 < s.asks@.len() <= DEPTH
            &&& s.bids@.len() == top_len(bitstamp@.bids, binance@.bids)
            &&& s.asks@.len() == top_len(bitstamp@.asks, binance@.asks)
        },
{
    let bids = aggregate_levels(bitstamp.bids(), binance.bids(), Direction::Descending);
    let asks = aggregate_levels(bitstamp.asks(), binance.asks(), Direction::Ascending);
    if bids.len() == 0 || asks.len() == 0 {
        None
    } else {
        Some(Summary { bids, asks })
    }
}

/// What a venue's socket handed over, with a text frame decoded to `M`
/// already.
#[derive(Debug)]
pub enum Frame<M> {
    /// A text frame that decoded to a message of the venue.
    Text(M),
    /// A text frame that did not decode.
    Malformed,
    /// A frame without text: ping, pong, binary, or the peer's close frame.
    Other,
    /// The socket reported an error.
    Failed,
    /// The stream ended: the peer is gone.
    Closed,
}

/// Why the aggregation cannot go on.
#[derive(Debug)]
pub enum Fatal {
    /// Bitstamp answered the subscription with an error event.
    Rejected {
        /// The venue's error code.
        code: u64,
        /// The venue's explanation.
        message: String,
    },
    /// A text frame of the venue did not decode.
    Malformed(Venue),
    /// The venue's socket reported an error.
    Transport(Venue),
    /// The venue closed the stream.
    Disconnected(Venue),
}

/// What to do after a frame.
#[derive(Debug)]
pub enum Step {
    /// A book changed and both sides are quoted: publish this summary.
    Publish(Summary),
    /// Nothing to publish: wait for the next frame.
    Continue,
    /// Stop for good.
    Stop(Fatal),
}

/// What an [`Aggregator`] holds: the book of each venue.
pub struct AggregatorView {
    /// Bitstamp's book.
    pub bitstamp: BookView,
    /// Binance's book.
    pub binance: BookView,
}

/// The state of the aggregation: one book per venue.
#[derive(Debug)]
pub struct Aggregator {
    bitstamp: Book,
    binance: Book,
}

impl View for Aggregator {
    type V = AggregatorView;

    closed spec fn view(&self) -> AggregatorView {
        AggregatorView { bitstamp: self.bitstamp@, binance: self.binance@ }
    }
}

/// Whether `step` is the step that follows a change of a book, with `state`
/// the books after the change: go on without a summary where they are
/// one-sided, and publish their summary where they are not. A published
/// summary has between one and [`DEPTH`] levels on each side, the bids by
/// falling and the asks by rising price.
pub open spec fn announces(step: Step, state: AggregatorView) -> bool {
    if one_sided(state.bitstamp, state.binance) {
        step is Continue
    } else {
        &&& step matches Step::Publish(summary)
        &&& summarizes(summary, state.bitstamp, state.binance)
        &&& is_sorted(summary.bids@, Direction::Descending)
        &&& is_sorted(summary.asks@, Direction::Ascending)
        &&& 0 < summary.bids@.len() <= DEPTH
        &&& 0 < summary.asks@.len() <= DEPTH
    }
}

/// Whether `step` stops the aggregation for the failure `frame` of `venue`,
/// where `frame` is none of the frames that carry a message.
pub open spec fn stops_or_skips<M>(frame: Frame<M>, venue: Venue, step: Step) -> bool {
    match frame {
        Frame::Text(_) => true,
        Frame::Malformed => step matches Step::Stop(Fatal::Malformed(v)) && v == venue,
        Frame::Other => step is Continue,
        Frame::Failed => step matches Step::Stop(Fatal::Transport(v)) && v == venue,
        Frame::Closed => step matches Step::Stop(Fatal::Disconnected(v)) && v == venue,
    }
}

/// What a frame from Bitstamp does: a data event replaces Bitstamp's book by
/// the sorted snapshot and announces the new state; an error event stops with
/// the venue's code and message; every other frame leaves the books as they
/// are, the acknowledgement of the subscription and the frames without text
/// to go on, the rest to stop.
pub open spec fn after_bitstamp(
    before: AggregatorView,
    frame: Frame<bitstamp::FeedMessage>,
    after: AggregatorView,
    step: Step,
) -> bool {
    match frame {
        Frame::Text(bitstamp::FeedMessage::Data { channel, data }) => {
            &&& after.binance == before.binance
            &&& holds_snapshot(after.bitstamp, data.bids@, data.asks@)
            &&& announces(step, after)
        },
        Frame::Text(bitstamp::FeedMessage::SubscriptionSucceeded { channel }) => {
            &&& after == before
            &&& step is Continue
        },
        Frame::Text(bitstamp::FeedMessage::Error { code, message }) => {
            &&& after == before
            &&& step matches Step::Stop(Fatal::Rejected { code: c, message: m })
            &&& c == code
            &&& m@ == message@
        },
        _ => after == before && stops_or_skips(frame, Venue::Bitstamp, step),
    }
}

/// What a frame from Binance does: a text frame, which is always a snapshot,
/// replaces Binance's book by the sorted snapshot and announces the new
/// state; every other frame leaves the books as they are, the frames without
/// text to go on, the rest to stop.
pub open spec fn after_binance(
    before: AggregatorView,
    frame: Frame<binance::BookUpdate>,
    after: AggregatorView,
    step: Step,
) -> bool {
    match frame {
        Frame::Text(update) => {
            &&& after.bitstamp == before.bitstamp
            &&& holds_snapshot(after.binance, update.bids@, update.asks@)
            &&& announces(step, after)
        },
        _ => after == before && stops_or_skips(frame, Venue::Binance, step),
    }
}

fn stop_or_skip<M>(frame: Frame<M>, venue: Venue) -> (step: Step)
    requires
        !(frame is Text),
    ensures
        stops_or_skips(frame, venue, step),
{
    match frame {
        Frame::Text(_) => Step::Continue,
        Frame::Malformed => Step::Stop(Fatal::Malformed(venue)),
        Frame::Other => Step::Continue,
        Frame::Failed => Step::Stop(Fatal::Transport(venue)),
        Frame::Closed => Step::Stop(Fatal::Disconnected(venue)),
    }
}

impl Aggregator {
    /// The state at startup: both books empty.
    pub fn new() -> (aggregator: Aggregator)
        ensures
            aggregator@.bitstamp.bids.len() == 0,
            aggregator@.bitstamp.asks.len() == 0,
            aggregator@.binance.bids.len() == 0,
            aggregator@.binance.asks.len() == 0,
    {
        Aggregator { bitstamp: Book::new(), binance: Book::new() }
    }

    /// Bitstamp's book.
    pub fn bitstamp(&self) -> (book: &Book)
        ensures
            book@ == self@.bitstamp,
    {
        &self.bitstamp
    }

    /// Binance's book.
    pub fn binance(&self) -> (book: &Book)
        ensures
            book@ == self@.binance,
    {
        &self.binance
    }

    /// The summary of the books as they are, or `None` where they are
    /// one-sided.
    pub fn summary(&self) -> (summary: Option<Summary>)
        ensures
            summary is None <==> one_sided(self@.bitstamp, self@.binance),
            summary matches Some(s) ==> {
                &&& summarizes(s, self@.bitstamp, self@.binance)
                &&& is_sorted(s.bids@, Direction::Descending)
                &&& is_sorted(s.asks@, Direction::Ascending)
                &&& 0 < s.bids@.len() <= DEPTH
                &&& 0 < s.asks@.len() <= DEPTH
                &&& s.bids@.len() == top_len(self@.bitstamp.bids, self@.binance.bids)
                &&& s.asks@.len() == top_len(self@.bitstamp.asks, self@.binance.asks)
            },
    {
        summarize(&self.bitstamp, &self.binance)
    }

    fn announce(&self) -> (step: Step)
        ensures
            announces(step, self@),
    {
        match summarize(&self.bitstamp, &self.binance) {
            Some(summary) => Step::Publish(summary),
            None => Step::Continue,
        }
    }

    /// Takes in a frame from Bitstamp and says what to do next.
    pub fn on_bitstamp(&mut self, frame: Frame<bitstamp::FeedMessage>) -> (step: Step)
        ensures
            after_bitstamp(old(self)@, frame, final(self)@, step),
    {
        match frame {
            Frame::Text(bitstamp::FeedMessage::Data { channel: _, data }) => {
                self.bitstamp = Book::from_snapshot(data.bids, data.asks);
                self.announce()
            },
            Frame::Text(bitstamp::FeedMessage::SubscriptionSucceeded { channel: _ }) => {
                Step::Continue
            },
            Frame::Text(bitstamp::FeedMessage::Error { code, message }) => {
                Step::Stop(Fatal::Rejected { code, message })
            },
            other => stop_or_skip(other, Venue::Bitstamp),
        }
    }

    /// Takes in a frame from Binance and says what to do next.
    pub fn on_binance(&mut self, frame: Frame<binance::BookUpdate>) -> (step: Step)
        ensures
            after_binance(old(self)@, frame, final(self)@, step),
    {
        match frame {
            Frame::Text(update) => {
                self.binance = Book::from_snapshot(update.bids, update.asks);
                self.announce()
            },
            other => stop_or_skip(other, Venue::Binance),
        }
    }
}

} // verus!
