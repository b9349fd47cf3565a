//! The producer side of the event bus: which streams a symbol is fed from,
//! which window of bars is asked for, and how the bars that were fetched
//! become the candle events of a stream.

use crate::amount::magnitude;
use crate::item_map::ItemMap;
use crate::model::{item_key, item_of, Candle, CandleView, Event, EventView};
use tokio::sync::mpsc::{unbounded_channel, UnboundedReceiver, UnboundedSender};
use vstd::prelude::*;

verus! {

/// The sending half of an unbounded channel of `tokio`, carried as it is:
/// nothing is known of what a value of it holds.
#[verifier::external_type_specification]
#[verifier::external_body]
#[verifier::reject_recursive_types(T)]
pub struct ExUnboundedSender<T>(tokio::sync::mpsc::UnboundedSender<T>);

/// The receiving half of an unbounded channel of `tokio`, carried as it is:
/// nothing is known of what a value of it holds.
#[verifier::external_type_specification]
#[verifier::external_body]
#[verifier::reject_recursive_types(T)]
pub struct ExUnboundedReceiver<T>(tokio::sync::mpsc::UnboundedReceiver<T>);

/// The producers' handle on the channel that carries their events to the
/// dispatch loop. Every producer gets one of its own, made from a clone of
/// the sending half.
#[derive(Debug)]
pub struct BrokerLocal {
    pub event_sender: UnboundedSender<Event>,
}

/// Opens a channel for events, by `tokio::sync::mpsc::unbounded_channel`.
///
/// Trusted: nothing is claimed of the two halves.
#[verifier::external_body]
pub(crate) fn open_channel() -> (r: (UnboundedSender<Event>, UnboundedReceiver<Event>)) {
    unbounded_channel()
}

/// Hands an event to the channel, by `UnboundedSender::send` of `tokio`,
/// and tells whether the channel took it: it does not once the receiving
/// half was closed or dropped.
///
/// Trusted: nothing is claimed of the result, which depends on what the
/// other side of the channel has done.
#[verifier::external_body]
fn send_event(sender: &UnboundedSender<Event>, event: Event) -> (accepted: bool) {
    sender.send(event).is_ok()
}

impl BrokerLocal {
    /// A handle that sends through the given half of a channel.
    pub fn new(event_sender: UnboundedSender<Event>) -> (r: Self)
        ensures
            r.event_sender == event_sender,
    {
        BrokerLocal { event_sender }
    }

    /// Feeds a stream from the bars fetched for it: sends its candle
    /// events, which are those of [`candle_events`], in order, and returns
    /// how many of them the channel took.
    pub fn feed(&self, candles: &Vec<Candle>) -> (accepted: usize)
        ensures
            accepted <= stream_of(candles.deep_view()).len(),
    {
        let events = candle_events(candles);
        let mut accepted: usize = 0;
        let mut sent: usize = 0;
        while sent < events.len()
            invariant
                accepted <= sent <= events.len(),
                events.len() == stream_of(candles.deep_view()).len(),
            decreases events.len() - sent,
        {
            if send_event(&self.event_sender, events[sent].clone()) {
                accepted += 1;
            }
            sent += 1;
        }
        accepted
    }
}

/// Whether two texts hold the same characters.
pub fn same_text(a: &str, b: &str) -> (r: bool)
    ensures
        r == (a@ == b@),
{
    a.to_owned() == b.to_owned()
}

/// Whether bars are kept at this interval.
pub open spec fn is_supported(interval: Seq<char>) -> bool {
    ||| interval == "1m"@
    ||| interval == "3m"@
    ||| interval == "5m"@
    ||| interval == "15m"@
    ||| interval == "30m"@
    ||| interval == "1h"@
    ||| interval == "2h"@
    ||| interval == "4h"@
    ||| interval == "6h"@
    ||| interval == "8h"@
    ||| interval == "12h"@
    ||| interval == "1d"@
    ||| interval == "3d"@
    ||| interval == "1w"@
    ||| interval == "1M"@
}

/// Tells whether bars are kept at an interval.
pub fn is_supported_interval(interval: &str) -> (r: bool)
    ensures
        r == is_supported(interval@),
{
    same_text(interval, "1m") || same_text(interval, "3m") || same_text(interval, "5m")
        || same_text(interval, "15m") || same_text(interval, "30m") || same_text(interval, "1h")
        || same_text(interval, "2h") || same_text(interval, "4h") || same_text(interval, "6h")
        || same_text(interval, "8h") || same_text(interval, "12h") || same_text(interval, "1d")
        || same_text(interval, "3d") || same_text(interval, "1w") || same_text(interval, "1M")
}

/// The window of bars asked of the store: those with a timestamp strictly
/// after `after` and, where `before` is set, strictly before it.
#[derive(Clone, Copy, Debug, PartialEq, Eq)]
pub struct Window {
    pub after: i64,
    pub before: Option<i64>,
}

impl Window {
    pub open spec fn admits(self, timestamp: int) -> bool {
        self.after < timestamp && (self.before matches Some(b) ==> timestamp < b)
    }

    /// Whether a timestamp lies in the window.
    pub fn contains(&self, timestamp: i64) -> (r: bool)
        ensures
            r == self.admits(timestamp as int),
    {
        self.after < timestamp && match self.before {
            Some(b) => timestamp < b,
            None => true,
        }
    }
}

/// The window for a configured start and end: the end bounds the window only
/// where it is positive and after the start.
pub fn candle_window(timestamp_start: i64, timestamp_end: i64) -> (r: Window)
    ensures
        r.after == timestamp_start,
        r.before == if timestamp_end > 0 && timestamp_end > timestamp_start {
            Some(timestamp_end)
        } else {
            None
        },
{
    Window {
        after: timestamp_start,
        before: if timestamp_end > 0 && timestamp_end > timestamp_start {
            Some(timestamp_end)
        } else {
            None
        },
    }
}

/// Number of decimal digits of a natural number.
pub open spec fn digit_count(n: nat) -> nat
    decreases n,
{
    if n < 10 {
        1
    } else {
        1 + digit_count(n / 10)
    }
}

/// Ten to the power `k`.
pub open spec fn pow10(k: nat) -> nat
    decreases k,
{
    if k == 0 {
        1
    } else {
        10 * pow10((k - 1) as nat)
    }
}

/// A number has at most `k` digits exactly when it is below ten to the `k`.
pub proof fn lemma_digit_count_bound(n: nat, k: nat)
    requires
        k >= 1,
    ensures
        digit_count(n) <= k <==> n < pow10(k),
    decreases k,
{
    reveal_with_fuel(pow10, 2);
    if k == 1 {
        if n >= 10 {
            assert(digit_count(n / 10) >= 1);
        }
    } else {
        lemma_digit_count_bound(n / 10, (k - 1) as nat);
        lemma_digit_count_bound(0, (k - 1) as nat);
        let m = pow10((k - 1) as nat);
        assert(pow10(k) == 10 * m);
        assert(n / 10 < m <==> n < 10 * m);
    }
}

/// A number has ten digits exactly when it lies between a thousand million
/// and ten thousand million less one.
pub proof fn lemma_ten_digits(n: nat)
    ensures
        digit_count(n) == 10 <==> 1_000_000_000 <= n <= 9_999_999_999,
{
    lemma_digit_count_bound(n, 10);
    lemma_digit_count_bound(n, 9);
    assert(pow10(9) == 1_000_000_000 && pow10(10) == 10_000_000_000) by {
        reveal_with_fuel(pow10, 11);
    }
}

/// A timestamp in milliseconds: one written with ten digits counts seconds
/// and is multiplied by a thousand, any other is taken as it is.
pub open spec fn normalized_timestamp(timestamp: int) -> int {
    if digit_count(magnitude(timestamp) as nat) == 10 {
        timestamp * 1000
    } else {
        timestamp
    }
}

/// Brings a timestamp to milliseconds.
pub fn normalize_timestamp(timestamp: i64) -> (r: i64)
    ensures
        r == normalized_timestamp(timestamp as int),
{
    proof {
        lemma_ten_digits(magnitude(timestamp as int) as nat);
    }
    if (1_000_000_000 <= timestamp && timestamp <= 9_999_999_999) || (-9_999_999_999 <= timestamp
        && timestamp <= -1_000_000_000) {
        timestamp * 1000
    } else {
        timestamp
    }
}

/// A bar with its timestamp in milliseconds.
pub open spec fn normalized_candle(candle: CandleView) -> CandleView {
    CandleView { timestamp: normalized_timestamp(candle.timestamp), ..candle }
}

/// The candle events of a stream, from the bars fetched for it: the most
/// recent bar is left out, as it may be incomplete, and each of the others
/// is emitted in order with its timestamp in milliseconds.
pub open spec fn stream_of(bars: Seq<CandleView>) -> Seq<EventView> {
    Seq::new(
        if bars.len() >= 1 {
            (bars.len() - 1) as nat
        } else {
            0
        },
        |i: int| EventView::Candle(normalized_candle(bars[i])),
    )
}

/// Turns the bars fetched for a stream into its candle events.
pub fn candle_events(candles: &Vec<Candle>) -> (r: Vec<Event>)
    ensures
        r.deep_view() == stream_of(candles.deep_view()),
{
    let mut events: Vec<Event> = Vec::new();
    if candles.len() == 0 {
        assert(events.deep_view() =~= stream_of(candles.deep_view()));
        return events;
    }
    let kept = candles.len() - 1;
    let mut i: usize = 0;
    while i < kept
        invariant
            i <= kept,
            kept == candles.len() - 1,
            events.len() == i,
            forall|k: int|
                0 <= k < i ==> (#[trigger] events[k])@ == EventView::Candle(
                    normalized_candle(candles[k]@),
                ),
        decreases kept - i,
    {
        let candle = &candles[i];
        events.push(
            Event::EventCandle(
                Candle {
                    symbol: candle.symbol.clone(),
                    timestamp: normalize_timestamp(candle.timestamp),
                    open: candle.open,
                    high: candle.high,
                    low: candle.low,
                    close: candle.close,
                    volume: candle.volume,
                    interval: candle.interval.clone(),
                },
            ),
        );
        i += 1;
    }
    assert(events.deep_view() =~= stream_of(candles.deep_view()));
    events
}

/// One stream to feed: a symbol at an interval, with the configured start
/// and end of its window (zero where none is configured).
#[derive(Debug)]
pub struct StreamRequest {
    pub symbol: String,
    pub interval: String,
    pub item: String,
    pub timestamp_start: i64,
    pub timestamp_end: i64,
}

/// The mathematical view of [`StreamRequest`].
pub struct StreamRequestView {
    pub symbol: Seq<char>,
    pub interval: Seq<char>,
    pub item: Seq<char>,
    pub timestamp_start: int,
    pub timestamp_end: int,
}

impl View for StreamRequest {
    type V = StreamRequestView;

    open spec fn view(&self) -> StreamRequestView {
        StreamRequestView {
            symbol: self.symbol@,
            interval: self.interval@,
            item: self.item@,
            timestamp_start: self.timestamp_start as int,
            timestamp_end: self.timestamp_end as int,
        }
    }
}

impl DeepView for StreamRequest {
    type V = StreamRequestView;

    open spec fn deep_view(&self) -> StreamRequestView {
        self@
    }
}

/// The timestamp configured for an item, zero where none is.
pub open spec fn configured(bounds: Map<Seq<char>, i64>, item: Seq<char>) -> int {
    if bounds.contains_key(item) {
        bounds[item] as int
    } else {
        0
    }
}

/// The request for one stream.
pub open spec fn request_for(
    symbol: Seq<char>,
    interval: Seq<char>,
    starts: Map<Seq<char>, i64>,
    ends: Map<Seq<char>, i64>,
) -> StreamRequestView {
    let item = item_key(symbol, interval);
    StreamRequestView {
        symbol,
        interval,
        item,
        timestamp_start: configured(starts, item),
        timestamp_end: configured(ends, item),
    }
}

/// The streams of a symbol among the first `n` configured intervals: one
/// for each supported interval, in order.
pub open spec fn requests_for(
    symbol: Seq<char>,
    intervals: Seq<Seq<char>>,
    n: int,
    starts: Map<Seq<char>, i64>,
    ends: Map<Seq<char>, i64>,
) -> Seq<StreamRequestView>
    decreases n,
{
    if n <= 0 {
        Seq::empty()
    } else {
        let earlier = requests_for(symbol, intervals, n - 1, starts, ends);
        if is_supported(intervals[n - 1]) {
            earlier.push(request_for(symbol, intervals[n - 1], starts, ends))
        } else {
            earlier
        }
    }
}

/// Lists the streams that the producer of a symbol feeds.
pub fn symbol_streams(
    symbol: &str,
    intervals: &Vec<String>,
    items_timestamp_start: &ItemMap<i64>,
    items_timestamp_end: &ItemMap<i64>,
) -> (r: Vec<StreamRequest>)
    ensures
        r.deep_view() == requests_for(
            symbol@,
            intervals.deep_view(),
            intervals.len() as int,
            items_timestamp_start@,
            items_timestamp_end@,
        ),
{
    let mut requests: Vec<StreamRequest> = Vec::new();
    let mut i: usize = 0;
    assert(requests.deep_view() =~= Seq::<StreamRequestView>::empty());
    while i < intervals.len()
        invariant
            i <= intervals.len(),
            requests.deep_view() == requests_for(
                symbol@,
                intervals.deep_view(),
                i as int,
                items_timestamp_start@,
                items_timestamp_end@,
            ),
        decreases intervals.len() - i,
    {
        let interval = intervals[i].as_str();
        if is_supported_interval(interval) {
            let item = item_of(symbol, interval);
            let timestamp_start = match items_timestamp_start.get(item.as_str()) {
                Some(t) => *t,
                None => 0,
            };
            let timestamp_end = match items_timestamp_end.get(item.as_str()) {
                Some(t) => *t,
                None => 0,
            };
            let ghost before = requests.deep_view();
            let request = StreamRequest {
                symbol: symbol.to_owned(),
                interval: interval.to_owned(),
                item,
                timestamp_start,
                timestamp_end,
            };
            requests.push(request);
            assert(requests.deep_view() =~= before.push(request@));
        }
        i += 1;
    }
    requests
}

} // verus!
