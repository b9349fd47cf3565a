//! A channel-breakout policy: buy when a bar sets the highest high of the
//! last twenty bars while not long, sell when it sets the lowest low while
//! not short. The average true range of the item is cached on the way.

use crate::amount::Amount;
use crate::common::{atr_series, calculate_atr, find_max_last_n, find_min_last_n, has_window};
use crate::engine::{Outcome, Side};
use crate::item_map::last_of;
use crate::model::{item_of, Candle, CandleView, ContextView};
use crate::strategy::{Strategy, StrategyView};
use vstd::prelude::*;

verus! {

/// Number of bars in the channel, and period of the cached ATR.
pub const CHANNEL_PERIOD: usize = 20;

/// Bars needed on an item before the policy acts.
pub const WARM_UP: usize = 21;

/// The most that one order of the policy commits: one hundred.
pub const ORDER_CAP: i64 = 10_000_000_000;

/// The columns of a bar series that the policy reads.
pub open spec fn highs_of(bars: Seq<CandleView>) -> Seq<int> {
    Seq::new(bars.len(), |i: int| bars[i].high)
}

pub open spec fn lows_of(bars: Seq<CandleView>) -> Seq<int> {
    Seq::new(bars.len(), |i: int| bars[i].low)
}

/// Whether `high` is positive and is the greatest high among the last `n`
/// bars.
pub open spec fn sets_high(bars: Seq<CandleView>, n: int, high: int) -> bool {
    &&& has_window(bars.len() as int, n)
    &&& high > 0
    &&& exists|i: int| bars.len() - n <= i < bars.len() && bars[i].high == high
    &&& forall|i: int| bars.len() - n <= i < bars.len() ==> bars[i].high <= high
}

/// Whether `low` is positive and is the least low among the last `n` bars.
pub open spec fn sets_low(bars: Seq<CandleView>, n: int, low: int) -> bool {
    &&& has_window(bars.len() as int, n)
    &&& low > 0
    &&& exists|i: int| bars.len() - n <= i < bars.len() && bars[i].low == low
    &&& forall|i: int| bars.len() - n <= i < bars.len() ==> bars[i].low >= low
}

/// The latest value of the ATR series of the bars, where it exists and can
/// be carried.
pub open spec fn latest_atr(bars: Seq<CandleView>) -> Option<int> {
    match last_of(atr_series(bars, CHANNEL_PERIOD as int)) {
        Some(Some(a)) => Some(a),
        _ => None,
    }
}

/// The size of the position held on an item, zero where none is known.
pub open spec fn held(ctx: ContextView, item: Seq<char>) -> int {
    match ctx.position(item) {
        Some(p) => p.size,
        None => 0,
    }
}

/// What the policy did on a bar.
#[derive(Clone, Copy, Debug, PartialEq, Eq)]
pub struct Signals {
    /// The outcome of the purchase, where one was submitted.
    pub bought: Option<Outcome>,
    /// The outcome of the sale, where one was submitted.
    pub sold: Option<Outcome>,
}

/// The run after the policy has seen a bar, with what it did.
pub open spec fn channel_turn(s: StrategyView, candle: CandleView) -> (Signals, StrategyView) {
    let item = candle.item();
    let bars = s.context.bars(item);
    if bars.len() < WARM_UP {
        (Signals { bought: None, sold: None }, s)
    } else {
        let cached = match latest_atr(bars) {
            Some(a) => StrategyView { context: s.context.update_atr(item, a), ..s },
            None => s,
        };
        let size = held(s.context, item);
        let (bought, after_buy) = if sets_high(bars, CHANNEL_PERIOD as int, candle.high) && size
            <= 0 {
            let (o, t) = cached.submit(
                item,
                candle.close,
                candle.timestamp,
                Some(ORDER_CAP as int),
                Side::Buy,
            );
            (Some(o), t)
        } else {
            (None, cached)
        };
        let (sold, after_sell) = if sets_low(bars, CHANNEL_PERIOD as int, candle.low) && size
            >= 0 {
            let (o, t) = after_buy.submit(
                item,
                candle.close,
                candle.timestamp,
                Some(ORDER_CAP as int),
                Side::Sell,
            );
            (Some(o), t)
        } else {
            (None, after_buy)
        };
        (Signals { bought, sold }, after_sell)
    }
}

fn column_of_highs(candles: &Vec<Candle>) -> (r: Vec<Amount>)
    ensures
        r.deep_view() == highs_of(candles.deep_view()),
{
    let mut column: Vec<Amount> = Vec::new();
    let mut i: usize = 0;
    while i < candles.len()
        invariant
            i <= candles.len(),
            column.len() == i,
            forall|k: int| 0 <= k < i ==> (#[trigger] column[k])@ == candles[k]@.high,
        decreases candles.len() - i,
    {
        column.push(candles[i].high);
        i += 1;
    }
    assert(column.deep_view() =~= highs_of(candles.deep_view()));
    column
}

fn column_of_lows(candles: &Vec<Candle>) -> (r: Vec<Amount>)
    ensures
        r.deep_view() == lows_of(candles.deep_view()),
{
    let mut column: Vec<Amount> = Vec::new();
    let mut i: usize = 0;
    while i < candles.len()
        invariant
            i <= candles.len(),
            column.len() == i,
            forall|k: int| 0 <= k < i ==> (#[trigger] column[k])@ == candles[k]@.low,
        decreases candles.len() - i,
    {
        column.push(candles[i].low);
        i += 1;
    }
    assert(column.deep_view() =~= lows_of(candles.deep_view()));
    column
}

/// What the policy reads off the bars of an item for one bar: the ATR to
/// cache, and whether the bar sets the channel's high or low.
struct Reading {
    atr: Option<Amount>,
    sets_high: bool,
    sets_low: bool,
}

fn read_channel(candles: &Vec<Candle>, candle: &Candle) -> (r: Reading)
    requires
        candles.len() >= WARM_UP,
    ensures
        r.atr.deep_view() == latest_atr(candles.deep_view()),
        r.sets_high == sets_high(candles.deep_view(), CHANNEL_PERIOD as int, candle@.high),
        r.sets_low == sets_low(candles.deep_view(), CHANNEL_PERIOD as int, candle@.low),
{
    let ghost bars = candles.deep_view();
    let atrs = calculate_atr(candles.as_slice(), CHANNEL_PERIOD);
    let atr = if atrs.len() > 0 {
        atrs[atrs.len() - 1]
    } else {
        None
    };
    let highs = column_of_highs(candles);
    let lows = column_of_lows(candles);
    let high_slice = highs.as_slice();
    let low_slice = lows.as_slice();
    let max = find_max_last_n(high_slice, CHANNEL_PERIOD);
    let min = find_min_last_n(low_slice, CHANNEL_PERIOD);
    let at_high = max.raw > 0 && candle.high.raw == max.raw;
    let at_low = min.raw > 0 && candle.low.raw == min.raw;
    proof {
        let n = bars.len() as int;
        assert(highs.deep_view().len() == n && lows.deep_view().len() == n);
        assert forall|i: int| 0 <= i < n implies (#[trigger] high_slice[i])@ == bars[i].high by {
            assert(highs.deep_view()[i] == highs[i]@);
            assert(highs_of(bars)[i] == bars[i].high);
        }
        assert forall|i: int| 0 <= i < n implies (#[trigger] low_slice[i])@ == bars[i].low by {
            assert(lows.deep_view()[i] == lows[i]@);
            assert(lows_of(bars)[i] == bars[i].low);
        }
        let top = choose|i: int| n - CHANNEL_PERIOD <= i < n && high_slice[i]@ == max@;
        assert(bars[top].high == max@);
        let bottom = choose|i: int| n - CHANNEL_PERIOD <= i < n && low_slice[i]@ == min@;
        assert(bars[bottom].low == min@);
        assert forall|i: int| n - CHANNEL_PERIOD <= i < n implies (#[trigger] bars[i]).high
            <= max@ && bars[i].low >= min@ by {
            assert(high_slice[i]@ <= max@);
            assert(low_slice[i]@ >= min@);
        }
        if sets_high(bars, CHANNEL_PERIOD as int, candle@.high) {
            let i = choose|i: int| n - CHANNEL_PERIOD <= i < n && bars[i].high == candle@.high;
            assert(bars[i].high <= max@);
            assert(bars[top].high <= candle@.high);
        }
        if sets_low(bars, CHANNEL_PERIOD as int, candle@.low) {
            let i = choose|i: int| n - CHANNEL_PERIOD <= i < n && bars[i].low == candle@.low;
            assert(bars[i].low >= min@);
            assert(bars[bottom].low >= candle@.low);
        }
    }
    Reading { atr, sets_high: at_high, sets_low: at_low }
}

/// Lets the policy see a bar that was appended to the history of its item.
pub fn on_candle(stg: &mut Strategy, candle: &Candle) -> (r: Signals)
    ensures
        (r, final(stg)@) == channel_turn(old(stg)@, candle@),
{
    let item = item_of(candle.symbol.as_str(), candle.interval.as_str());
    let reading = match stg.context.candles.get(item.as_str()) {
        Some(candles) => {
            if candles.len() < WARM_UP {
                return Signals { bought: None, sold: None };
            }
            read_channel(candles, candle)
        },
        None => {
            return Signals { bought: None, sold: None };
        },
    };
    let size = match stg.context.get_position(item.as_str()) {
        Some(p) => p.size,
        None => Amount::zero(),
    };
    match reading.atr {
        Some(a) => {
            stg.context.update_atr(item.as_str(), a);
        },
        None => {},
    }
    let cap = Amount { raw: ORDER_CAP };
    let bought = if reading.sets_high && size.raw <= 0 {
        Some(stg.buy(&item, candle.close, candle.timestamp, Some(cap)))
    } else {
        None
    };
    let sold = if reading.sets_low && size.raw >= 0 {
        Some(stg.sell(&item, candle.close, candle.timestamp, Some(cap)))
    } else {
        None
    };
    Signals { bought, sold }
}

/// Most rows that a frame of bars holds.
pub const FRAME_ROWS: usize = 1000;

/// A series of bars by column.
#[derive(Debug)]
pub struct CandleColumns {
    pub symbols: Vec<String>,
    pub timestamps: Vec<i64>,
    pub opens: Vec<Amount>,
    pub highs: Vec<Amount>,
    pub lows: Vec<Amount>,
    pub closes: Vec<Amount>,
    pub volumes: Vec<Amount>,
    pub intervals: Vec<String>,
}

/// The bars that a frame is made of: the last thousand, or all where there
/// are no more.
pub open spec fn frame_rows(bars: Seq<CandleView>) -> Seq<CandleView> {
    if bars.len() <= FRAME_ROWS {
        bars
    } else {
        bars.subrange(bars.len() - FRAME_ROWS, bars.len() as int)
    }
}

impl CandleColumns {
    /// Whether the columns hold exactly these bars, row by row.
    pub open spec fn holds(self, rows: Seq<CandleView>) -> bool {
        &&& self.symbols.deep_view() == Seq::new(rows.len(), |i: int| rows[i].symbol)
        &&& self.timestamps@.len() == rows.len()
        &&& forall|i: int|
            0 <= i < rows.len() ==> self.timestamps@[i] == (#[trigger] rows[i]).timestamp
        &&& self.opens.deep_view() == Seq::new(rows.len(), |i: int| rows[i].open)
        &&& self.highs.deep_view() == Seq::new(rows.len(), |i: int| rows[i].high)
        &&& self.lows.deep_view() == Seq::new(rows.len(), |i: int| rows[i].low)
        &&& self.closes.deep_view() == Seq::new(rows.len(), |i: int| rows[i].close)
        &&& self.volumes.deep_view() == Seq::new(rows.len(), |i: int| rows[i].volume)
        &&& self.intervals.deep_view() == Seq::new(rows.len(), |i: int| rows[i].interval)
    }
}

/// Lays out the last thousand bars of a series by column, for a data frame.
pub fn candle_columns(candles: &Vec<Candle>) -> (r: CandleColumns)
    ensures
        r.holds(frame_rows(candles.deep_view())),
{
    let ghost rows = frame_rows(candles.deep_view());
    let start = if candles.len() <= FRAME_ROWS {
        0
    } else {
        candles.len() - FRAME_ROWS
    };
    let mut columns = CandleColumns {
        symbols: Vec::new(),
        timestamps: Vec::new(),
        opens: Vec::new(),
        highs: Vec::new(),
        lows: Vec::new(),
        closes: Vec::new(),
        volumes: Vec::new(),
        intervals: Vec::new(),
    };
    let mut i: usize = start;
    while i < candles.len()
        invariant
            start <= i <= candles.len(),
            rows == frame_rows(candles.deep_view()),
            rows.len() == candles.len() - start,
            forall|k: int| 0 <= k < rows.len() ==> rows[k] == (#[trigger] candles[start + k])@,
            columns.symbols.len() == i - start,
            columns.timestamps.len() == i - start,
            columns.opens.len() == i - start,
            columns.highs.len() == i - start,
            columns.lows.len() == i - start,
            columns.closes.len() == i - start,
            columns.volumes.len() == i - start,
            columns.intervals.len() == i - start,
            forall|k: int|
                0 <= k < i - start ==> {
                    &&& (#[trigger] columns.symbols[k])@ == rows[k].symbol
                    &&& columns.timestamps[k] == rows[k].timestamp
                    &&& columns.opens[k]@ == rows[k].open
                    &&& columns.highs[k]@ == rows[k].high
                    &&& columns.lows[k]@ == rows[k].low
                    &&& columns.closes[k]@ == rows[k].close
                    &&& columns.volumes[k]@ == rows[k].volume
                    &&& columns.intervals[k]@ == rows[k].interval
                },
        decreases candles.len() - i,
    {
        let candle = &candles[i];
        assert(rows[i - start] == candles[start + (i - start)]@);
        columns.symbols.push(candle.symbol.clone());
        columns.timestamps.push(candle.timestamp);
        columns.opens.push(candle.open);
        columns.highs.push(candle.high);
        columns.lows.push(candle.low);
        columns.closes.push(candle.close);
        columns.volumes.push(candle.volume);
        columns.intervals.push(candle.interval.clone());
        i += 1;
    }
    proof {
        assert forall|k: int| 0 <= k < rows.len() implies {
            &&& columns.symbols.deep_view()[k] == rows[k].symbol
            &&& columns.opens.deep_view()[k] == rows[k].open
            &&& columns.highs.deep_view()[k] == rows[k].high
            &&& columns.lows.deep_view()[k] == rows[k].low
            &&& columns.closes.deep_view()[k] == rows[k].close
            &&& columns.volumes.deep_view()[k] == rows[k].volume
            &&& columns.intervals.deep_view()[k] == rows[k].interval
        } by {
            assert(columns.symbols[k]@ == rows[k].symbol);
        }
        assert forall|k: int| 0 <= k < rows.len() implies columns.timestamps@[k] == (
        #[trigger] rows[k]).timestamp by {
            assert(columns.symbols[k]@ == rows[k].symbol);
        }
        assert(columns.symbols.deep_view() =~= Seq::new(rows.len(), |i: int| rows[i].symbol));
        assert(columns.opens.deep_view() =~= Seq::new(rows.len(), |i: int| rows[i].open));
        assert(columns.highs.deep_view() =~= Seq::new(rows.len(), |i: int| rows[i].high));
        assert(columns.lows.deep_view() =~= Seq::new(rows.len(), |i: int| rows[i].low));
        assert(columns.closes.deep_view() =~= Seq::new(rows.len(), |i: int| rows[i].close));
        assert(columns.volumes.deep_view() =~= Seq::new(rows.len(), |i: int| rows[i].volume));
        assert(columns.intervals.deep_view() =~= Seq::new(
            rows.len(),
            |i: int| rows[i].interval,
        ));
    }
    columns
}

} // verus!
