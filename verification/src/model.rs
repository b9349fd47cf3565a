//! The records that flow through a simulation, each with its mathematical
//! view: text as `Seq<char>`, timestamps and amounts as `int`.

use crate::amount::Amount;
use crate::item_map::{history, last_of, with_last, ItemMap};
use vstd::prelude::*;
use vstd::string::StringExecFns;

verus! {

/// One OHLCV sample of an instrument at a timestamp.
#[derive(Debug)]
pub struct Candle {
    pub symbol: String,
    pub timestamp: i64,
    pub open: Amount,
    pub high: Amount,
    pub low: Amount,
    pub close: Amount,
    pub volume: Amount,
    pub interval: String,
}

/// The mathematical view of [`Candle`].
pub struct CandleView {
    pub symbol: Seq<char>,
    pub timestamp: int,
    pub open: int,
    pub high: int,
    pub low: int,
    pub close: int,
    pub volume: int,
    pub interval: Seq<char>,
}

impl View for Candle {
    type V = CandleView;

    open spec fn view(&self) -> CandleView {
        CandleView {
            symbol: self.symbol@,
            timestamp: self.timestamp as int,
            open: self.open@,
            high: self.high@,
            low: self.low@,
            close: self.close@,
            volume: self.volume@,
            interval: self.interval@,
        }
    }
}

impl DeepView for Candle {
    type V = CandleView;

    open spec fn deep_view(&self) -> CandleView {
        self@
    }
}

impl Clone for Candle {
    fn clone(&self) -> (r: Self)
        ensures
            r == *self,
    {
        Candle {
            symbol: self.symbol.clone(),
            timestamp: self.timestamp,
            open: self.open,
            high: self.high,
            low: self.low,
            close: self.close,
            volume: self.volume,
            interval: self.interval.clone(),
        }
    }
}

impl CandleView {
    /// The key of the stream this bar belongs to: symbol, underscore, interval.
    pub open spec fn item(self) -> Seq<char> {
        item_key(self.symbol, self.interval)
    }
}

/// The key of one (instrument, interval) stream: symbol, underscore, interval.
pub open spec fn item_key(symbol: Seq<char>, interval: Seq<char>) -> Seq<char> {
    symbol + "_"@ + interval
}

/// Builds the key of one (instrument, interval) stream.
pub fn item_of(symbol: &str, interval: &str) -> (r: String)
    ensures
        r@ == item_key(symbol@, interval@),
{
    symbol.to_owned().concat("_").concat(interval)
}

/// The current holding on one item. A positive size is long, a negative
/// size short, zero flat. Stop-loss and take-profit are zero while unset.
#[derive(Debug)]
pub struct Position {
    pub item: String,
    pub size: Amount,
    pub price: Amount,
    pub highest: Amount,
    pub lowest: Amount,
    pub stop_loss: Amount,
    pub take_profit: Amount,
    pub timestamp: i64,
}

/// The mathematical view of [`Position`].
pub struct PositionView {
    pub item: Seq<char>,
    pub size: int,
    pub price: int,
    pub highest: int,
    pub lowest: int,
    pub stop_loss: int,
    pub take_profit: int,
    pub timestamp: int,
}

impl View for Position {
    type V = PositionView;

    open spec fn view(&self) -> PositionView {
        PositionView {
            item: self.item@,
            size: self.size@,
            price: self.price@,
            highest: self.highest@,
            lowest: self.lowest@,
            stop_loss: self.stop_loss@,
            take_profit: self.take_profit@,
            timestamp: self.timestamp as int,
        }
    }
}

impl DeepView for Position {
    type V = PositionView;

    open spec fn deep_view(&self) -> PositionView {
        self@
    }
}

impl Clone for Position {
    fn clone(&self) -> (r: Self)
        ensures
            r == *self,
    {
        Position {
            item: self.item.clone(),
            size: self.size,
            price: self.price,
            highest: self.highest,
            lowest: self.lowest,
            stop_loss: self.stop_loss,
            take_profit: self.take_profit,
            timestamp: self.timestamp,
        }
    }
}

/// One accepted fill: a signed quantity of an item at a price.
#[derive(Debug)]
pub struct Order {
    pub item: String,
    pub price: Amount,
    pub qty: Amount,
    pub timestamp: i64,
}

/// The mathematical view of [`Order`].
pub struct OrderView {
    pub item: Seq<char>,
    pub price: int,
    pub qty: int,
    pub timestamp: int,
}

impl View for Order {
    type V = OrderView;

    open spec fn view(&self) -> OrderView {
        OrderView {
            item: self.item@,
            price: self.price@,
            qty: self.qty@,
            timestamp: self.timestamp as int,
        }
    }
}

impl DeepView for Order {
    type V = OrderView;

    open spec fn deep_view(&self) -> OrderView {
        self@
    }
}

impl Clone for Order {
    fn clone(&self) -> (r: Self)
        ensures
            r == *self,
    {
        Order {
            item: self.item.clone(),
            price: self.price,
            qty: self.qty,
            timestamp: self.timestamp,
        }
    }
}

/// A snapshot of the account of one item after a fill, or at the start.
#[derive(Debug)]
pub struct Equity {
    pub item: String,
    pub timestamp: i64,
    pub equity_value: Amount,
    pub close_latest: Amount,
    pub pos_size: Amount,
    pub cash_aval: Amount,
}

/// The mathematical view of [`Equity`].
pub struct EquityView {
    pub item: Seq<char>,
    pub timestamp: int,
    pub equity_value: int,
    pub close_latest: int,
    pub pos_size: int,
    pub cash_aval: int,
}

impl View for Equity {
    type V = EquityView;

    open spec fn view(&self) -> EquityView {
        EquityView {
            item: self.item@,
            timestamp: self.timestamp as int,
            equity_value: self.equity_value@,
            close_latest: self.close_latest@,
            pos_size: self.pos_size@,
            cash_aval: self.cash_aval@,
        }
    }
}

impl DeepView for Equity {
    type V = EquityView;

    open spec fn deep_view(&self) -> EquityView {
        self@
    }
}

impl Clone for Equity {
    fn clone(&self) -> (r: Self)
        ensures
            r == *self,
    {
        Equity {
            item: self.item.clone(),
            timestamp: self.timestamp,
            equity_value: self.equity_value,
            close_latest: self.close_latest,
            pos_size: self.pos_size,
            cash_aval: self.cash_aval,
        }
    }
}

/// One trade on an item, from its opening fill to its close. While the trade
/// is open its closing price and time are zero and its closing label empty.
#[derive(Debug)]
pub struct TradeRecord {
    pub item: String,
    pub side: String,
    pub size: Amount,
    pub price_open: Amount,
    pub time_open: i64,
    pub price_close: Amount,
    pub time_close: i64,
    pub label_close: String,
}

/// The mathematical view of [`TradeRecord`].
pub struct TradeRecordView {
    pub item: Seq<char>,
    pub side: Seq<char>,
    pub size: int,
    pub price_open: int,
    pub time_open: int,
    pub price_close: int,
    pub time_close: int,
    pub label_close: Seq<char>,
}

impl TradeRecordView {
    /// A trade is open while its closing time is unset.
    pub open spec fn is_open(self) -> bool {
        self.time_close == 0
    }
}

impl View for TradeRecord {
    type V = TradeRecordView;

    open spec fn view(&self) -> TradeRecordView {
        TradeRecordView {
            item: self.item@,
            side: self.side@,
            size: self.size@,
            price_open: self.price_open@,
            time_open: self.time_open as int,
            price_close: self.price_close@,
            time_close: self.time_close as int,
            label_close: self.label_close@,
        }
    }
}

impl DeepView for TradeRecord {
    type V = TradeRecordView;

    open spec fn deep_view(&self) -> TradeRecordView {
        self@
    }
}

impl Clone for TradeRecord {
    fn clone(&self) -> (r: Self)
        ensures
            r == *self,
    {
        TradeRecord {
            item: self.item.clone(),
            side: self.side.clone(),
            size: self.size,
            price_open: self.price_open,
            time_open: self.time_open,
            price_close: self.price_close,
            time_close: self.time_close,
            label_close: self.label_close.clone(),
        }
    }
}

impl TradeRecord {
    /// Whether the trade is still open.
    pub fn is_open(&self) -> (r: bool)
        ensures
            r == self@.is_open(),
    {
        self.time_close == 0
    }
}

/// What travels on the event bus between producers, the execution engine and
/// the dispatch loop.
#[derive(Debug)]
pub enum Event {
    EventFinish(),
    EventCandle(Candle),
    EventPosition(Position),
    EventOrder(Order),
    EventEquity(Equity),
    EventTradeRecord(TradeRecord),
}

/// The mathematical view of [`Event`].
pub enum EventView {
    Finish,
    Candle(CandleView),
    Position(PositionView),
    Order(OrderView),
    Equity(EquityView),
    TradeRecord(TradeRecordView),
}

impl View for Event {
    type V = EventView;

    open spec fn view(&self) -> EventView {
        match self {
            Event::EventFinish() => EventView::Finish,
            Event::EventCandle(c) => EventView::Candle(c@),
            Event::EventPosition(p) => EventView::Position(p@),
            Event::EventOrder(o) => EventView::Order(o@),
            Event::EventEquity(e) => EventView::Equity(e@),
            Event::EventTradeRecord(t) => EventView::TradeRecord(t@),
        }
    }
}

impl DeepView for Event {
    type V = EventView;

    open spec fn deep_view(&self) -> EventView {
        self@
    }
}

impl Clone for Event {
    fn clone(&self) -> (r: Self)
        ensures
            r == *self,
    {
        match self {
            Event::EventFinish() => Event::EventFinish(),
            Event::EventCandle(c) => Event::EventCandle(c.clone()),
            Event::EventPosition(p) => Event::EventPosition(p.clone()),
            Event::EventOrder(o) => Event::EventOrder(o.clone()),
            Event::EventEquity(e) => Event::EventEquity(e.clone()),
            Event::EventTradeRecord(t) => Event::EventTradeRecord(t.clone()),
        }
    }
}

/// The sizing and fee settings under which an item was traded.
#[derive(Debug)]
pub struct Profit {
    pub item: String,
    pub is_use_percent_of_equity: bool,
    pub percent_of_every_trade_money: Amount,
    pub percent_of_equity: Amount,
    pub initial_capital: Amount,
    pub every_trade_fee: Amount,
}

/// The mathematical view of [`Profit`].
pub struct ProfitView {
    pub item: Seq<char>,
    pub is_use_percent_of_equity: bool,
    pub percent_of_every_trade_money: int,
    pub percent_of_equity: int,
    pub initial_capital: int,
    pub every_trade_fee: int,
}

impl View for Profit {
    type V = ProfitView;

    open spec fn view(&self) -> ProfitView {
        ProfitView {
            item: self.item@,
            is_use_percent_of_equity: self.is_use_percent_of_equity,
            percent_of_every_trade_money: self.percent_of_every_trade_money@,
            percent_of_equity: self.percent_of_equity@,
            initial_capital: self.initial_capital@,
            every_trade_fee: self.every_trade_fee@,
        }
    }
}

impl DeepView for Profit {
    type V = ProfitView;

    open spec fn deep_view(&self) -> ProfitView {
        self@
    }
}

/// The state of a simulation: per item the bar history, the current
/// position, the trade records, the equity snapshots and the latest cached
/// ATR. It is owned by the dispatch loop and changed nowhere else.
pub struct Context {
    pub candles: ItemMap<Vec<Candle>>,
    pub positions: ItemMap<Position>,
    pub trade_records: ItemMap<Vec<TradeRecord>>,
    pub equities: ItemMap<Vec<Equity>>,
    pub atrs: ItemMap<Amount>,
    pub profits: Vec<Profit>,
}

/// The mathematical view of [`Context`].
pub struct ContextView {
    pub candles: Map<Seq<char>, Seq<CandleView>>,
    pub positions: Map<Seq<char>, PositionView>,
    pub trade_records: Map<Seq<char>, Seq<TradeRecordView>>,
    pub equities: Map<Seq<char>, Seq<EquityView>>,
    pub atrs: Map<Seq<char>, int>,
    pub profits: Seq<ProfitView>,
}

impl ContextView {
    /// The state in which no item has been seen.
    pub open spec fn empty() -> ContextView {
        ContextView {
            candles: Map::empty(),
            positions: Map::empty(),
            trade_records: Map::empty(),
            equities: Map::empty(),
            atrs: Map::empty(),
            profits: Seq::empty(),
        }
    }

    /// The bars seen on an item, oldest first.
    pub open spec fn bars(self, item: Seq<char>) -> Seq<CandleView> {
        history(self.candles, item)
    }

    /// The trade records of an item, oldest first.
    pub open spec fn trades(self, item: Seq<char>) -> Seq<TradeRecordView> {
        history(self.trade_records, item)
    }

    /// The equity snapshots of an item, oldest first.
    pub open spec fn snapshots(self, item: Seq<char>) -> Seq<EquityView> {
        history(self.equities, item)
    }

    pub open spec fn last_equity(self, item: Seq<char>) -> Option<EquityView> {
        last_of(self.snapshots(item))
    }

    pub open spec fn last_trade_record(self, item: Seq<char>) -> Option<TradeRecordView> {
        last_of(self.trades(item))
    }

    pub open spec fn position(self, item: Seq<char>) -> Option<PositionView> {
        if self.positions.contains_key(item) {
            Some(self.positions[item])
        } else {
            None
        }
    }

    pub open spec fn atr(self, item: Seq<char>) -> Option<int> {
        if self.atrs.contains_key(item) {
            Some(self.atrs[item])
        } else {
            None
        }
    }

    pub open spec fn push_candle(self, candle: CandleView) -> ContextView {
        ContextView {
            candles: self.candles.insert(candle.item(), self.bars(candle.item()).push(candle)),
            ..self
        }
    }

    pub open spec fn push_equity(self, equity: EquityView) -> ContextView {
        ContextView {
            equities: self.equities.insert(
                equity.item,
                self.snapshots(equity.item).push(equity),
            ),
            ..self
        }
    }

    pub open spec fn push_trade_record(self, record: TradeRecordView) -> ContextView {
        ContextView {
            trade_records: self.trade_records.insert(
                record.item,
                self.trades(record.item).push(record),
            ),
            ..self
        }
    }

    /// Replaces the latest trade record of the record's item; an item without
    /// trade records is left as it is.
    pub open spec fn update_trade_record(self, record: TradeRecordView) -> ContextView {
        if self.trades(record.item).len() > 0 {
            ContextView {
                trade_records: self.trade_records.insert(
                    record.item,
                    with_last(self.trades(record.item), record),
                ),
                ..self
            }
        } else {
            self
        }
    }

    pub open spec fn update_position(self, position: PositionView) -> ContextView {
        ContextView { positions: self.positions.insert(position.item, position), ..self }
    }

    pub open spec fn update_atr(self, item: Seq<char>, atr: int) -> ContextView {
        ContextView { atrs: self.atrs.insert(item, atr), ..self }
    }

    pub open spec fn push_profit(self, profit: ProfitView) -> ContextView {
        ContextView { profits: self.profits.push(profit), ..self }
    }
}

impl View for Context {
    type V = ContextView;

    open spec fn view(&self) -> ContextView {
        ContextView {
            candles: self.candles@,
            positions: self.positions@,
            trade_records: self.trade_records@,
            equities: self.equities@,
            atrs: self.atrs@,
            profits: self.profits.deep_view(),
        }
    }
}

impl Context {
    /// A context in which no item has been seen.
    pub fn new() -> (r: Self)
        ensures
            r@ == ContextView::empty(),
    {
        let r = Context {
            candles: ItemMap::new(),
            positions: ItemMap::new(),
            trade_records: ItemMap::new(),
            equities: ItemMap::new(),
            atrs: ItemMap::new(),
            profits: Vec::new(),
        };
        assert(r.profits.deep_view() =~= Seq::<ProfitView>::empty());
        r
    }

    /// Appends a bar to the history of its item.
    pub fn push_candle(&mut self, candle: Candle)
        ensures
            final(self)@ == old(self)@.push_candle(candle@),
    {
        let item = item_of(candle.symbol.as_str(), candle.interval.as_str());
        self.candles.push(item.as_str(), candle);
    }

    /// Appends an equity snapshot to the history of its item.
    pub fn push_equity(&mut self, equity: Equity)
        ensures
            final(self)@ == old(self)@.push_equity(equity@),
    {
        let item = equity.item.clone();
        self.equities.push(item.as_str(), equity);
    }

    /// Appends a trade record to the history of its item.
    pub fn push_trade_record(&mut self, trade_record: TradeRecord)
        ensures
            final(self)@ == old(self)@.push_trade_record(trade_record@),
    {
        let item = trade_record.item.clone();
        self.trade_records.push(item.as_str(), trade_record);
    }

    /// Replaces the latest trade record of the record's item, if it has one.
    pub fn update_trade_record(&mut self, trade_record: TradeRecord)
        ensures
            final(self)@ == old(self)@.update_trade_record(trade_record@),
    {
        let item = trade_record.item.clone();
        self.trade_records.set_last(item.as_str(), trade_record);
    }

    /// The latest equity snapshot of an item; absent for an item never seen.
    pub fn get_last_equity(&self, item: &str) -> (r: Option<&Equity>)
        ensures
            r.deep_view() == self@.last_equity(item@),
    {
        self.equities.last(item)
    }

    /// The latest trade record of an item; absent for an item never seen.
    pub fn get_last_trade_record(&self, item: &str) -> (r: Option<&TradeRecord>)
        ensures
            r.deep_view() == self@.last_trade_record(item@),
    {
        self.trade_records.last(item)
    }

    /// Makes the position the current one of its item.
    pub fn update_position(&mut self, position: Position)
        ensures
            final(self)@ == old(self)@.update_position(position@),
    {
        let item = position.item.clone();
        self.positions.insert(item, position);
    }

    /// Caches the latest ATR of an item.
    pub fn update_atr(&mut self, item: &str, atr: Amount)
        ensures
            final(self)@ == old(self)@.update_atr(item@, atr@),
    {
        self.atrs.insert(item.to_owned(), atr);
    }

    /// The current position of an item; absent for an item never seen.
    pub fn get_position(&self, item: &str) -> (r: Option<&Position>)
        ensures
            r.deep_view() == self@.position(item@),
    {
        self.positions.get(item)
    }

    /// The cached ATR of an item; absent while none was cached.
    pub fn get_atr(&self, item: &str) -> (r: Option<Amount>)
        ensures
            r.deep_view() == self@.atr(item@),
    {
        match self.atrs.get(item) {
            Some(a) => Some(*a),
            None => None,
        }
    }

    /// Appends a profit entry.
    pub fn push_profit(&mut self, profit: Profit)
        ensures
            final(self)@ == old(self)@.push_profit(profit@),
    {
        let ghost before = self.profits.deep_view();
        self.profits.push(profit);
        assert(self.profits.deep_view() =~= before.push(profit@));
    }
}

/// The configuration of one simulation run.
pub struct StrategyParams {
    pub stg_name: String,
    pub window_length: i32,
    pub window_atr: i32,
    pub symbols: Vec<String>,
    pub intervals: Vec<String>,
    /// Sizes orders as a fraction of current equity when set, else as a
    /// fraction of initial capital.
    pub is_use_percent_of_equity: bool,
    pub percent_of_equity: Amount,
    pub percent_of_every_trade_money: Amount,
    pub is_sl: bool,
    pub n_atr_sl: Amount,
    pub is_tp: bool,
    pub n_atr_tp: Amount,
    pub tp_method: String,
    pub initial_capital: Amount,
    pub items_timestamp_start: ItemMap<i64>,
    pub items_timestamp_end: ItemMap<i64>,
    pub trading_fee: Amount,
}

/// The mathematical view of [`StrategyParams`].
pub struct ParamsView {
    pub stg_name: Seq<char>,
    pub window_length: int,
    pub window_atr: int,
    pub symbols: Seq<Seq<char>>,
    pub intervals: Seq<Seq<char>>,
    pub is_use_percent_of_equity: bool,
    pub percent_of_equity: int,
    pub percent_of_every_trade_money: int,
    pub is_sl: bool,
    pub n_atr_sl: int,
    pub is_tp: bool,
    pub n_atr_tp: int,
    pub tp_method: Seq<char>,
    pub initial_capital: int,
    pub items_timestamp_start: Map<Seq<char>, i64>,
    pub items_timestamp_end: Map<Seq<char>, i64>,
    pub trading_fee: int,
}

impl View for StrategyParams {
    type V = ParamsView;

    open spec fn view(&self) -> ParamsView {
        ParamsView {
            stg_name: self.stg_name@,
            window_length: self.window_length as int,
            window_atr: self.window_atr as int,
            symbols: self.symbols.deep_view(),
            intervals: self.intervals.deep_view(),
            is_use_percent_of_equity: self.is_use_percent_of_equity,
            percent_of_equity: self.percent_of_equity@,
            percent_of_every_trade_money: self.percent_of_every_trade_money@,
            is_sl: self.is_sl,
            n_atr_sl: self.n_atr_sl@,
            is_tp: self.is_tp,
            n_atr_tp: self.n_atr_tp@,
            tp_method: self.tp_method@,
            initial_capital: self.initial_capital@,
            items_timestamp_start: self.items_timestamp_start@,
            items_timestamp_end: self.items_timestamp_end@,
            trading_fee: self.trading_fee@,
        }
    }
}

} // verus!
