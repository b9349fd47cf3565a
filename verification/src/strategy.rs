//! The strategy runtime: the state of one simulation run, the orders it
//! accepts, and the dispatch state machine that drains its event bus.
//!
//! The runtime decides; its driver acts. Producers send their bars over a
//! channel. The driver asks for one pass of the dispatch loop at a time
//! with [`Strategy::handle_events`], and invokes the callback of each event
//! that a pass hands back. Orders placed from a callback put their events
//! on the bus of the run, which is drained before the channel is looked at
//! again.

use crate::amount::Amount;
use crate::broker::{open_channel, BrokerLocal};
use crate::engine::{
    plan, plan_order, quote_order, submission, Fill, OrderPlan, Outcome, Side, TradeUpdate,
};
use crate::model::{
    item_key, item_of, Context, ContextView, Equity, EquityView, Event, EventView, Order,
    OrderView, ParamsView, Position, PositionView, StrategyParams,
};
use std::collections::VecDeque;
use tokio::sync::mpsc::error::TryRecvError;
use tokio::sync::mpsc::UnboundedReceiver;
use vstd::prelude::*;

verus! {

/// Idle time, in the driver's time units, after which an empty bus is taken
/// to mean that the stream has ended.
pub const QUIESCENCE_TIMEOUT: u64 = 20;

/// Where a run stands.
#[derive(Clone, Copy, Debug, PartialEq, Eq, Structural)]
pub enum RunState {
    /// Created, not yet seeded.
    Starting,
    /// Seeded; events are dispatched as they arrive.
    Running,
    /// The stream fell silent and a finish event was put on the bus.
    Draining,
    /// The finish event was dispatched, or the bus was closed.
    Finished,
}

/// What one turn of the dispatch loop asks of the driver.
#[derive(Debug)]
pub enum Reaction {
    /// This event was taken from the bus and applied to the context: invoke
    /// its callback.
    Dispatched(Event),
    /// The bus is empty: wait for producers.
    Idle,
    /// The run is over: leave the loop.
    Stopped,
}

/// The mathematical view of [`Reaction`].
pub enum ReactionView {
    Dispatched(EventView),
    Idle,
    Stopped,
}

impl View for Reaction {
    type V = ReactionView;

    open spec fn view(&self) -> ReactionView {
        match self {
            Reaction::Dispatched(e) => ReactionView::Dispatched(e@),
            Reaction::Idle => ReactionView::Idle,
            Reaction::Stopped => ReactionView::Stopped,
        }
    }
}

/// What a look at the producers' channel found.
#[derive(Debug)]
pub enum Polled {
    /// An event had arrived.
    Event(Event),
    /// Nothing had arrived, and producers are still there.
    Empty,
    /// Nothing had arrived, and no producer is left to send anything.
    Closed,
}

/// The mathematical view of [`Polled`].
pub enum PolledView {
    Event(EventView),
    Empty,
    Closed,
}

impl View for Polled {
    type V = PolledView;

    open spec fn view(&self) -> PolledView {
        match self {
            Polled::Event(e) => PolledView::Event(e@),
            Polled::Empty => PolledView::Empty,
            Polled::Closed => PolledView::Closed,
        }
    }
}

/// Looks at the channel without waiting, by `UnboundedReceiver::try_recv`
/// of `tokio`: an event that had arrived is taken from the channel.
///
/// Trusted: nothing is claimed of the result, which depends on what the
/// producers have sent.
#[verifier::external_body]
fn poll_channel(receiver: &mut UnboundedReceiver<Event>) -> (r: Polled) {
    match receiver.try_recv() {
        Ok(event) => Polled::Event(event),
        Err(TryRecvError::Empty) => Polled::Empty,
        Err(TryRecvError::Disconnected) => Polled::Closed,
    }
}

/// One simulation run: its configuration, its context, the events waiting
/// on its bus in arrival order, where the run stands, and the two ends of
/// the channel on which producers deliver their events.
pub struct Strategy {
    pub params: StrategyParams,
    pub context: Context,
    pub bus: VecDeque<Event>,
    pub state: RunState,
    pub broker: BrokerLocal,
    pub event_receiver: UnboundedReceiver<Event>,
}

/// The mathematical view of [`Strategy`].
pub struct StrategyView {
    pub params: ParamsView,
    pub context: ContextView,
    pub bus: Seq<EventView>,
    pub state: RunState,
}

impl View for Strategy {
    type V = StrategyView;

    open spec fn view(&self) -> StrategyView {
        StrategyView {
            params: self.params@,
            context: self.context@,
            bus: self.bus.deep_view(),
            state: self.state,
        }
    }
}

/// The equity snapshot that an item starts with.
pub open spec fn starting_equity(item: Seq<char>, capital: int, timestamp: int) -> EquityView {
    EquityView {
        item,
        timestamp,
        equity_value: capital,
        close_latest: 0,
        pos_size: 0,
        cash_aval: capital,
    }
}

/// The flat position that an item starts with.
pub open spec fn flat_position(item: Seq<char>, timestamp: int) -> PositionView {
    PositionView {
        item,
        size: 0,
        price: 0,
        highest: 0,
        lowest: 0,
        stop_loss: 0,
        take_profit: 0,
        timestamp,
    }
}

/// A context with one item seeded: its starting equity appended, its
/// position flat.
pub open spec fn seed_item(
    ctx: ContextView,
    item: Seq<char>,
    capital: int,
    timestamp: int,
) -> ContextView {
    ctx.push_equity(starting_equity(item, capital, timestamp)).update_position(
        flat_position(item, timestamp),
    )
}

/// A context seeded for a symbol on the first `n` intervals, in order.
pub open spec fn seed_intervals(
    ctx: ContextView,
    symbol: Seq<char>,
    intervals: Seq<Seq<char>>,
    n: int,
    capital: int,
    timestamp: int,
) -> ContextView
    decreases n,
{
    if n <= 0 {
        ctx
    } else {
        seed_item(
            seed_intervals(ctx, symbol, intervals, n - 1, capital, timestamp),
            item_key(symbol, intervals[n - 1]),
            capital,
            timestamp,
        )
    }
}

/// A context seeded for the first `m` symbols, each on every interval, in
/// order.
pub open spec fn seed_symbols(
    ctx: ContextView,
    symbols: Seq<Seq<char>>,
    m: int,
    intervals: Seq<Seq<char>>,
    capital: int,
    timestamp: int,
) -> ContextView
    decreases m,
{
    if m <= 0 {
        ctx
    } else {
        seed_intervals(
            seed_symbols(ctx, symbols, m - 1, intervals, capital, timestamp),
            symbols[m - 1],
            intervals,
            intervals.len() as int,
            capital,
            timestamp,
        )
    }
}

/// The context that a run starts from: every configured item seeded.
pub open spec fn seeded(ctx: ContextView, params: ParamsView, timestamp: int) -> ContextView {
    seed_symbols(
        ctx,
        params.symbols,
        params.symbols.len() as int,
        params.intervals,
        params.initial_capital,
        timestamp,
    )
}

/// The events that announce a fill, in the order in which they are emitted:
/// the position, the trade record that was opened if one was, the order,
/// the equity snapshot.
pub open spec fn fill_events(fill: Fill) -> Seq<EventView> {
    order_events(fill.order, fill.plan).push(EventView::Equity(fill.equity))
}

/// The events that the processing of an accepted order emits.
pub open spec fn order_events(order: OrderView, plan: OrderPlan) -> Seq<EventView> {
    let head = seq![EventView::Position(plan.position)];
    let announced = match plan.trade.opened() {
        Some(t) => head.push(EventView::TradeRecord(t)),
        None => head,
    };
    announced.push(EventView::Order(order))
}

/// The context once an accepted order was processed: the position is the
/// new one, and the latest trade record is rewritten where the order
/// extends or closes it.
pub open spec fn order_applied(ctx: ContextView, plan: OrderPlan) -> ContextView {
    let positioned = ctx.update_position(plan.position);
    match plan.trade.revised() {
        Some(t) => positioned.update_trade_record(t),
        None => positioned,
    }
}

/// The context once an event was dispatched: a bar, an equity snapshot or a
/// trade record is appended to its history; other events change nothing.
pub open spec fn event_applied(ctx: ContextView, event: EventView) -> ContextView {
    match event {
        EventView::Candle(c) => ctx.push_candle(c),
        EventView::Equity(e) => ctx.push_equity(e),
        EventView::TradeRecord(t) => ctx.push_trade_record(t),
        _ => ctx,
    }
}

impl StrategyView {
    /// The run once it was started at a time: seeded and running. A run that
    /// was started before stays as it is.
    pub open spec fn init(self, timestamp: int) -> StrategyView {
        if self.state == RunState::Starting {
            StrategyView {
                context: seeded(self.context, self.params, timestamp),
                state: RunState::Running,
                ..self
            }
        } else {
            self
        }
    }

    /// The run once the producers' side of the bus was closed: over where
    /// nothing is buffered, unchanged otherwise.
    pub open spec fn close(self) -> StrategyView {
        if self.bus.len() == 0 {
            StrategyView { state: RunState::Finished, ..self }
        } else {
            self
        }
    }

    /// The run once a look at the channel was taken in: an event that had
    /// arrived is put at the back of the bus, and a channel that is closed
    /// for good is taken note of.
    pub open spec fn received(self, polled: PolledView) -> StrategyView {
        match polled {
            PolledView::Event(e) => StrategyView { bus: self.bus.push(e), ..self },
            PolledView::Empty => self,
            PolledView::Closed => self.close(),
        }
    }

    /// Whether the dispatch loop looks at the channel: while the run is on
    /// and its bus is empty.
    pub open spec fn awaits_input(self) -> bool {
        (self.state == RunState::Running || self.state == RunState::Draining) && self.bus.len()
            == 0
    }

    /// The run after the processing of an order.
    pub open spec fn process_order(self, order: OrderView) -> (bool, StrategyView) {
        match plan_order(self.params, self.context, order) {
            Some(plan) => (
                true,
                StrategyView {
                    context: order_applied(self.context, plan),
                    bus: self.bus + order_events(order, plan),
                    ..self
                },
            ),
            None => (false, self),
        }
    }

    /// The run after a submission.
    pub open spec fn submit(
        self,
        item: Seq<char>,
        price: int,
        timestamp: int,
        requested: Option<int>,
        side: Side,
    ) -> (Outcome, StrategyView) {
        match submission(self.params, self.context, item, price, timestamp, requested, side) {
            Ok(fill) => (
                Outcome::Filled,
                StrategyView {
                    context: order_applied(self.context, fill.plan),
                    bus: self.bus + fill_events(fill),
                    ..self
                },
            ),
            Err(o) => (o, self),
        }
    }

    /// The run after one turn of the dispatch loop, with what the turn asks
    /// of the driver. `idle` is the time since the last event arrived.
    pub open spec fn turn(self, idle: int) -> (ReactionView, StrategyView) {
        match self.state {
            RunState::Starting => (ReactionView::Idle, self),
            RunState::Finished => (ReactionView::Stopped, self),
            _ => if self.bus.len() > 0 {
                let event = self.bus.first();
                (
                    ReactionView::Dispatched(event),
                    StrategyView {
                        context: event_applied(self.context, event),
                        bus: self.bus.drop_first(),
                        state: if event is Finish {
                            RunState::Finished
                        } else {
                            self.state
                        },
                        ..self
                    },
                )
            } else if self.state == RunState::Running && idle > QUIESCENCE_TIMEOUT {
                (
                    ReactionView::Idle,
                    StrategyView {
                        bus: seq![EventView::Finish],
                        state: RunState::Draining,
                        ..self
                    },
                )
            } else {
                (ReactionView::Idle, self)
            },
        }
    }
}

impl Strategy {
    /// A run that has not started: nothing seen, nothing on the bus.
    pub fn new(params: StrategyParams) -> (r: Self)
        ensures
            r@ == (StrategyView {
                params: params@,
                context: ContextView::empty(),
                bus: Seq::empty(),
                state: RunState::Starting,
            }),
    {
        let (sender, receiver) = open_channel();
        let r = Strategy {
            params,
            context: Context::new(),
            bus: VecDeque::new(),
            state: RunState::Starting,
            broker: BrokerLocal::new(sender),
            event_receiver: receiver,
        };
        assert(r.bus.deep_view() =~= Seq::<EventView>::empty());
        r
    }

    /// Puts an event at the back of the bus.
    pub fn publish(&mut self, event: Event)
        ensures
            final(self)@ == (StrategyView { bus: old(self)@.bus.push(event@), ..old(self)@ }),
    {
        let ghost before = self.bus.deep_view();
        self.bus.push_back(event);
        assert(self.bus.deep_view() =~= before.push(event@));
    }

    /// Takes note that the producers' side of the bus is closed for good.
    /// With nothing buffered the run is over, and no finish event is
    /// dispatched for it; events that are still buffered stay to be
    /// dispatched, and the run stays as it is.
    pub fn close(&mut self)
        ensures
            final(self)@ == old(self)@.close(),
    {
        if self.bus.len() == 0 {
            self.state = RunState::Finished;
        }
    }

    /// Starts the run: seeds every configured item with its starting equity
    /// and a flat position, stamped with the given time. A run that was
    /// started before is left as it is.
    pub fn init(&mut self, timestamp: i64)
        ensures
            final(self)@ == old(self)@.init(timestamp as int),
    {
        if self.state != RunState::Starting {
            return ;
        }
        let ghost start = self.context@;
        let ghost symbols = self.params.symbols.deep_view();
        let ghost intervals = self.params.intervals.deep_view();
        let capital = self.params.initial_capital;
        let mut i: usize = 0;
        while i < self.params.symbols.len()
            invariant
                i <= self.params.symbols.len(),
                self.params == old(self).params,
                self.bus == old(self).bus,
                self.state == old(self).state,
                symbols == self.params.symbols.deep_view(),
                intervals == self.params.intervals.deep_view(),
                capital == self.params.initial_capital,
                self.context@ == seed_symbols(
                    start,
                    symbols,
                    i as int,
                    intervals,
                    capital@,
                    timestamp as int,
                ),
            decreases self.params.symbols.len() - i,
        {
            let ghost row = self.context@;
            let mut j: usize = 0;
            while j < self.params.intervals.len()
                invariant
                    i < self.params.symbols.len(),
                    j <= self.params.intervals.len(),
                    self.params == old(self).params,
                    self.bus == old(self).bus,
                    self.state == old(self).state,
                    symbols == self.params.symbols.deep_view(),
                    intervals == self.params.intervals.deep_view(),
                    capital == self.params.initial_capital,
                    self.context@ == seed_intervals(
                        row,
                        symbols[i as int],
                        intervals,
                        j as int,
                        capital@,
                        timestamp as int,
                    ),
                decreases self.params.intervals.len() - j,
            {
                let item = item_of(
                    self.params.symbols[i].as_str(),
                    self.params.intervals[j].as_str(),
                );
                self.context.push_equity(
                    Equity {
                        item: item.clone(),
                        timestamp,
                        equity_value: capital,
                        close_latest: Amount::zero(),
                        pos_size: Amount::zero(),
                        cash_aval: capital,
                    },
                );
                self.context.update_position(
                    Position {
                        item,
                        size: Amount::zero(),
                        price: Amount::zero(),
                        highest: Amount::zero(),
                        lowest: Amount::zero(),
                        stop_loss: Amount::zero(),
                        take_profit: Amount::zero(),
                        timestamp,
                    },
                );
                j += 1;
            }
            i += 1;
        }
        self.state = RunState::Running;
    }

    /// Processes an accepted order: the position of its item becomes the one
    /// that follows the fill, the latest trade record is extended or closed
    /// where a trade is open, and the position, the newly opened trade
    /// record if any, and the order are put on the bus. Where a figure
    /// cannot be carried nothing changes, and the result is `false`.
    pub fn process_order(&mut self, order: &Order) -> (r: bool)
        ensures
            (r, final(self)@) == old(self)@.process_order(order@),
    {
        match plan(&self.params, &self.context, order) {
            None => false,
            Some((position, trade)) => {
                let ghost before = self.bus.deep_view();
                self.context.update_position(position.clone());
                self.bus.push_back(Event::EventPosition(position));
                match trade {
                    TradeUpdate::Open(opened) => {
                        self.bus.push_back(Event::EventTradeRecord(opened));
                    },
                    TradeUpdate::Merge(merged) => {
                        self.context.update_trade_record(merged);
                    },
                    TradeUpdate::Flip(closed, opened) => {
                        self.context.update_trade_record(closed);
                        self.bus.push_back(Event::EventTradeRecord(opened));
                    },
                }
                self.bus.push_back(Event::EventOrder(order.clone()));
                proof {
                    let p = plan_order(old(self)@.params, old(self)@.context, order@)->0;
                    assert(self.bus.deep_view() =~= before + order_events(order@, p));
                }
                true
            },
        }
    }

    fn submit(
        &mut self,
        item: &String,
        price: Amount,
        timestamp: i64,
        qty: Option<Amount>,
        side: Side,
    ) -> (r: Outcome)
        ensures
            (r, final(self)@) == old(self)@.submit(
                item@,
                price@,
                timestamp as int,
                qty.deep_view(),
                side,
            ),
    {
        match quote_order(&self.params, &self.context, item, price, timestamp, qty, side) {
            Err(o) => o,
            Ok((order, equity)) => {
                let ghost before = self.bus.deep_view();
                if self.process_order(&order) {
                    let ghost mid = self.bus.deep_view();
                    self.bus.push_back(Event::EventEquity(equity));
                    proof {
                        let p = plan_order(old(self)@.params, old(self)@.context, order@)->0;
                        let fill = Fill { order: order@, plan: p, equity: equity@ };
                        assert(self.bus.deep_view() =~= mid.push(EventView::Equity(equity@)));
                        assert(self.bus.deep_view() =~= before + fill_events(fill));
                    }
                    Outcome::Filled
                } else {
                    Outcome::OutOfRange
                }
            },
        }
    }

    /// Submits a purchase of an item at a price. The order commits the
    /// requested quantity where it is positive and below the default order
    /// size, else the default size. It is filled when margin and fee are
    /// strictly below the cash at hand and every figure of the fill can be
    /// carried; otherwise nothing changes and nothing is emitted.
    pub fn buy(&mut self, item: &String, price: Amount, timestamp: i64, qty: Option<Amount>) -> (r:
        Outcome)
        ensures
            (r, final(self)@) == old(self)@.submit(
                item@,
                price@,
                timestamp as int,
                qty.deep_view(),
                Side::Buy,
            ),
    {
        self.submit(item, price, timestamp, qty, Side::Buy)
    }

    /// Submits a sale of an item at a price, under the rules of
    /// [`Strategy::buy`] with the sign of the quantity reversed.
    pub fn sell(&mut self, item: &String, price: Amount, timestamp: i64, qty: Option<Amount>) -> (r:
        Outcome)
        ensures
            (r, final(self)@) == old(self)@.submit(
                item@,
                price@,
                timestamp as int,
                qty.deep_view(),
                Side::Sell,
            ),
    {
        self.submit(item, price, timestamp, qty, Side::Sell)
    }

    /// Takes in what a look at the channel found, then takes one turn of the
    /// dispatch loop. `idle` is the time since the last event arrived, in
    /// the units of [`QUIESCENCE_TIMEOUT`].
    ///
    /// While the run is on, the event at the front of the bus is taken and
    /// applied, and handed back for its callback; a finish event ends the
    /// run. On an empty bus a running run that has been idle for longer than
    /// the timeout puts one finish event on the bus and starts draining.
    pub fn dispatch(&mut self, polled: Polled, idle: u64) -> (r: Reaction)
        ensures
            (r@, final(self)@) == old(self)@.received(polled@).turn(idle as int),
    {
        match polled {
            Polled::Event(event) => {
                self.publish(event);
            },
            Polled::Empty => {},
            Polled::Closed => {
                self.close();
            },
        }
        self.turn(idle)
    }

    /// Takes one pass of the dispatch loop: while the run is on and its bus
    /// is empty the channel is looked at, and what is found is taken in;
    /// then one turn is taken as in [`Strategy::dispatch`]. The events of a
    /// fill are thus dispatched before anything that producers sent later.
    pub fn handle_events(&mut self, idle: u64) -> (r: Reaction)
        ensures
            exists|polled: PolledView|
                (r@, final(self)@) == #[trigger] old(self)@.received(polled).turn(idle as int),
            !old(self)@.awaits_input() ==> (r@, final(self)@) == old(self)@.turn(idle as int),
    {
        let awaits = (self.state == RunState::Running || self.state == RunState::Draining)
            && self.bus.len() == 0;
        let polled = if awaits {
            poll_channel(&mut self.event_receiver)
        } else {
            Polled::Empty
        };
        let ghost found = polled@;
        let r = self.dispatch(polled, idle);
        assert((r@, self@) == old(self)@.received(found).turn(idle as int));
        r
    }

    fn turn(&mut self, idle: u64) -> (r: Reaction)
        ensures
            (r@, final(self)@) == old(self)@.turn(idle as int),
    {
        match self.state {
            RunState::Starting => Reaction::Idle,
            RunState::Finished => Reaction::Stopped,
            _ => {
                let ghost before = self.bus.deep_view();
                match self.bus.pop_front() {
                    Some(event) => {
                        assert(self.bus.deep_view() =~= before.drop_first());
                        assert(event@ == before.first());
                        match &event {
                            Event::EventFinish() => {
                                self.state = RunState::Finished;
                            },
                            Event::EventCandle(candle) => {
                                self.context.push_candle(candle.clone());
                            },
                            Event::EventEquity(equity) => {
                                self.context.push_equity(equity.clone());
                            },
                            Event::EventTradeRecord(trade_record) => {
                                self.context.push_trade_record(trade_record.clone());
                            },
                            Event::EventPosition(_) => {},
                            Event::EventOrder(_) => {},
                        }
                        Reaction::Dispatched(event)
                    },
                    None => {
                        assert(before.len() == 0);
                        if self.state == RunState::Running && idle > QUIESCENCE_TIMEOUT {
                            self.bus.push_back(Event::EventFinish());
                            assert(self.bus.deep_view() =~= seq![EventView::Finish]);
                            self.state = RunState::Draining;
                        }
                        Reaction::Idle
                    },
                }
            },
        }
    }
}

} // verus!
