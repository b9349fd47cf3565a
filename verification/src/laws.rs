//! What holds of the library as a whole, proved from the definitions that
//! the contracts of its functions are stated in.

use crate::amount::{magnitude, narrow, same_sign, trunc_div, weighted_mean};
use crate::common::{atr_series, ema_at, sum_of, true_ranges};
use crate::engine::{
    affordable, available_cash, closed_trade, default_size, margin_of, next_trade, opened_trade,
    submission, Fill, Outcome, Side, TradeStep,
};
use crate::model::{
    item_key, CandleView, ContextView, EventView, OrderView, ParamsView, TradeRecordView,
};
use crate::price_channel::{channel_turn, latest_atr, ORDER_CAP, WARM_UP};
use crate::strategy::{
    event_applied, fill_events, flat_position, order_applied, seed_intervals, seed_item,
    seed_symbols, seeded, starting_equity, ReactionView, RunState, StrategyView,
    QUIESCENCE_TIMEOUT,
};
use vstd::prelude::*;

verus! {

/// A context after a sequence of bars was appended, one by one.
pub open spec fn bars_pushed(ctx: ContextView, candles: Seq<CandleView>) -> ContextView
    decreases candles.len(),
{
    if candles.len() == 0 {
        ctx
    } else {
        bars_pushed(ctx, candles.drop_last()).push_candle(candles.last())
    }
}

/// The bar history is append-only and keeps the order of arrival: after any
/// sequence of bars of one item was appended, the history of that item is
/// what it was, followed by those bars in the same order; on a context that
/// never saw the item it is the input itself. Nothing else changes.
pub proof fn lemma_bar_history_keeps_input_order(
    ctx: ContextView,
    candles: Seq<CandleView>,
    item: Seq<char>,
)
    requires
        forall|i: int| 0 <= i < candles.len() ==> (#[trigger] candles[i]).item() == item,
    ensures
        bars_pushed(ctx, candles).bars(item) == ctx.bars(item) + candles,
        ctx.bars(item).len() == 0 ==> bars_pushed(ctx, candles).bars(item) == candles,
        forall|other: Seq<char>|
            other != item ==> bars_pushed(ctx, candles).bars(other) == ctx.bars(other),
        bars_pushed(ctx, candles).positions == ctx.positions,
        bars_pushed(ctx, candles).trade_records == ctx.trade_records,
        bars_pushed(ctx, candles).equities == ctx.equities,
        bars_pushed(ctx, candles).atrs == ctx.atrs,
        bars_pushed(ctx, candles).profits == ctx.profits,
    decreases candles.len(),
{
    if candles.len() == 0 {
        assert(ctx.bars(item) + candles =~= ctx.bars(item));
    } else {
        let earlier = candles.drop_last();
        lemma_bar_history_keeps_input_order(ctx, earlier, item);
        assert(candles.last().item() == item);
        assert((ctx.bars(item) + earlier).push(candles.last()) =~= ctx.bars(item) + candles);
    }
    if ctx.bars(item).len() == 0 {
        assert(ctx.bars(item) + candles =~= candles);
    }
}

/// The first value of the average true range stands for the bar at index
/// `period`: a series of `period` bars or fewer has no value, a longer one
/// has one value for each bar from that index on. The first value is the
/// mean of the first `period` true ranges.
pub proof fn lemma_atr_first_value(bars: Seq<CandleView>, period: int)
    requires
        period >= 1,
    ensures
        bars.len() <= period ==> atr_series(bars, period).len() == 0,
        bars.len() > period ==> atr_series(bars, period).len() == bars.len() - period,
        bars.len() > period ==> atr_series(bars, period)[0] == narrow(
            trunc_div(sum_of(true_ranges(bars).subrange(0, period)), period),
        ),
{
}

/// The exponential moving average starts at the first price, whatever the
/// period.
pub proof fn lemma_ema_starts_at_first_price(prices: Seq<int>, period: int)
    requires
        prices.len() > 0,
    ensures
        ema_at(prices, period, 0) == Some(prices[0]),
{
}

/// An order whose margin and fee are not strictly below the available cash
/// is dropped: the run is left exactly as it was, with no event added to
/// the bus.
pub proof fn lemma_unaffordable_order_is_dropped(
    s: StrategyView,
    item: Seq<char>,
    price: int,
    timestamp: int,
    requested: Option<int>,
    side: Side,
)
    requires
        !affordable(
            margin_of(default_size(s.params, s.context, item), requested),
            s.params.trading_fee,
            available_cash(s.params, s.context, item),
        ),
    ensures
        s.submit(item, price, timestamp, requested, side).0 != Outcome::Filled,
        s.submit(item, price, timestamp, requested, side).1 == s,
{
}

/// A context after a sequence of events was dispatched, first to last.
pub open spec fn events_applied(ctx: ContextView, events: Seq<EventView>) -> ContextView
    decreases events.len(),
{
    if events.len() == 0 {
        ctx
    } else {
        events_applied(event_applied(ctx, events.first()), events.drop_first())
    }
}

/// The context once a fill was made and its events were dispatched.
pub open spec fn settled(ctx: ContextView, fill: Fill) -> ContextView {
    events_applied(order_applied(ctx, fill.plan), fill_events(fill))
}

/// A settled fill has the position replaced, the latest trade record
/// rewritten where the fill extends or closes it, the opened record
/// appended where one was opened, and the equity snapshot appended.
pub proof fn lemma_settled(ctx: ContextView, fill: Fill)
    ensures
        settled(ctx, fill) == match fill.plan.trade.opened() {
            Some(t) => order_applied(ctx, fill.plan).push_trade_record(t).push_equity(
                fill.equity,
            ),
            None => order_applied(ctx, fill.plan).push_equity(fill.equity),
        },
{
    let start = order_applied(ctx, fill.plan);
    let events = fill_events(fill);
    reveal_with_fuel(events_applied, 5);
    match fill.plan.trade.opened() {
        Some(t) => {
            assert(events =~= seq![
                EventView::Position(fill.plan.position),
                EventView::TradeRecord(t),
                EventView::Order(fill.order),
                EventView::Equity(fill.equity),
            ]);
            let e1 = events.drop_first();
            let e2 = e1.drop_first();
            let e3 = e2.drop_first();
            assert(e3.drop_first().len() == 0);
        },
        None => {
            assert(events =~= seq![
                EventView::Position(fill.plan.position),
                EventView::Order(fill.order),
                EventView::Equity(fill.equity),
            ]);
            let e1 = events.drop_first();
            let e2 = e1.drop_first();
            assert(e2.drop_first().len() == 0);
        },
    }
}

/// A purchase followed by a sale on the same item closes the trade and
/// replaces the position. Take any context, a purchase that is filled with
/// a quantity that is not negative, and, once its events were dispatched,
/// a sale on the same item that is filled with a quantity that is not
/// positive. Then the sale closes the trade record that was the latest
/// after the purchase, at the sale's price and time and with the label
/// `Close`; it opens a new record for the sale behind it; and the position
/// takes the size and the price of the sale outright.
pub proof fn lemma_opposite_fill_closes_and_replaces(
    params: ParamsView,
    ctx: ContextView,
    item: Seq<char>,
    buy_price: int,
    buy_time: int,
    buy_request: Option<int>,
    sell_price: int,
    sell_time: int,
    sell_request: Option<int>,
)
    requires
        submission(params, ctx, item, buy_price, buy_time, buy_request, Side::Buy) is Ok,
        submission(
            params,
            ctx,
            item,
            buy_price,
            buy_time,
            buy_request,
            Side::Buy,
        )->Ok_0.order.qty >= 0,
        ({
            let bought = submission(
                params,
                ctx,
                item,
                buy_price,
                buy_time,
                buy_request,
                Side::Buy,
            )->Ok_0;
            let sale = submission(
                params,
                settled(ctx, bought),
                item,
                sell_price,
                sell_time,
                sell_request,
                Side::Sell,
            );
            sale is Ok && sale->Ok_0.order.qty <= 0
        }),
    ensures
        ({
            let bought = submission(
                params,
                ctx,
                item,
                buy_price,
                buy_time,
                buy_request,
                Side::Buy,
            )->Ok_0;
            let between = settled(ctx, bought);
            let sold = submission(
                params,
                between,
                item,
                sell_price,
                sell_time,
                sell_request,
                Side::Sell,
            )->Ok_0;
            let after = settled(between, sold);
            let open = between.trades(item).last();
            &&& between.trades(item).len() > 0
            &&& open.is_open()
            &&& sold.plan.trade == TradeStep::Flip(
                closed_trade(open, sold.order),
                opened_trade(sold.order),
            )
            &&& after.trades(item) == between.trades(item).drop_last().push(
                closed_trade(open, sold.order),
            ).push(opened_trade(sold.order))
            &&& closed_trade(open, sold.order).price_close == sell_price
            &&& closed_trade(open, sold.order).time_close == sell_time
            &&& closed_trade(open, sold.order).label_close == "Close"@
            &&& sold.plan.position.size == sold.order.qty
            &&& sold.plan.position.price == sell_price
            &&& after.position(item) == Some(sold.plan.position)
        }),
{
    let bought = submission(params, ctx, item, buy_price, buy_time, buy_request, Side::Buy)->Ok_0;
    let between = settled(ctx, bought);
    let sold = submission(
        params,
        between,
        item,
        sell_price,
        sell_time,
        sell_request,
        Side::Sell,
    )->Ok_0;
    let after = settled(between, sold);
    lemma_settled(ctx, bought);
    lemma_settled(between, sold);
    let q1 = bought.order.qty;
    assert(bought.order.item == item && sold.order.item == item);
    // the records and the position after the purchase
    let before_trades = ctx.trades(item);
    match bought.plan.trade {
        TradeStep::Open(t) => {
            assert(between.trades(item) =~= before_trades.push(t));
        },
        TradeStep::Merge(m) => {
            assert(before_trades.len() > 0);
            assert(between.trades(item) =~= before_trades.drop_last().push(m));
        },
        TradeStep::Flip(c, t) => {
            assert(before_trades.len() > 0);
            assert(between.trades(item) =~= before_trades.drop_last().push(c).push(t));
        },
    }
    let open = between.trades(item).last();
    assert(open.is_open());
    assert(open.size >= 0);
    assert(between.position(item) == Some(bought.plan.position));
    assert(bought.plan.position.size >= 0);
    assert(!same_sign(open.size, sold.order.qty));
    assert(!same_sign(bought.plan.position.size, sold.order.qty));
    assert(after.trades(item) =~= between.trades(item).drop_last().push(
        closed_trade(open, sold.order),
    ).push(opened_trade(sold.order)));
}

/// One operation on a run.
pub enum Step {
    /// The run is started at a time.
    Init(int),
    /// An event is put on the bus.
    Publish(EventView),
    /// One turn of the dispatch loop is taken after an idle time.
    Turn(int),
    /// An order is submitted.
    Submit { item: Seq<char>, price: int, timestamp: int, requested: Option<int>, side: Side },
    /// The bus is closed.
    Close,
}

/// The run after one operation.
pub open spec fn stepped(s: StrategyView, step: Step) -> StrategyView {
    match step {
        Step::Init(timestamp) => s.init(timestamp),
        Step::Publish(event) => StrategyView { bus: s.bus.push(event), ..s },
        Step::Turn(idle) => s.turn(idle).1,
        Step::Submit { item, price, timestamp, requested, side } => s.submit(
            item,
            price,
            timestamp,
            requested,
            side,
        ).1,
        Step::Close => s.close(),
    }
}

/// The run after a sequence of operations, first to last.
pub open spec fn replayed(s: StrategyView, steps: Seq<Step>) -> StrategyView
    decreases steps.len(),
{
    if steps.len() == 0 {
        s
    } else {
        stepped(replayed(s, steps.drop_last()), steps.last())
    }
}

/// The run that a configuration starts as.
pub open spec fn fresh(params: ParamsView) -> StrategyView {
    StrategyView {
        params,
        context: ContextView::empty(),
        bus: Seq::empty(),
        state: RunState::Starting,
    }
}

/// A replay is determined by where it starts and what it is fed: two fresh
/// runs of one configuration that take the same operations in the same
/// order end with the same positions, equity snapshots and trade records,
/// and indeed in the same state throughout.
pub proof fn lemma_replay_is_deterministic(
    first: ParamsView,
    second: ParamsView,
    steps: Seq<Step>,
)
    requires
        first == second,
    ensures
        replayed(fresh(first), steps) == replayed(fresh(second), steps),
        replayed(fresh(first), steps).context.positions == replayed(
            fresh(second),
            steps,
        ).context.positions,
        replayed(fresh(first), steps).context.equities == replayed(
            fresh(second),
            steps,
        ).context.equities,
        replayed(fresh(first), steps).context.trade_records == replayed(
            fresh(second),
            steps,
        ).context.trade_records,
{
}

/// A run after a number of turns of the dispatch loop, each taken at once.
pub open spec fn turned(s: StrategyView, n: nat) -> StrategyView
    decreases n,
{
    if n == 0 {
        s
    } else {
        turned(s.turn(0).1, (n - 1) as nat)
    }
}

/// The dispatch loop drains the bus in arrival order: on a run that is on,
/// with no finish event waiting, as many turns as there are events on the
/// bus apply every one of them, first to last, and leave the bus empty and
/// the run on.
pub proof fn lemma_turns_drain_the_bus(s: StrategyView)
    requires
        s.state == RunState::Running || s.state == RunState::Draining,
        forall|i: int| 0 <= i < s.bus.len() ==> !(#[trigger] s.bus[i] is Finish),
    ensures
        turned(s, s.bus.len()).context == events_applied(s.context, s.bus),
        turned(s, s.bus.len()).bus.len() == 0,
        turned(s, s.bus.len()).state == s.state,
        turned(s, s.bus.len()).params == s.params,
    decreases s.bus.len(),
{
    if s.bus.len() > 0 {
        let next = s.turn(0).1;
        assert(!(s.bus[0] is Finish));
        assert forall|i: int| 0 <= i < next.bus.len() implies !(#[trigger] next.bus[i]
            is Finish) by {
            assert(next.bus[i] == s.bus[i + 1]);
        }
        lemma_turns_drain_the_bus(next);
    }
}

/// The events of a fill are dispatched before anything that arrives later:
/// on a running run with an empty bus, an order that is filled and then as
/// many turns as the fill has events leave the context settled and the bus
/// empty.
pub proof fn lemma_fill_settles(
    s: StrategyView,
    item: Seq<char>,
    price: int,
    timestamp: int,
    requested: Option<int>,
    side: Side,
)
    requires
        s.state == RunState::Running,
        s.bus.len() == 0,
        submission(s.params, s.context, item, price, timestamp, requested, side) is Ok,
    ensures
        ({
            let fill = submission(
                s.params,
                s.context,
                item,
                price,
                timestamp,
                requested,
                side,
            )->Ok_0;
            let after = turned(
                s.submit(item, price, timestamp, requested, side).1,
                fill_events(fill).len(),
            );
            &&& after.context == settled(s.context, fill)
            &&& after.bus.len() == 0
            &&& after.state == RunState::Running
        }),
{
    let fill = submission(s.params, s.context, item, price, timestamp, requested, side)->Ok_0;
    let filled = s.submit(item, price, timestamp, requested, side).1;
    assert(filled.bus =~= fill_events(fill));
    lemma_turns_drain_the_bus(filled);
}

/// Silence ends a run exactly once. On a running run with an empty bus, a
/// turn taken after more than the timeout of idle time puts one finish
/// event on the bus and starts draining; the turn after it dispatches that
/// event and finishes the run, whatever the idle time; every turn from then
/// on reports that the run has stopped and changes nothing. While a run is
/// draining, an empty bus never gets another finish event.
pub proof fn lemma_quiescence_finishes_once(s: StrategyView, idle: int, later: int, last: int)
    requires
        s.state == RunState::Running,
        s.bus.len() == 0,
        idle > QUIESCENCE_TIMEOUT,
    ensures
        s.turn(idle).0 == ReactionView::Idle,
        s.turn(idle).1 == (StrategyView {
            bus: seq![EventView::Finish],
            state: RunState::Draining,
            ..s
        }),
        s.turn(idle).1.turn(later).0 == ReactionView::Dispatched(EventView::Finish),
        s.turn(idle).1.turn(later).1 == (StrategyView { state: RunState::Finished, ..s }),
        s.turn(idle).1.turn(later).1.turn(last) == (
            ReactionView::Stopped,
            StrategyView { state: RunState::Finished, ..s },
        ),
        (StrategyView { state: RunState::Draining, ..s }).turn(later) == (
            ReactionView::Idle,
            StrategyView { state: RunState::Draining, ..s },
        ),
{
    let draining = s.turn(idle).1;
    assert(draining.bus.drop_first() =~= s.bus);
    assert(event_applied(s.context, EventView::Finish) == s.context);
}

/// Whether an item stands as it is seeded: flat, with the starting equity
/// as its latest snapshot.
pub open spec fn stands_seeded(
    ctx: ContextView,
    item: Seq<char>,
    capital: int,
    timestamp: int,
) -> bool {
    &&& ctx.position(item) == Some(flat_position(item, timestamp))
    &&& ctx.last_equity(item) == Some(starting_equity(item, capital, timestamp))
}

proof fn lemma_seed_item(
    ctx: ContextView,
    item: Seq<char>,
    other: Seq<char>,
    capital: int,
    timestamp: int,
)
    ensures
        stands_seeded(seed_item(ctx, item, capital, timestamp), item, capital, timestamp),
        stands_seeded(ctx, other, capital, timestamp) ==> stands_seeded(
            seed_item(ctx, item, capital, timestamp),
            other,
            capital,
            timestamp,
        ),
        seed_item(ctx, item, capital, timestamp).candles == ctx.candles,
        seed_item(ctx, item, capital, timestamp).trade_records == ctx.trade_records,
        seed_item(ctx, item, capital, timestamp).atrs == ctx.atrs,
{
}

proof fn lemma_seed_intervals(
    ctx: ContextView,
    symbol: Seq<char>,
    intervals: Seq<Seq<char>>,
    n: int,
    other: Seq<char>,
    capital: int,
    timestamp: int,
)
    requires
        0 <= n <= intervals.len(),
    ensures
        forall|j: int|
            0 <= j < n ==> stands_seeded(
                seed_intervals(ctx, symbol, intervals, n, capital, timestamp),
                #[trigger] item_key(symbol, intervals[j]),
                capital,
                timestamp,
            ),
        stands_seeded(ctx, other, capital, timestamp) ==> stands_seeded(
            seed_intervals(ctx, symbol, intervals, n, capital, timestamp),
            other,
            capital,
            timestamp,
        ),
        seed_intervals(ctx, symbol, intervals, n, capital, timestamp).candles == ctx.candles,
        seed_intervals(ctx, symbol, intervals, n, capital, timestamp).trade_records
            == ctx.trade_records,
        seed_intervals(ctx, symbol, intervals, n, capital, timestamp).atrs == ctx.atrs,
    decreases n,
{
    if n > 0 {
        let earlier = seed_intervals(ctx, symbol, intervals, n - 1, capital, timestamp);
        let item = item_key(symbol, intervals[n - 1]);
        lemma_seed_intervals(ctx, symbol, intervals, n - 1, other, capital, timestamp);
        lemma_seed_item(earlier, item, other, capital, timestamp);
        assert forall|j: int| 0 <= j < n implies stands_seeded(
            seed_intervals(ctx, symbol, intervals, n, capital, timestamp),
            #[trigger] item_key(symbol, intervals[j]),
            capital,
            timestamp,
        ) by {
            lemma_seed_item(earlier, item, item_key(symbol, intervals[j]), capital, timestamp);
        }
    }
}

proof fn lemma_seed_symbols(
    ctx: ContextView,
    symbols: Seq<Seq<char>>,
    m: int,
    intervals: Seq<Seq<char>>,
    i: int,
    j: int,
    capital: int,
    timestamp: int,
)
    requires
        0 <= i < m <= symbols.len(),
        0 <= j < intervals.len(),
    ensures
        stands_seeded(
            seed_symbols(ctx, symbols, m, intervals, capital, timestamp),
            item_key(symbols[i], intervals[j]),
            capital,
            timestamp,
        ),
        seed_symbols(ctx, symbols, m, intervals, capital, timestamp).candles == ctx.candles,
        seed_symbols(ctx, symbols, m, intervals, capital, timestamp).trade_records
            == ctx.trade_records,
        seed_symbols(ctx, symbols, m, intervals, capital, timestamp).atrs == ctx.atrs,
    decreases m,
{
    let earlier = seed_symbols(ctx, symbols, m - 1, intervals, capital, timestamp);
    let item = item_key(symbols[i], intervals[j]);
    if i < m - 1 {
        lemma_seed_symbols(ctx, symbols, m - 1, intervals, i, j, capital, timestamp);
    } else {
        lemma_untouched_by_seeding(ctx, symbols, m - 1, intervals, capital, timestamp);
    }
    lemma_seed_intervals(
        earlier,
        symbols[m - 1],
        intervals,
        intervals.len() as int,
        item,
        capital,
        timestamp,
    );
    if i == m - 1 {
        assert(stands_seeded(
            seed_intervals(
                earlier,
                symbols[m - 1],
                intervals,
                intervals.len() as int,
                capital,
                timestamp,
            ),
            item_key(symbols[m - 1], intervals[j]),
            capital,
            timestamp,
        ));
    }
}

proof fn lemma_untouched_by_seeding(
    ctx: ContextView,
    symbols: Seq<Seq<char>>,
    m: int,
    intervals: Seq<Seq<char>>,
    capital: int,
    timestamp: int,
)
    requires
        0 <= m <= symbols.len(),
    ensures
        seed_symbols(ctx, symbols, m, intervals, capital, timestamp).candles == ctx.candles,
        seed_symbols(ctx, symbols, m, intervals, capital, timestamp).trade_records
            == ctx.trade_records,
        seed_symbols(ctx, symbols, m, intervals, capital, timestamp).atrs == ctx.atrs,
    decreases m,
{
    if m > 0 {
        lemma_untouched_by_seeding(ctx, symbols, m - 1, intervals, capital, timestamp);
        lemma_seed_intervals(
            seed_symbols(ctx, symbols, m - 1, intervals, capital, timestamp),
            symbols[m - 1],
            intervals,
            intervals.len() as int,
            seq![],
            capital,
            timestamp,
        );
    }
}

/// A run starts every configured item flat and funded: once a context was
/// seeded, each item made of a configured symbol and a configured interval
/// has a flat position and the starting equity, with all of the initial
/// capital as cash, as its latest snapshot. Bars, trade records and cached
/// ATRs are as they were.
pub proof fn lemma_start_seeds_every_item(
    ctx: ContextView,
    params: ParamsView,
    timestamp: int,
    i: int,
    j: int,
)
    requires
        0 <= i < params.symbols.len(),
        0 <= j < params.intervals.len(),
    ensures
        stands_seeded(
            seeded(ctx, params, timestamp),
            item_key(params.symbols[i], params.intervals[j]),
            params.initial_capital,
            timestamp,
        ),
        seeded(ctx, params, timestamp).candles == ctx.candles,
        seeded(ctx, params, timestamp).trade_records == ctx.trade_records,
        seeded(ctx, params, timestamp).atrs == ctx.atrs,
{
    lemma_seed_symbols(
        ctx,
        params.symbols,
        params.symbols.len() as int,
        params.intervals,
        i,
        j,
        params.initial_capital,
        timestamp,
    );
}

/// A fill is on the side of a holding exactly when the product of the
/// holding's size and the fill's quantity is positive.
pub proof fn lemma_same_side_is_positive_product(size: int, qty: int)
    ensures
        same_sign(size, qty) <==> size * qty > 0,
{
    assert(same_sign(size, qty) <==> size * qty > 0) by (nonlinear_arith);
}

/// The average entry price stays between the prices it averages: for two
/// sizes on the same side, the size-weighted mean of their prices is no
/// less than the lower price and no more than the higher one.
pub proof fn lemma_weighted_mean_is_between(sa: int, pa: int, sb: int, pb: int)
    requires
        same_sign(sa, sb),
    ensures
        pa <= pb ==> pa <= weighted_mean(sa, pa, sb, pb) <= pb,
        pb <= pa ==> pb <= weighted_mean(sa, pa, sb, pb) <= pa,
{
    let a = magnitude(sa);
    let b = magnitude(sb);
    let total = sa * pa + sb * pb;
    let d = sa + sb;
    // on magnitudes: the mean of pa and pb with the positive weights a and b
    let top = a * pa + b * pb;
    let w = a + b;
    assert(magnitude(d) == w);
    assert(total == top || total == -top) by (nonlinear_arith)
        requires
            total == sa * pa + sb * pb,
            top == a * pa + b * pb,
            (sa == a && sb == b) || (sa == -a && sb == -b),
    ;
    assert(sa > 0 ==> total == top) by (nonlinear_arith)
        requires
            total == sa * pa + sb * pb,
            top == a * pa + b * pb,
            sa > 0 ==> sa == a && sb == b,
    ;
    assert(sa < 0 ==> total == -top) by (nonlinear_arith)
        requires
            total == sa * pa + sb * pb,
            top == a * pa + b * pb,
            sa < 0 ==> sa == -a && sb == -b,
    ;
    assert(magnitude(total) == magnitude(top));
    let q = magnitude(top) / w;
    assert(top == 0 ==> q == 0) by (nonlinear_arith)
        requires
            q == magnitude(top) / w,
            w > 0,
            top == 0 ==> magnitude(top) == 0,
    ;
    let mean = if top < 0 {
        -q
    } else {
        q
    };
    assert(weighted_mean(sa, pa, sb, pb) == mean);
    let lo = if pa <= pb {
        pa
    } else {
        pb
    };
    let hi = if pa <= pb {
        pb
    } else {
        pa
    };
    assert(lo * w <= top <= hi * w) by (nonlinear_arith)
        requires
            top == a * pa + b * pb,
            w == a + b,
            a > 0,
            b > 0,
            lo <= pa <= hi,
            lo <= pb <= hi,
    ;
    assert(lo <= mean <= hi) by (nonlinear_arith)
        requires
            lo * w <= top <= hi * w,
            w > 0,
            q == magnitude(top) / w,
            mean == if top < 0 {
                -q
            } else {
                q
            },
            magnitude(top) == if top < 0 {
                -top
            } else {
                top
            },
    ;
}

/// A trade changes side only by being closed. Where a trade is open, a fill
/// either extends it, and the record keeps its side and stays open, or
/// closes it, and the record keeps its side, size, opening price and
/// opening time; a record for the other side is opened only behind a
/// closed one. Where no trade is open, the latest record is left alone.
pub proof fn lemma_side_changes_only_by_closing(last: Option<TradeRecordView>, order: OrderView)
    requires
        next_trade(last, order) is Some,
    ensures
        match next_trade(last, order)->0 {
            TradeStep::Open(t) => !(last is Some && last->0.is_open()) && t == opened_trade(order),
            TradeStep::Merge(m) => {
                &&& last is Some && last->0.is_open()
                &&& m.side == last->0.side
                &&& m.is_open()
                &&& m.size == last->0.size + order.qty
            },
            TradeStep::Flip(c, t) => {
                &&& last is Some && last->0.is_open()
                &&& c.side == last->0.side
                &&& c.size == last->0.size
                &&& c.price_open == last->0.price_open
                &&& c.time_open == last->0.time_open
                &&& c.price_close == order.price
                &&& c.time_close == order.timestamp
                &&& t == opened_trade(order)
            },
        },
{
}

/// Histories grow at their end only. Once a fill was made and its events
/// were dispatched, the equity history of its item is what it was with the
/// new snapshot appended; of its trade records, all but the one that was
/// the latest are what they were; bars and cached ATRs are untouched; and
/// no other item has changed at all.
pub proof fn lemma_fill_touches_only_tails(
    params: ParamsView,
    ctx: ContextView,
    item: Seq<char>,
    price: int,
    timestamp: int,
    requested: Option<int>,
    side: Side,
)
    requires
        submission(params, ctx, item, price, timestamp, requested, side) is Ok,
    ensures
        ({
            let fill = submission(params, ctx, item, price, timestamp, requested, side)->Ok_0;
            let after = settled(ctx, fill);
            let before_trades = ctx.trades(item);
            &&& after.snapshots(item) == ctx.snapshots(item).push(fill.equity)
            &&& after.trades(item).len() >= before_trades.len()
            &&& forall|i: int|
                0 <= i < before_trades.len() - 1 ==> after.trades(item)[i] == before_trades[i]
            &&& after.position(item) == Some(fill.plan.position)
            &&& after.candles == ctx.candles
            &&& after.atrs == ctx.atrs
            &&& after.profits == ctx.profits
            &&& forall|other: Seq<char>|
                other != item ==> {
                    &&& after.snapshots(other) == ctx.snapshots(other)
                    &&& after.trades(other) == ctx.trades(other)
                    &&& after.position(other) == ctx.position(other)
                }
        }),
{
    let fill = submission(params, ctx, item, price, timestamp, requested, side)->Ok_0;
    lemma_settled(ctx, fill);
    let before_trades = ctx.trades(item);
    let after = settled(ctx, fill);
    assert(fill.order.item == item);
    match fill.plan.trade {
        TradeStep::Open(t) => {
            assert(after.trades(item) =~= before_trades.push(t));
        },
        TradeStep::Merge(m) => {
            assert(after.trades(item) =~= before_trades.drop_last().push(m));
        },
        TradeStep::Flip(c, t) => {
            assert(after.trades(item) =~= before_trades.drop_last().push(c).push(t));
        },
    }
}

/// Whether an event is one of those that announce a fill.
pub open spec fn announces_fill(event: EventView) -> bool {
    event is Position || event is TradeRecord || event is Order || event is Equity
}

/// Whether a bus holds nothing but announcements of fills.
pub open spec fn only_fills(bus: Seq<EventView>) -> bool {
    forall|i: int| 0 <= i < bus.len() ==> announces_fill(#[trigger] bus[i])
}

/// A submission leaves the bars alone and puts nothing but announcements
/// of its fill on the bus.
pub proof fn lemma_submit_keeps_bars(
    s: StrategyView,
    item: Seq<char>,
    price: int,
    timestamp: int,
    requested: Option<int>,
    side: Side,
)
    requires
        only_fills(s.bus),
    ensures
        only_fills(s.submit(item, price, timestamp, requested, side).1.bus),
        s.submit(item, price, timestamp, requested, side).1.context.candles == s.context.candles,
        s.submit(item, price, timestamp, requested, side).1.state == s.state,
        s.submit(item, price, timestamp, requested, side).1.params == s.params,
{
    let after = s.submit(item, price, timestamp, requested, side).1;
    match submission(s.params, s.context, item, price, timestamp, requested, side) {
        Ok(fill) => {
            let events = fill_events(fill);
            assert forall|i: int| 0 <= i < events.len() implies announces_fill(
                #[trigger] events[i],
            ) by {}
            assert forall|i: int| 0 <= i < after.bus.len() implies announces_fill(
                #[trigger] after.bus[i],
            ) by {
                if i >= s.bus.len() {
                    assert(after.bus[i] == events[i - s.bus.len()]);
                }
            }
        },
        Err(_) => {},
    }
}

/// Dispatching announcements of fills leaves the bars alone.
pub proof fn lemma_fills_keep_bars(ctx: ContextView, events: Seq<EventView>)
    requires
        only_fills(events),
    ensures
        events_applied(ctx, events).candles == ctx.candles,
    decreases events.len(),
{
    if events.len() > 0 {
        assert(announces_fill(events[0]));
        let rest = events.drop_first();
        assert forall|i: int| 0 <= i < rest.len() implies announces_fill(#[trigger] rest[i]) by {
            assert(rest[i] == events[i + 1]);
        }
        lemma_fills_keep_bars(event_applied(ctx, events.first()), rest);
    }
}

/// A run after one bar went through it under the channel-breakout policy:
/// the bar is published and dispatched, the policy sees it, and what the
/// policy put on the bus is dispatched to the last event.
pub open spec fn bar_replayed(s: StrategyView, bar: CandleView) -> StrategyView {
    let published = StrategyView { bus: s.bus.push(EventView::Candle(bar)), ..s };
    let seen = published.turn(0).1;
    let acted = channel_turn(seen, bar).1;
    turned(acted, acted.bus.len())
}

/// A run after a sequence of bars went through it, one by one.
pub open spec fn bars_replayed(s: StrategyView, bars: Seq<CandleView>) -> StrategyView
    decreases bars.len(),
{
    if bars.len() == 0 {
        s
    } else {
        bar_replayed(bars_replayed(s, bars.drop_last()), bars.last())
    }
}

/// One bar through a quiet running run leaves it quiet and running, with
/// that bar appended to the history of its item and no other bar history
/// changed, whatever the policy traded.
pub proof fn lemma_bar_replayed(s: StrategyView, bar: CandleView)
    requires
        s.state == RunState::Running,
        s.bus.len() == 0,
    ensures
        bar_replayed(s, bar).state == RunState::Running,
        bar_replayed(s, bar).bus.len() == 0,
        bar_replayed(s, bar).params == s.params,
        bar_replayed(s, bar).context.candles == s.context.push_candle(bar).candles,
{
    let published = StrategyView { bus: s.bus.push(EventView::Candle(bar)), ..s };
    assert(published.bus.first() == EventView::Candle(bar));
    let seen = published.turn(0).1;
    assert(seen.bus =~= Seq::<EventView>::empty());
    assert(seen.context == s.context.push_candle(bar));
    let item = bar.item();
    let acted = channel_turn(seen, bar).1;
    // what the policy may have done, step by step
    let cached = if seen.context.bars(item).len() >= WARM_UP
        && latest_atr(seen.context.bars(item)) is Some {
        StrategyView {
            context: seen.context.update_atr(
                item,
                latest_atr(seen.context.bars(item))->0,
            ),
            ..seen
        }
    } else {
        seen
    };
    assert(only_fills(cached.bus));
    assert(cached.context.candles == seen.context.candles);
    lemma_submit_keeps_bars(
        cached,
        item,
        bar.close,
        bar.timestamp,
        Some(ORDER_CAP as int),
        Side::Buy,
    );
    let bought = cached.submit(
        item,
        bar.close,
        bar.timestamp,
        Some(ORDER_CAP as int),
        Side::Buy,
    ).1;
    lemma_submit_keeps_bars(
        cached,
        item,
        bar.close,
        bar.timestamp,
        Some(ORDER_CAP as int),
        Side::Sell,
    );
    lemma_submit_keeps_bars(
        bought,
        item,
        bar.close,
        bar.timestamp,
        Some(ORDER_CAP as int),
        Side::Sell,
    );
    assert(only_fills(acted.bus));
    assert(acted.context.candles == seen.context.candles);
    assert(acted.state == RunState::Running);
    assert(acted.params == s.params);
    assert forall|i: int| 0 <= i < acted.bus.len() implies !(#[trigger] acted.bus[i]
        is Finish) by {
        assert(announces_fill(acted.bus[i]));
    }
    lemma_turns_drain_the_bus(acted);
    lemma_fills_keep_bars(acted.context, acted.bus);
}

/// Bars come out of a replay as they went in. Take a quiet running run and
/// any sequence of bars of one item, and let each bar go through the run
/// under the channel-breakout policy. Whatever the policy traded on the
/// way, the run ends quiet and running, and the bar history of the item is
/// what it was, followed by those bars in the same order.
pub proof fn lemma_replay_keeps_bar_history(
    s: StrategyView,
    bars: Seq<CandleView>,
    item: Seq<char>,
)
    requires
        s.state == RunState::Running,
        s.bus.len() == 0,
        forall|i: int| 0 <= i < bars.len() ==> (#[trigger] bars[i]).item() == item,
    ensures
        bars_replayed(s, bars).state == RunState::Running,
        bars_replayed(s, bars).bus.len() == 0,
        bars_replayed(s, bars).params == s.params,
        bars_replayed(s, bars).context.bars(item) == s.context.bars(item) + bars,
        forall|other: Seq<char>|
            other != item ==> bars_replayed(s, bars).context.bars(other) == s.context.bars(other),
    decreases bars.len(),
{
    if bars.len() == 0 {
        assert(s.context.bars(item) + bars =~= s.context.bars(item));
    } else {
        let earlier = bars.drop_last();
        lemma_replay_keeps_bar_history(s, earlier, item);
        let before = bars_replayed(s, earlier);
        lemma_bar_replayed(before, bars.last());
        assert(bars.last().item() == item);
        assert((s.context.bars(item) + earlier).push(bars.last()) =~= s.context.bars(item)
            + bars);
    }
}

/// Replaying the same bars gives the same end. Two fresh runs of one
/// configuration that are started at the same time and fed the same bars
/// in the same order, under the channel-breakout policy, end with the same
/// positions, equity snapshots and trade records.
pub proof fn lemma_bar_replay_is_deterministic(
    first: ParamsView,
    second: ParamsView,
    timestamp: int,
    bars: Seq<CandleView>,
    again: Seq<CandleView>,
)
    requires
        first == second,
        bars == again,
    ensures
        bars_replayed(fresh(first).init(timestamp), bars).context.positions == bars_replayed(
            fresh(second).init(timestamp),
            again,
        ).context.positions,
        bars_replayed(fresh(first).init(timestamp), bars).context.equities == bars_replayed(
            fresh(second).init(timestamp),
            again,
        ).context.equities,
        bars_replayed(fresh(first).init(timestamp), bars).context.trade_records
            == bars_replayed(fresh(second).init(timestamp), again).context.trade_records,
        bars_replayed(fresh(first).init(timestamp), bars) == bars_replayed(
            fresh(second).init(timestamp),
            again,
        ),
{
}

} // verus!
