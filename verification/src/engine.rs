//! The execution engine: from a fill request and the current context to the
//! updated position, trade record and equity, and the events that announce
//! them.
//!
//! Every rule is stated once as a function on the views, and the executable
//! functions are proved to compute exactly that. An order is refused, with
//! nothing changed and nothing emitted, when its cost is not strictly below
//! the available cash, or when one of its figures cannot be carried by an
//! [`Amount`].

use crate::amount::{
    div_toward_zero, fits, lemma_product_bounds, lemma_trunc_div_shrinks, narrow, narrow_raw,
    product, quotient, same_sign, weighted_mean, wide_gross, wide_product, Amount, SCALE,
};
use crate::model::{
    Context, ContextView, Equity, EquityView, Order, OrderView, ParamsView, Position,
    PositionView, StrategyParams, TradeRecord, TradeRecordView,
};
use vstd::prelude::*;

verus! {

/// The direction of a fill request.
#[derive(Clone, Copy, Debug, PartialEq, Eq, Structural)]
pub enum Side {
    Buy,
    Sell,
}

/// What became of a fill request.
#[derive(Clone, Copy, Debug, PartialEq, Eq, Structural)]
pub enum Outcome {
    /// The order was filled and its events were emitted.
    Filled,
    /// Margin and fee together are not strictly below the available cash.
    InsufficientCash,
    /// A figure of the fill cannot be carried: the price is zero, or a size,
    /// price or balance lies outside the range of an amount.
    OutOfRange,
}

/// The amount that order sizes are a fraction of: current equity of the item
/// in equity mode, initial capital otherwise and while no snapshot exists.
pub open spec fn sizing_base(params: ParamsView, ctx: ContextView, item: Seq<char>) -> int {
    if params.is_use_percent_of_equity {
        match ctx.last_equity(item) {
            Some(e) => e.equity_value,
            None => params.initial_capital,
        }
    } else {
        params.initial_capital
    }
}

/// The configured fraction of the sizing base.
pub open spec fn sizing_fraction(params: ParamsView) -> int {
    if params.is_use_percent_of_equity {
        params.percent_of_equity
    } else {
        params.percent_of_every_trade_money
    }
}

/// The default order size.
pub open spec fn default_size(params: ParamsView, ctx: ContextView, item: Seq<char>) -> int {
    product(sizing_base(params, ctx, item), sizing_fraction(params))
}

/// The capital committed to an order: the requested quantity where it is
/// positive and below the default size, else the default size.
pub open spec fn margin_of(default: int, requested: Option<int>) -> int {
    match requested {
        Some(q) => if 0 < q < default {
            q
        } else {
            default
        },
        None => default,
    }
}

/// The cash against which an order is checked: that of the latest equity
/// snapshot of the item, or initial capital while there is none.
pub open spec fn available_cash(params: ParamsView, ctx: ContextView, item: Seq<char>) -> int {
    match ctx.last_equity(item) {
        Some(e) => e.cash_aval,
        None => params.initial_capital,
    }
}

/// Whether `margin * (1 + fee_rate) < cash`, compared without rounding.
pub open spec fn affordable(margin: int, fee_rate: int, cash: int) -> bool {
    margin * (SCALE + fee_rate) < cash * SCALE
}

/// The signed quantity of a fill: margin over price, negated for a sale.
pub open spec fn signed_qty(margin: int, price: int, side: Side) -> Option<int> {
    if price == 0 {
        None
    } else {
        match side {
            Side::Buy => narrow(quotient(margin, price)),
            Side::Sell => narrow(-quotient(margin, price)),
        }
    }
}

/// The equity snapshot that a fill is based on: the latest of the item, or
/// the starting one.
pub open spec fn basis_equity(
    params: ParamsView,
    ctx: ContextView,
    item: Seq<char>,
    timestamp: int,
) -> EquityView {
    match ctx.last_equity(item) {
        Some(e) => e,
        None => EquityView {
            item,
            timestamp,
            equity_value: params.initial_capital,
            close_latest: 0,
            pos_size: 0,
            cash_aval: params.initial_capital,
        },
    }
}

/// The position size recorded in an equity snapshot after a fill: the fill
/// adds to a holding on its own side and replaces any other.
pub open spec fn equity_pos_size(prior: int, qty: int, side: Side) -> int {
    match side {
        Side::Buy => if prior > 0 {
            prior + qty
        } else {
            qty
        },
        Side::Sell => if prior < 0 {
            prior + qty
        } else {
            qty
        },
    }
}

/// The equity snapshot after a fill: equity less the fee, cash less margin
/// and fee.
pub open spec fn next_equity(
    basis: EquityView,
    fee_rate: int,
    item: Seq<char>,
    price: int,
    timestamp: int,
    margin: int,
    qty: int,
    side: Side,
) -> Option<EquityView> {
    let equity_value = basis.equity_value - product(margin, fee_rate);
    let cash_aval = basis.cash_aval - product(margin, SCALE + fee_rate);
    let pos_size = equity_pos_size(basis.pos_size, qty, side);
    if fits(equity_value) && fits(cash_aval) && fits(pos_size) {
        Some(EquityView { item, timestamp, equity_value, close_latest: price, pos_size, cash_aval })
    } else {
        None
    }
}

/// An accepted order with the equity snapshot that follows it.
pub struct Quote {
    pub order: OrderView,
    pub equity: EquityView,
}

/// The first half of a submission: sizing, the cash check and the quantity.
pub open spec fn quote(
    params: ParamsView,
    ctx: ContextView,
    item: Seq<char>,
    price: int,
    timestamp: int,
    requested: Option<int>,
    side: Side,
) -> Result<Quote, Outcome> {
    let default = default_size(params, ctx, item);
    if !fits(default) {
        Err(Outcome::OutOfRange)
    } else {
        let margin = margin_of(default, requested);
        if !affordable(margin, params.trading_fee, available_cash(params, ctx, item)) {
            Err(Outcome::InsufficientCash)
        } else {
            match signed_qty(margin, price, side) {
                None => Err(Outcome::OutOfRange),
                Some(qty) => match next_equity(
                    basis_equity(params, ctx, item, timestamp),
                    params.trading_fee,
                    item,
                    price,
                    timestamp,
                    margin,
                    qty,
                    side,
                ) {
                    None => Err(Outcome::OutOfRange),
                    Some(equity) => Ok(
                        Quote { order: OrderView { item, price, qty, timestamp }, equity },
                    ),
                },
            }
        }
    }
}

/// Stop-loss and take-profit around a position price: a multiple of the
/// cached ATR below and above it; the levels given stay while no ATR is
/// cached.
pub open spec fn stop_levels(
    price: int,
    atr: Option<int>,
    n_atr_sl: int,
    n_atr_tp: int,
    kept: (int, int),
) -> Option<(int, int)> {
    match atr {
        None => Some(kept),
        Some(a) => {
            let stop_loss = price - product(n_atr_sl, a);
            let take_profit = price + product(n_atr_tp, a);
            if fits(stop_loss) && fits(take_profit) {
                Some((stop_loss, take_profit))
            } else {
                None
            }
        },
    }
}

/// The position after a fill. A fill on the side of the holding adds to it
/// at the size-weighted average price; any other fill replaces size and
/// price outright.
pub open spec fn next_position(
    prior: Option<PositionView>,
    atr: Option<int>,
    n_atr_sl: int,
    n_atr_tp: int,
    order: OrderView,
) -> Option<PositionView> {
    let adds = prior is Some && same_sign(prior->0.size, order.qty);
    let size = if adds {
        prior->0.size + order.qty
    } else {
        order.qty
    };
    let price = if adds {
        weighted_mean(prior->0.size, prior->0.price, order.qty, order.price)
    } else {
        order.price
    };
    let highest = if prior is Some && prior->0.highest > 0 {
        prior->0.highest
    } else {
        order.price
    };
    let lowest = if prior is Some && prior->0.lowest > 0 {
        prior->0.lowest
    } else {
        order.price
    };
    let kept = if prior is Some {
        (prior->0.stop_loss, prior->0.take_profit)
    } else {
        (0int, 0int)
    };
    if fits(size) && fits(price) {
        match stop_levels(price, atr, n_atr_sl, n_atr_tp, kept) {
            Some(levels) => Some(
                PositionView {
                    item: order.item,
                    size,
                    price,
                    highest,
                    lowest,
                    stop_loss: levels.0,
                    take_profit: levels.1,
                    timestamp: order.timestamp,
                },
            ),
            None => None,
        }
    } else {
        None
    }
}

/// The record of a trade that a fill opens.
pub open spec fn opened_trade(order: OrderView) -> TradeRecordView {
    TradeRecordView {
        item: order.item,
        side: if order.qty > 0 {
            "buy"@
        } else {
            "sell"@
        },
        size: order.qty,
        price_open: order.price,
        time_open: order.timestamp,
        price_close: 0,
        time_close: 0,
        label_close: Seq::empty(),
    }
}

/// An open trade closed by a fill.
pub open spec fn closed_trade(open: TradeRecordView, order: OrderView) -> TradeRecordView {
    TradeRecordView {
        item: order.item,
        price_close: order.price,
        time_close: order.timestamp,
        label_close: "Close"@,
        ..open
    }
}

/// An open trade extended by a fill on its own side.
pub open spec fn merged_trade(open: TradeRecordView, order: OrderView) -> TradeRecordView {
    TradeRecordView {
        item: order.item,
        side: open.side,
        size: open.size + order.qty,
        price_open: weighted_mean(open.size, open.price_open, order.qty, order.price),
        time_open: order.timestamp,
        price_close: 0,
        time_close: 0,
        label_close: Seq::empty(),
    }
}

/// What a fill does to the trade records of its item.
pub enum TradeStep {
    /// No trade was open: a new record is opened.
    Open(TradeRecordView),
    /// The open trade is on the side of the fill: it is extended in place.
    Merge(TradeRecordView),
    /// The open trade is not on the side of the fill: it is closed in place
    /// and a new record is opened.
    Flip(TradeRecordView, TradeRecordView),
}

impl TradeStep {
    /// The latest record as this step rewrites it in place, if it does.
    pub open spec fn revised(self) -> Option<TradeRecordView> {
        match self {
            TradeStep::Open(_) => None,
            TradeStep::Merge(m) => Some(m),
            TradeStep::Flip(c, _) => Some(c),
        }
    }

    /// The record that this step opens, if it opens one.
    pub open spec fn opened(self) -> Option<TradeRecordView> {
        match self {
            TradeStep::Open(t) => Some(t),
            TradeStep::Merge(_) => None,
            TradeStep::Flip(_, t) => Some(t),
        }
    }
}

/// The step that a fill takes on the trade records, given the latest one.
pub open spec fn next_trade(last: Option<TradeRecordView>, order: OrderView) -> Option<TradeStep> {
    if last is Some && last->0.is_open() {
        if same_sign(last->0.size, order.qty) {
            let merged = merged_trade(last->0, order);
            if fits(merged.size) && fits(merged.price_open) {
                Some(TradeStep::Merge(merged))
            } else {
                None
            }
        } else {
            Some(TradeStep::Flip(closed_trade(last->0, order), opened_trade(order)))
        }
    } else {
        Some(TradeStep::Open(opened_trade(order)))
    }
}

/// The second half of a submission: what an accepted order does to the
/// position and the trade records of its item.
pub struct OrderPlan {
    pub position: PositionView,
    pub trade: TradeStep,
}

pub open spec fn plan_order(params: ParamsView, ctx: ContextView, order: OrderView) -> Option<
    OrderPlan,
> {
    match next_position(
        ctx.position(order.item),
        ctx.atr(order.item),
        params.n_atr_sl,
        params.n_atr_tp,
        order,
    ) {
        None => None,
        Some(position) => match next_trade(ctx.last_trade_record(order.item), order) {
            None => None,
            Some(trade) => Some(OrderPlan { position, trade }),
        },
    }
}

/// A fill in full: the order, what it does to position and trade records,
/// and the equity snapshot after it.
pub struct Fill {
    pub order: OrderView,
    pub plan: OrderPlan,
    pub equity: EquityView,
}

/// What a submission comes to on a given context.
pub open spec fn submission(
    params: ParamsView,
    ctx: ContextView,
    item: Seq<char>,
    price: int,
    timestamp: int,
    requested: Option<int>,
    side: Side,
) -> Result<Fill, Outcome> {
    match quote(params, ctx, item, price, timestamp, requested, side) {
        Err(o) => Err(o),
        Ok(q) => match plan_order(params, ctx, q.order) {
            None => Err(Outcome::OutOfRange),
            Some(plan) => Ok(Fill { order: q.order, plan, equity: q.equity }),
        },
    }
}

/// What a fill does to the trade records of its item.
#[derive(Debug)]
pub enum TradeUpdate {
    Open(TradeRecord),
    Merge(TradeRecord),
    Flip(TradeRecord, TradeRecord),
}

impl View for TradeUpdate {
    type V = TradeStep;

    open spec fn view(&self) -> TradeStep {
        match self {
            TradeUpdate::Open(t) => TradeStep::Open(t@),
            TradeUpdate::Merge(m) => TradeStep::Merge(m@),
            TradeUpdate::Flip(c, t) => TradeStep::Flip(c@, t@),
        }
    }
}

impl DeepView for TradeUpdate {
    type V = TradeStep;

    open spec fn deep_view(&self) -> TradeStep {
        self@
    }
}

/// Computes the default order size of an item.
pub fn default_order_size(params: &StrategyParams, ctx: &Context, item: &str) -> (r: Option<
    Amount,
>)
    ensures
        r.deep_view() == narrow(default_size(params@, ctx@, item@)),
{
    let base = if params.is_use_percent_of_equity {
        match ctx.get_last_equity(item) {
            Some(e) => e.equity_value,
            None => params.initial_capital,
        }
    } else {
        params.initial_capital
    };
    let fraction = if params.is_use_percent_of_equity {
        params.percent_of_equity
    } else {
        params.percent_of_every_trade_money
    };
    base.checked_mul(fraction)
}

/// Picks the margin of an order from the default size and the request.
pub fn order_margin(default: Amount, requested: Option<Amount>) -> (r: Amount)
    ensures
        r@ == margin_of(default@, requested.deep_view()),
{
    match requested {
        Some(q) => if 0 < q.raw && q.raw < default.raw {
            q
        } else {
            default
        },
        None => default,
    }
}

/// Tests an order's margin and fee against the cash at hand.
pub fn is_affordable(margin: Amount, fee_rate: Amount, cash: Amount) -> (r: bool)
    ensures
        r == affordable(margin@, fee_rate@, cash@),
{
    proof {
        lemma_product_bounds(cash@, SCALE as int);
    }
    let cost: i128 = wide_gross(margin, fee_rate);
    let funds: i128 = cash.raw as i128 * SCALE as i128;
    cost < funds
}

/// Computes the signed quantity that a margin buys or sells at a price.
pub fn fill_qty(margin: Amount, price: Amount, side: Side) -> (r: Option<Amount>)
    ensures
        r.deep_view() == signed_qty(margin@, price@, side),
{
    if price.raw == 0 {
        return None;
    }
    proof {
        lemma_product_bounds(margin@, SCALE as int);
        lemma_trunc_div_shrinks(margin@ * SCALE, price@);
    }
    let scaled: i128 = margin.raw as i128 * SCALE as i128;
    let q: i128 = div_toward_zero(scaled, price.raw as i128);
    match side {
        Side::Buy => narrow_raw(q),
        Side::Sell => narrow_raw(-q),
    }
}

/// Computes the equity snapshot that follows a fill.
pub fn equity_after(
    basis: &Equity,
    fee_rate: Amount,
    item: &String,
    price: Amount,
    timestamp: i64,
    margin: Amount,
    qty: Amount,
    side: Side,
) -> (r: Option<Equity>)
    ensures
        r.deep_view() == next_equity(
            basis@,
            fee_rate@,
            item@,
            price@,
            timestamp as int,
            margin@,
            qty@,
            side,
        ),
{
    let fee: i128 = wide_product(margin, fee_rate);
    let gross: i128 = wide_gross(margin, fee_rate);
    proof {
        lemma_trunc_div_shrinks(margin@ * (SCALE + fee_rate@), SCALE as int);
    }
    let cost: i128 = div_toward_zero(gross, SCALE as i128);
    let adds = match side {
        Side::Buy => basis.pos_size.raw > 0,
        Side::Sell => basis.pos_size.raw < 0,
    };
    let pos_size = if adds {
        basis.pos_size.checked_add(qty)
    } else {
        Some(qty)
    };
    let equity_value = narrow_raw(basis.equity_value.raw as i128 - fee);
    let cash_aval = narrow_raw(basis.cash_aval.raw as i128 - cost);
    match (equity_value, cash_aval, pos_size) {
        (Some(equity_value), Some(cash_aval), Some(pos_size)) => Some(
            Equity {
                item: item.clone(),
                timestamp,
                equity_value,
                close_latest: price,
                pos_size,
                cash_aval,
            },
        ),
        _ => None,
    }
}

/// Sizes an order, checks it against the cash at hand and computes its
/// quantity and the equity snapshot that follows it.
pub fn quote_order(
    params: &StrategyParams,
    ctx: &Context,
    item: &String,
    price: Amount,
    timestamp: i64,
    requested: Option<Amount>,
    side: Side,
) -> (r: Result<(Order, Equity), Outcome>)
    ensures
        match quote(
            params@,
            ctx@,
            item@,
            price@,
            timestamp as int,
            requested.deep_view(),
            side,
        ) {
            Ok(q) => r matches Ok((order, equity)) && order@ == q.order && equity@ == q.equity,
            Err(o) => r == Err::<(Order, Equity), Outcome>(o),
        },
{
    let default = match default_order_size(params, ctx, item.as_str()) {
        Some(d) => d,
        None => {
            return Err(Outcome::OutOfRange);
        },
    };
    let margin = order_margin(default, requested);
    let start = Equity {
        item: item.clone(),
        timestamp,
        equity_value: params.initial_capital,
        close_latest: Amount::zero(),
        pos_size: Amount::zero(),
        cash_aval: params.initial_capital,
    };
    let basis = match ctx.get_last_equity(item.as_str()) {
        Some(e) => e,
        None => &start,
    };
    assert(basis@ == basis_equity(params@, ctx@, item@, timestamp as int));
    if !is_affordable(margin, params.trading_fee, basis.cash_aval) {
        return Err(Outcome::InsufficientCash);
    }
    let qty = match fill_qty(margin, price, side) {
        Some(q) => q,
        None => {
            return Err(Outcome::OutOfRange);
        },
    };
    match equity_after(basis, params.trading_fee, item, price, timestamp, margin, qty, side) {
        Some(equity) => Ok((Order { item: item.clone(), price, qty, timestamp }, equity)),
        None => Err(Outcome::OutOfRange),
    }
}

/// Computes stop-loss and take-profit around a position price.
pub fn levels_around(
    price: Amount,
    atr: Option<Amount>,
    n_atr_sl: Amount,
    n_atr_tp: Amount,
    kept: (Amount, Amount),
) -> (r: Option<(Amount, Amount)>)
    ensures
        match stop_levels(price@, atr.deep_view(), n_atr_sl@, n_atr_tp@, (kept.0@, kept.1@)) {
            Some(l) => r matches Some((stop_loss, take_profit)) && stop_loss@ == l.0
                && take_profit@ == l.1,
            None => r is None,
        },
{
    match atr {
        None => Some(kept),
        Some(a) => {
            let below: i128 = wide_product(n_atr_sl, a);
            let above: i128 = wide_product(n_atr_tp, a);
            let stop_loss = narrow_raw(price.raw as i128 - below);
            let take_profit = narrow_raw(price.raw as i128 + above);
            match (stop_loss, take_profit) {
                (Some(s), Some(t)) => Some((s, t)),
                _ => None,
            }
        },
    }
}

/// Computes the position that follows an accepted order.
pub fn position_after(
    prior: Option<&Position>,
    atr: Option<Amount>,
    n_atr_sl: Amount,
    n_atr_tp: Amount,
    order: &Order,
) -> (r: Option<Position>)
    ensures
        r.deep_view() == next_position(
            prior.deep_view(),
            atr.deep_view(),
            n_atr_sl@,
            n_atr_tp@,
            order@,
        ),
{
    let (size, price, highest, lowest, kept) = match prior {
        Some(p) => {
            let (size, price) = if p.size.same_sign(order.qty) {
                (
                    p.size.checked_add(order.qty),
                    Amount::weighted_mean(p.size, p.price, order.qty, order.price),
                )
            } else {
                (Some(order.qty), Some(order.price))
            };
            let highest = if p.highest.raw > 0 {
                p.highest
            } else {
                order.price
            };
            let lowest = if p.lowest.raw > 0 {
                p.lowest
            } else {
                order.price
            };
            (size, price, highest, lowest, (p.stop_loss, p.take_profit))
        },
        None => (
            Some(order.qty),
            Some(order.price),
            order.price,
            order.price,
            (Amount::zero(), Amount::zero()),
        ),
    };
    match (size, price) {
        (Some(size), Some(price)) => {
            match levels_around(price, atr, n_atr_sl, n_atr_tp, kept) {
                Some((stop_loss, take_profit)) => Some(
                    Position {
                        item: order.item.clone(),
                        size,
                        price,
                        highest,
                        lowest,
                        stop_loss,
                        take_profit,
                        timestamp: order.timestamp,
                    },
                ),
                None => None,
            }
        },
        _ => None,
    }
}

/// Builds the record of the trade that an order opens.
pub fn open_trade(order: &Order) -> (r: TradeRecord)
    ensures
        r@ == opened_trade(order@),
{
    let side = if order.qty.raw > 0 {
        "buy".to_owned()
    } else {
        "sell".to_owned()
    };
    TradeRecord {
        item: order.item.clone(),
        side,
        size: order.qty,
        price_open: order.price,
        time_open: order.timestamp,
        price_close: Amount::zero(),
        time_close: 0,
        label_close: String::new(),
    }
}

/// Computes the step that an accepted order takes on the trade records.
pub fn trade_after(last: Option<&TradeRecord>, order: &Order) -> (r: Option<TradeUpdate>)
    ensures
        r.deep_view() == next_trade(last.deep_view(), order@),
{
    match last {
        Some(t) => {
            if t.is_open() {
                if t.size.same_sign(order.qty) {
                    let size = t.size.checked_add(order.qty);
                    let price_open = Amount::weighted_mean(
                        t.size,
                        t.price_open,
                        order.qty,
                        order.price,
                    );
                    match (size, price_open) {
                        (Some(size), Some(price_open)) => Some(
                            TradeUpdate::Merge(
                                TradeRecord {
                                    item: order.item.clone(),
                                    side: t.side.clone(),
                                    size,
                                    price_open,
                                    time_open: order.timestamp,
                                    price_close: Amount::zero(),
                                    time_close: 0,
                                    label_close: String::new(),
                                },
                            ),
                        ),
                        _ => None,
                    }
                } else {
                    let closed = TradeRecord {
                        item: order.item.clone(),
                        side: t.side.clone(),
                        size: t.size,
                        price_open: t.price_open,
                        time_open: t.time_open,
                        price_close: order.price,
                        time_close: order.timestamp,
                        label_close: "Close".to_owned(),
                    };
                    Some(TradeUpdate::Flip(closed, open_trade(order)))
                }
            } else {
                Some(TradeUpdate::Open(open_trade(order)))
            }
        },
        None => Some(TradeUpdate::Open(open_trade(order))),
    }
}

/// Computes what an accepted order does to the position and the trade
/// records of its item.
pub fn plan(params: &StrategyParams, ctx: &Context, order: &Order) -> (r: Option<
    (Position, TradeUpdate),
>)
    ensures
        match plan_order(params@, ctx@, order@) {
            Some(p) => r matches Some((position, trade)) && position@ == p.position && trade@
                == p.trade,
            None => r is None,
        },
{
    let position = position_after(
        ctx.get_position(order.item.as_str()),
        ctx.get_atr(order.item.as_str()),
        params.n_atr_sl,
        params.n_atr_tp,
        order,
    );
    match position {
        None => None,
        Some(position) => match trade_after(
            ctx.get_last_trade_record(order.item.as_str()),
            order,
        ) {
            None => None,
            Some(trade) => Some((position, trade)),
        },
    }
}

} // verus!
