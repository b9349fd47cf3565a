use drg::amount::Amount;
use drg::engine::Outcome;
use drg::item_map::ItemMap;
use drg::model::{Event, StrategyParams};
use drg::strategy::{Reaction, RunState, Strategy};

fn amt(units: f64) -> Amount {
    Amount { raw: (units * 1e8).round() as i64 }
}

fn units(a: Amount) -> f64 {
    a.raw as f64 / 1e8
}

fn params(capital: f64, fee: f64, fraction: f64) -> StrategyParams {
    StrategyParams {
        stg_name: "test".to_string(),
        window_length: 20,
        window_atr: 20,
        symbols: vec![],
        intervals: vec![],
        is_use_percent_of_equity: false,
        percent_of_equity: amt(0.5),
        percent_of_every_trade_money: amt(fraction),
        is_sl: true,
        n_atr_sl: amt(2.0),
        is_tp: false,
        n_atr_tp: amt(5.0),
        tp_method: "percent_0.23".to_string(),
        initial_capital: amt(capital),
        items_timestamp_start: ItemMap::new(),
        items_timestamp_end: ItemMap::new(),
        trading_fee: amt(fee),
    }
}

/// A running strategy with capital 4000, fee 0.001 and a fixed order size of 100.
fn running() -> Strategy {
    let mut stg = Strategy::new(params(4000.0, 0.001, 0.025));
    stg.init(0);
    stg
}

/// Dispatches everything on the bus and returns the events in dispatch order.
fn drain(stg: &mut Strategy) -> Vec<Event> {
    let mut seen = Vec::new();
    loop {
        match stg.handle_events(0) {
            Reaction::Dispatched(e) => seen.push(e),
            Reaction::Idle => break,
            Reaction::Stopped => break,
        }
    }
    seen
}

#[test]
fn buy_at_100_with_fixed_size_100() {
    let mut stg = running();
    let item = "X".to_string();
    let outcome = stg.buy(&item, amt(100.0), 1000, None);
    assert_eq!(outcome, Outcome::Filled);
    drain(&mut stg);

    let equity = stg.context.get_last_equity("X").expect("an equity snapshot");
    assert_eq!(units(equity.cash_aval), 3899.9);
    assert_eq!(units(equity.equity_value), 3999.9);
    assert_eq!(units(equity.pos_size), 1.0);
    assert_eq!(equity.cash_aval.raw, 389_990_000_000);
    assert_eq!(equity.equity_value.raw, 399_990_000_000);
    assert_eq!(equity.pos_size.raw, 100_000_000);
    assert_eq!(equity.close_latest, amt(100.0));
    assert_eq!(equity.timestamp, 1000);
    assert_eq!(equity.item, "X");

    let record = stg.context.get_last_trade_record("X").expect("a trade record");
    assert!(record.is_open());
    assert_eq!(record.item, "X");
    assert_eq!(record.side, "buy");
    assert_eq!(units(record.size), 1.0);
    assert_eq!(units(record.price_open), 100.0);
    assert_eq!(record.time_open, 1000);
    assert_eq!(record.time_close, 0);
    assert_eq!(record.price_close.raw, 0);
    assert_eq!(record.label_close, "");
    assert_eq!(stg.context.trade_records.count("X"), 1);
}

#[test]
fn fill_emits_position_trade_record_order_equity_in_that_order() {
    let mut stg = running();
    let item = "X".to_string();
    assert_eq!(stg.buy(&item, amt(100.0), 1000, None), Outcome::Filled);
    assert_eq!(stg.bus.len(), 4);
    let seen = drain(&mut stg);
    assert_eq!(seen.len(), 4);
    match &seen[0] {
        Event::EventPosition(p) => {
            assert_eq!(p.item, "X");
            assert_eq!(p.size, amt(1.0));
            assert_eq!(p.price, amt(100.0));
            assert_eq!(p.highest, amt(100.0));
            assert_eq!(p.lowest, amt(100.0));
            assert_eq!(p.timestamp, 1000);
        }
        other => panic!("expected a position, got {:?}", other),
    }
    assert!(matches!(&seen[1], Event::EventTradeRecord(t) if t.side == "buy"));
    match &seen[2] {
        Event::EventOrder(o) => {
            assert_eq!(o.item, "X");
            assert_eq!(o.price, amt(100.0));
            assert_eq!(o.qty, amt(1.0));
            assert_eq!(o.timestamp, 1000);
        }
        other => panic!("expected an order, got {:?}", other),
    }
    assert!(matches!(&seen[3], Event::EventEquity(e) if e.cash_aval == amt(3899.9)));
}

#[test]
fn requested_quantity_below_default_is_the_margin() {
    let mut stg = running();
    let item = "X".to_string();
    assert_eq!(stg.buy(&item, amt(50.0), 1, Some(amt(40.0))), Outcome::Filled);
    drain(&mut stg);
    let equity = stg.context.get_last_equity("X").unwrap();
    // margin 40, fee 0.04, quantity 40 / 50
    assert_eq!(equity.cash_aval, amt(4000.0 - 40.04));
    assert_eq!(equity.equity_value, amt(4000.0 - 0.04));
    assert_eq!(equity.pos_size, amt(0.8));
}

#[test]
fn requested_quantity_at_or_above_default_falls_back_to_default() {
    let item = "X".to_string();
    for requested in [100.0, 250.0, 0.0, -5.0] {
        let mut stg = running();
        assert_eq!(stg.buy(&item, amt(100.0), 1, Some(amt(requested))), Outcome::Filled);
        drain(&mut stg);
        let equity = stg.context.get_last_equity("X").unwrap();
        assert_eq!(equity.cash_aval, amt(3899.9), "requested {}", requested);
    }
}

#[test]
fn sell_fill_has_negative_quantity() {
    let mut stg = running();
    let item = "X".to_string();
    assert_eq!(stg.sell(&item, amt(100.0), 7, None), Outcome::Filled);
    drain(&mut stg);
    let position = stg.context.get_position("X").unwrap();
    assert_eq!(position.size, amt(-1.0));
    assert_eq!(position.price, amt(100.0));
    let record = stg.context.get_last_trade_record("X").unwrap();
    assert_eq!(record.side, "sell");
    assert_eq!(record.size, amt(-1.0));
    let equity = stg.context.get_last_equity("X").unwrap();
    assert_eq!(equity.pos_size, amt(-1.0));
    assert_eq!(equity.cash_aval, amt(3899.9));
    assert_eq!(equity.equity_value, amt(3999.9));
}

#[test]
fn order_costing_exactly_the_cash_is_rejected() {
    // default size 100, fee 0: the cost is exactly the capital of 100
    let mut stg = Strategy::new(params(100.0, 0.0, 1.0));
    stg.init(0);
    let equities_before = stg.context.equities.count("X");
    let item = "X".to_string();
    assert_eq!(stg.buy(&item, amt(10.0), 5, None), Outcome::InsufficientCash);
    assert_eq!(stg.bus.len(), 0);
    assert!(stg.context.get_position("X").is_none());
    assert!(stg.context.get_last_trade_record("X").is_none());
    assert_eq!(stg.context.equities.count("X"), equities_before);
    assert_eq!(stg.state, RunState::Running);
}

#[test]
fn order_exceeding_the_cash_emits_nothing_and_changes_nothing() {
    let mut stg = Strategy::new(params(4000.0, 0.001, 0.025));
    stg.params.symbols = vec!["X".to_string()];
    stg.params.intervals = vec!["1d".to_string()];
    stg.init(3);
    let item = "X_1d".to_string();
    // drain the cash: 39 fills of 100.1 leave 96.1
    for i in 0..39 {
        assert_eq!(stg.buy(&item, amt(100.0), 10 + i, None), Outcome::Filled);
        drain(&mut stg);
    }
    let before_cash = stg.context.get_last_equity("X_1d").unwrap().cash_aval;
    assert_eq!(before_cash, amt(4000.0 - 39.0 * 100.1));
    let snapshots = stg.context.equities.count("X_1d");
    let records = stg.context.trade_records.count("X_1d");
    let position = stg.context.get_position("X_1d").unwrap().clone();

    assert_eq!(stg.buy(&item, amt(100.0), 99, None), Outcome::InsufficientCash);
    assert_eq!(stg.sell(&item, amt(100.0), 99, None), Outcome::InsufficientCash);

    assert_eq!(stg.bus.len(), 0);
    assert_eq!(stg.context.equities.count("X_1d"), snapshots);
    assert_eq!(stg.context.trade_records.count("X_1d"), records);
    assert_eq!(stg.context.get_last_equity("X_1d").unwrap().cash_aval, before_cash);
    let after = stg.context.get_position("X_1d").unwrap();
    assert_eq!(after.size, position.size);
    assert_eq!(after.price, position.price);
    assert_eq!(after.timestamp, position.timestamp);
}

#[test]
fn zero_price_is_out_of_range() {
    let mut stg = running();
    let item = "X".to_string();
    assert_eq!(stg.buy(&item, amt(0.0), 1, None), Outcome::OutOfRange);
    assert_eq!(stg.bus.len(), 0);
    assert!(stg.context.get_position("X").is_none());
}

#[test]
fn quantity_beyond_the_carrier_is_out_of_range() {
    let mut stg = Strategy::new(params(4000.0, 0.0, 0.5));
    stg.init(0);
    let item = "X".to_string();
    // 2000 units at a price of one raw unit: 2 * 10^19 raw units
    assert_eq!(stg.buy(&item, Amount { raw: 1 }, 1, None), Outcome::OutOfRange);
    assert_eq!(stg.sell(&item, Amount { raw: 1 }, 1, None), Outcome::OutOfRange);
    assert_eq!(stg.bus.len(), 0);
    assert!(stg.context.get_position("X").is_none());
    assert!(stg.context.get_last_trade_record("X").is_none());
}

#[test]
fn buy_then_opposite_sell_closes_trade_and_replaces_position() {
    let mut stg = running();
    let item = "X".to_string();
    assert_eq!(stg.buy(&item, amt(100.0), 1000, None), Outcome::Filled);
    drain(&mut stg);
    assert_eq!(stg.sell(&item, amt(100.0), 2000, None), Outcome::Filled);
    let seen = drain(&mut stg);
    assert_eq!(seen.len(), 4);

    let records = stg.context.trade_records.get("X").unwrap();
    assert_eq!(records.len(), 2);
    let closed = &records[0];
    assert_eq!(closed.side, "buy");
    assert_eq!(closed.size, amt(1.0));
    assert_eq!(closed.price_open, amt(100.0));
    assert_eq!(closed.time_open, 1000);
    assert_eq!(closed.price_close, amt(100.0));
    assert_eq!(closed.time_close, 2000);
    assert_eq!(closed.label_close, "Close");
    assert!(!closed.is_open());
    let opened = &records[1];
    assert_eq!(opened.side, "sell");
    assert_eq!(opened.size, amt(-1.0));
    assert_eq!(opened.price_open, amt(100.0));
    assert_eq!(opened.time_open, 2000);
    assert!(opened.is_open());

    // replaced outright, not netted to zero
    let position = stg.context.get_position("X").unwrap();
    assert_eq!(position.size, amt(-1.0));
    assert_eq!(position.price, amt(100.0));
    assert_eq!(position.timestamp, 2000);
}

#[test]
fn position_flip_takes_the_new_fill_even_when_sizes_differ() {
    let mut stg = running();
    let item = "X".to_string();
    assert_eq!(stg.buy(&item, amt(50.0), 1, None), Outcome::Filled); // +2
    drain(&mut stg);
    assert_eq!(stg.sell(&item, amt(200.0), 2, None), Outcome::Filled); // -0.5
    drain(&mut stg);
    let position = stg.context.get_position("X").unwrap();
    assert_eq!(position.size, amt(-0.5));
    assert_eq!(position.price, amt(200.0));
    // the running extremes are those of the first fill
    assert_eq!(position.highest, amt(50.0));
    assert_eq!(position.lowest, amt(50.0));
}

#[test]
fn same_side_fills_accumulate_at_weighted_average_price() {
    let mut stg = running();
    let item = "X".to_string();
    assert_eq!(stg.buy(&item, amt(100.0), 1, None), Outcome::Filled); // +1 at 100
    drain(&mut stg);
    assert_eq!(stg.buy(&item, amt(50.0), 2, None), Outcome::Filled); // +2 at 50
    let seen = drain(&mut stg);
    // a merge announces no trade record
    assert_eq!(seen.len(), 3);
    assert!(seen.iter().all(|e| !matches!(e, Event::EventTradeRecord(_))));

    let position = stg.context.get_position("X").unwrap();
    assert_eq!(position.size, amt(3.0));
    // (1 * 100 + 2 * 50) / 3 = 66.66666666 rounded toward zero
    assert_eq!(position.price.raw, 6_666_666_666);

    assert_eq!(stg.context.trade_records.count("X"), 1);
    let record = stg.context.get_last_trade_record("X").unwrap();
    assert_eq!(record.side, "buy");
    assert_eq!(record.size, amt(3.0));
    assert_eq!(record.price_open.raw, 6_666_666_666);
    assert_eq!(record.time_open, 2);
    assert!(record.is_open());

    let equity = stg.context.get_last_equity("X").unwrap();
    assert_eq!(equity.pos_size, amt(3.0));
    assert_eq!(equity.cash_aval, amt(4000.0 - 200.2));
    assert_eq!(equity.equity_value, amt(4000.0 - 0.2));
}

#[test]
fn stop_levels_follow_cached_atr() {
    let mut stg = running();
    stg.context.update_atr("X", amt(3.0));
    let item = "X".to_string();
    assert_eq!(stg.buy(&item, amt(100.0), 1, None), Outcome::Filled);
    drain(&mut stg);
    let position = stg.context.get_position("X").unwrap();
    assert_eq!(position.stop_loss, amt(100.0 - 2.0 * 3.0));
    assert_eq!(position.take_profit, amt(100.0 + 5.0 * 3.0));
}

#[test]
fn stop_levels_stay_unset_without_atr() {
    let mut stg = running();
    let item = "X".to_string();
    assert_eq!(stg.buy(&item, amt(100.0), 1, None), Outcome::Filled);
    let position = stg.context.get_position("X").unwrap();
    assert_eq!(position.stop_loss.raw, 0);
    assert_eq!(position.take_profit.raw, 0);
}

#[test]
fn equity_mode_sizes_from_current_equity() {
    let mut p = params(4000.0, 0.001, 0.025);
    p.is_use_percent_of_equity = true;
    p.percent_of_equity = amt(0.5);
    let mut stg = Strategy::new(p);
    stg.init(0);
    let item = "X".to_string();
    // first order: half of 4000
    assert_eq!(stg.buy(&item, amt(100.0), 1, None), Outcome::Filled);
    drain(&mut stg);
    let first = stg.context.get_last_equity("X").unwrap().clone();
    assert_eq!(first.equity_value, amt(4000.0 - 2.0));
    assert_eq!(first.cash_aval, amt(4000.0 - 2002.0));
    assert_eq!(first.pos_size, amt(20.0));
    // second order: half of 3998 is 1999, cost 2000.999 exceeds the cash of 1998
    assert_eq!(stg.buy(&item, amt(100.0), 2, None), Outcome::InsufficientCash);
    // a request below the default is taken instead
    assert_eq!(stg.buy(&item, amt(100.0), 3, Some(amt(1000.0))), Outcome::Filled);
    drain(&mut stg);
    let second = stg.context.get_last_equity("X").unwrap();
    assert_eq!(second.cash_aval, amt(1998.0 - 1001.0));
    assert_eq!(second.pos_size, amt(30.0));
}

#[test]
fn process_order_updates_position_and_tail_only() {
    let mut stg = running();
    let order = drg::model::Order {
        item: "X".to_string(),
        price: amt(10.0),
        qty: amt(2.0),
        timestamp: 5,
    };
    assert!(stg.process_order(&order));
    assert_eq!(stg.bus.len(), 3);
    assert_eq!(stg.context.get_position("X").unwrap().size, amt(2.0));
    // the opened record is appended when its event is dispatched
    assert!(stg.context.get_last_trade_record("X").is_none());
    assert!(stg.context.get_last_equity("X").is_none());
    drain(&mut stg);
    assert_eq!(stg.context.get_last_trade_record("X").unwrap().size, amt(2.0));
    assert!(stg.context.get_last_equity("X").is_none());
}

#[test]
fn process_order_reports_a_size_that_cannot_be_carried() {
    let mut stg = running();
    let big = drg::model::Order {
        item: "X".to_string(),
        price: amt(1.0),
        qty: Amount { raw: i64::MAX },
        timestamp: 1,
    };
    assert!(stg.process_order(&big));
    drain(&mut stg);
    let bus_before = stg.bus.len();
    assert!(!stg.process_order(&big));
    assert_eq!(stg.bus.len(), bus_before);
    assert_eq!(stg.context.get_position("X").unwrap().size.raw, i64::MAX);
    assert_eq!(stg.context.trade_records.count("X"), 1);
}
