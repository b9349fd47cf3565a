use drg::amount::Amount;
use drg::engine::Outcome;
use drg::item_map::ItemMap;
use drg::model::{Candle, Event, StrategyParams};
use drg::price_channel::{on_candle, Signals, CHANNEL_PERIOD, ORDER_CAP, WARM_UP};
use drg::strategy::{Reaction, Strategy};

fn money(units: f64) -> Amount {
    Amount { raw: (units * 1e8).round() as i64 }
}

fn settings() -> StrategyParams {
    StrategyParams {
        stg_name: "channel".to_string(),
        window_length: 20,
        window_atr: 20,
        symbols: vec!["A".to_string()],
        intervals: vec!["1d".to_string()],
        is_use_percent_of_equity: false,
        percent_of_equity: money(0.5),
        percent_of_every_trade_money: money(0.03),
        is_sl: true,
        n_atr_sl: money(2.0),
        is_tp: false,
        n_atr_tp: money(5.0),
        tp_method: String::new(),
        initial_capital: money(4000.0),
        items_timestamp_start: ItemMap::new(),
        items_timestamp_end: ItemMap::new(),
        trading_fee: money(0.001),
    }
}

fn flat_bar(timestamp: i64, high: f64, low: f64) -> Candle {
    Candle {
        symbol: "A".to_string(),
        timestamp,
        open: money((high + low) / 2.0),
        high: money(high),
        low: money(low),
        close: money((high + low) / 2.0),
        volume: money(1.0),
        interval: "1d".to_string(),
    }
}

/// Feeds a bar through the bus and lets the policy see it; returns its signals.
fn feed(stg: &mut Strategy, bar: Candle) -> Signals {
    stg.publish(Event::EventCandle(bar));
    let mut signals = Signals { bought: None, sold: None };
    while let Reaction::Dispatched(e) = stg.handle_events(0) {
        if let Event::EventCandle(c) = e {
            signals = on_candle(stg, &c);
        }
    }
    signals
}

#[test]
fn policy_constants() {
    assert_eq!(CHANNEL_PERIOD, 20);
    assert_eq!(WARM_UP, 21);
    assert_eq!(ORDER_CAP, 100 * 100_000_000);
}

#[test]
fn policy_waits_for_twenty_one_bars() {
    let mut stg = Strategy::new(settings());
    stg.init(0);
    for k in 0..20 {
        // rising highs would be breakouts once warmed up
        let s = feed(&mut stg, flat_bar(k, 100.0 + k as f64, 90.0));
        assert_eq!(s, Signals { bought: None, sold: None });
        assert!(stg.context.get_atr("A_1d").is_none());
    }
    assert_eq!(stg.context.equities.count("A_1d"), 1);
}

#[test]
fn policy_buys_a_new_high_and_caches_atr() {
    let mut stg = Strategy::new(settings());
    stg.init(0);
    for k in 0..20 {
        feed(&mut stg, flat_bar(k, 100.0, 90.0));
    }
    let s = feed(&mut stg, flat_bar(20, 110.0, 95.0));
    assert_eq!(s, Signals { bought: Some(Outcome::Filled), sold: None });
    // twenty ranges: nineteen of 10 and one of 15
    assert_eq!(stg.context.get_atr("A_1d"), Some(money(10.25)));
    let position = stg.context.get_position("A_1d").unwrap();
    // the order commits 100, capped below the default size of 120, at the close of 102.5
    assert_eq!(position.size.raw, 97_560_975);
    assert_eq!(position.price, money(102.5));
    assert_eq!(position.stop_loss, money(102.5 - 2.0 * 10.25));
    assert_eq!(position.take_profit, money(102.5 + 5.0 * 10.25));
    let equity = stg.context.get_last_equity("A_1d").unwrap();
    assert_eq!(equity.cash_aval, money(4000.0 - 100.1));
}

#[test]
fn policy_does_not_add_to_a_long_position() {
    let mut stg = Strategy::new(settings());
    stg.init(0);
    for k in 0..20 {
        feed(&mut stg, flat_bar(k, 100.0, 90.0));
    }
    assert_eq!(feed(&mut stg, flat_bar(20, 110.0, 95.0)).bought, Some(Outcome::Filled));
    let s = feed(&mut stg, flat_bar(21, 120.0, 96.0));
    assert_eq!(s, Signals { bought: None, sold: None });
    assert_eq!(stg.context.trade_records.count("A_1d"), 1);
}

#[test]
fn policy_sells_a_new_low_and_flips_the_position() {
    let mut stg = Strategy::new(settings());
    stg.init(0);
    for k in 0..20 {
        feed(&mut stg, flat_bar(k, 100.0, 90.0));
    }
    assert_eq!(feed(&mut stg, flat_bar(20, 110.0, 95.0)).bought, Some(Outcome::Filled));
    let s = feed(&mut stg, flat_bar(21, 99.0, 80.0));
    assert_eq!(s, Signals { bought: None, sold: Some(Outcome::Filled) });
    let records = stg.context.trade_records.get("A_1d").unwrap();
    assert_eq!(records.len(), 2);
    assert_eq!(records[0].label_close, "Close");
    assert_eq!(records[0].price_close, money(89.5));
    assert_eq!(records[1].side, "sell");
    assert!(stg.context.get_position("A_1d").unwrap().size.raw < 0);
}

#[test]
fn policy_may_buy_and_sell_on_one_bar() {
    let mut stg = Strategy::new(settings());
    stg.init(0);
    for k in 0..20 {
        feed(&mut stg, flat_bar(k, 100.0, 90.0));
    }
    // the bar sets both the high and the low of the channel while flat
    let s = feed(&mut stg, flat_bar(20, 120.0, 70.0));
    assert_eq!(s, Signals { bought: Some(Outcome::Filled), sold: Some(Outcome::Filled) });
}

#[test]
fn policy_ignores_a_channel_that_is_not_positive() {
    let mut stg = Strategy::new(settings());
    stg.init(0);
    for k in 0..21 {
        let s = feed(&mut stg, flat_bar(k, 0.0, -10.0));
        assert_eq!(s, Signals { bought: None, sold: None });
    }
}
