use drg::amount::Amount;
use drg::broker::{
    candle_events, candle_window, is_supported_interval, normalize_timestamp, symbol_streams,
    Window,
};
use drg::db::{ClientMongo, ASCENDING, DESCENDING};
use drg::feed::{Client, Command, Link, Report, RECONNECT_DELAY};
use drg::item_map::ItemMap;
use drg::model::{item_of, Candle, Event};
use drg::price_channel::candle_columns;

fn candle(timestamp: i64, close: i64) -> Candle {
    Candle {
        symbol: "BTCUSDT".to_string(),
        timestamp,
        open: Amount { raw: close },
        high: Amount { raw: close + 1 },
        low: Amount { raw: close - 1 },
        close: Amount { raw: close },
        volume: Amount { raw: 5 },
        interval: "1d".to_string(),
    }
}

#[test]
fn item_key_joins_symbol_and_interval() {
    assert_eq!(item_of("BTCUSDT", "1d"), "BTCUSDT_1d");
    assert_eq!(item_of("", ""), "_");
}

#[test]
fn supported_intervals_are_the_fifteen_listed() {
    for interval in [
        "1m", "3m", "5m", "15m", "30m", "1h", "2h", "4h", "6h", "8h", "12h", "1d", "3d", "1w", "1M",
    ] {
        assert!(is_supported_interval(interval), "{}", interval);
    }
    for interval in ["", "1", "m", "2m", "1D", "1W", "1mo", "1y", "1d ", "10m"] {
        assert!(!is_supported_interval(interval), "{}", interval);
    }
}

#[test]
fn ten_digit_timestamps_are_seconds() {
    assert_eq!(normalize_timestamp(1_700_000_000), 1_700_000_000_000);
    assert_eq!(normalize_timestamp(1_000_000_000), 1_000_000_000_000);
    assert_eq!(normalize_timestamp(9_999_999_999), 9_999_999_999_000);
    assert_eq!(normalize_timestamp(-1_700_000_000), -1_700_000_000_000);
}

#[test]
fn other_timestamps_are_kept() {
    for t in [0, 7, 999_999_999, 10_000_000_000, 1_700_000_000_000, -999_999_999, i64::MAX, i64::MIN] {
        assert_eq!(normalize_timestamp(t), t);
    }
}

#[test]
fn window_is_unbounded_above_unless_end_is_positive_and_after_start() {
    assert_eq!(candle_window(100, 200), Window { after: 100, before: Some(200) });
    assert_eq!(candle_window(100, 0), Window { after: 100, before: None });
    assert_eq!(candle_window(100, -5), Window { after: 100, before: None });
    assert_eq!(candle_window(100, 100), Window { after: 100, before: None });
    assert_eq!(candle_window(100, 50), Window { after: 100, before: None });
    assert_eq!(candle_window(-10, 5), Window { after: -10, before: Some(5) });
    assert_eq!(candle_window(-10, -5), Window { after: -10, before: None });
}

#[test]
fn window_bounds_are_exclusive() {
    let w = candle_window(100, 200);
    assert!(!w.contains(100));
    assert!(w.contains(101));
    assert!(w.contains(199));
    assert!(!w.contains(200));
    let open = candle_window(100, 0);
    assert!(open.contains(i64::MAX));
    assert!(!open.contains(100));
}

#[test]
fn stream_drops_the_most_recent_bar_and_keeps_order() {
    let bars = vec![candle(1_700_000_000, 10), candle(1_700_086_400, 11), candle(1_700_172_800, 12)];
    let events = candle_events(&bars);
    assert_eq!(events.len(), 2);
    for (k, e) in events.iter().enumerate() {
        match e {
            Event::EventCandle(c) => {
                assert_eq!(c.timestamp, bars[k].timestamp * 1000);
                assert_eq!(c.close, bars[k].close);
                assert_eq!(c.high, bars[k].high);
                assert_eq!(c.low, bars[k].low);
                assert_eq!(c.open, bars[k].open);
                assert_eq!(c.volume, bars[k].volume);
                assert_eq!(c.symbol, "BTCUSDT");
                assert_eq!(c.interval, "1d");
            }
            other => panic!("expected a candle, got {:?}", other),
        }
    }
}

#[test]
fn stream_of_one_bar_or_none_is_empty() {
    assert!(candle_events(&vec![]).is_empty());
    assert!(candle_events(&vec![candle(1, 1)]).is_empty());
}

#[test]
fn streams_of_a_symbol_skip_unsupported_intervals() {
    let intervals: Vec<String> = ["1d", "7d", "4h"].iter().map(|s| s.to_string()).collect();
    let mut starts: ItemMap<i64> = ItemMap::new();
    let mut ends: ItemMap<i64> = ItemMap::new();
    starts.insert("BTCUSDT_1d".to_string(), 1000);
    ends.insert("BTCUSDT_1d".to_string(), 2000);
    starts.insert("ETHUSDT_4h".to_string(), 5);
    let streams = symbol_streams("BTCUSDT", &intervals, &starts, &ends);
    assert_eq!(streams.len(), 2);
    assert_eq!(streams[0].symbol, "BTCUSDT");
    assert_eq!(streams[0].interval, "1d");
    assert_eq!(streams[0].item, "BTCUSDT_1d");
    assert_eq!(streams[0].timestamp_start, 1000);
    assert_eq!(streams[0].timestamp_end, 2000);
    assert_eq!(streams[1].item, "BTCUSDT_4h");
    assert_eq!(streams[1].timestamp_start, 0);
    assert_eq!(streams[1].timestamp_end, 0);
}

#[test]
fn item_map_keeps_the_latest_value_of_a_key() {
    let mut m: ItemMap<i64> = ItemMap::new();
    assert!(!m.contains_key("a"));
    assert_eq!(m.get("a"), None);
    m.insert("a".to_string(), 1);
    m.insert("b".to_string(), 2);
    m.insert("a".to_string(), 3);
    assert_eq!(m.get("a"), Some(&3));
    assert_eq!(m.get("b"), Some(&2));
    assert!(m.contains_key("b"));
    assert!(!m.contains_key("A"));
}

#[test]
fn item_map_histories() {
    let mut m: ItemMap<Vec<i64>> = ItemMap::new();
    assert_eq!(m.last("a"), None);
    assert_eq!(m.count("a"), 0);
    m.set_last("a", 9);
    assert_eq!(m.count("a"), 0);
    m.push("a", 1);
    m.push("b", 10);
    m.push("a", 2);
    assert_eq!(m.get("a"), Some(&vec![1, 2]));
    assert_eq!(m.last("a"), Some(&2));
    m.set_last("a", 7);
    assert_eq!(m.get("a"), Some(&vec![1, 7]));
    assert_eq!(m.get("b"), Some(&vec![10]));
    assert_eq!(m.count("a"), 2);
}

#[test]
fn mongo_client_defaults() {
    let c = ClientMongo::new(None, None);
    assert_eq!(c.url(), "mongodb://localhost:27017/");
    assert_eq!(c.db_name(), "stocksdb");
    let c = ClientMongo::new(Some("mongodb://db:1/".to_string()), Some("x".to_string()));
    assert_eq!(c.url(), "mongodb://db:1/");
    assert_eq!(c.db_name(), "x");
    let c = ClientMongo::new(None, Some("only".to_string()));
    assert_eq!(c.url(), "mongodb://localhost:27017/");
    assert_eq!(c.db_name(), "only");
}

#[test]
fn mongo_client_with_db_name() {
    let c = ClientMongo::with_db_name("cryptodb".to_string());
    assert_eq!(c.url(), "mongodb://localhost:27017/");
    assert_eq!(c.db_name(), "cryptodb");
    let copy = c.clone();
    assert_eq!(copy.db_name(), "cryptodb");
}

#[test]
fn find_plan_defaults() {
    let plan = ClientMongo::find_plan(None, None, None);
    assert_eq!(plan.limit, 0);
    assert_eq!(plan.sort_col, "_id");
    assert_eq!(plan.sort_order, ASCENDING);
    assert_eq!(ASCENDING, 1);
    let plan = ClientMongo::find_plan(Some(50), Some("timestamp"), Some(false));
    assert_eq!(plan.limit, 50);
    assert_eq!(plan.sort_col, "timestamp");
    assert_eq!(plan.sort_order, DESCENDING);
    assert_eq!(DESCENDING, -1);
    assert_eq!(ClientMongo::find_plan(None, None, Some(true)).sort_order, 1);
}

#[test]
fn feed_reconnects_after_every_failure() {
    let mut client = Client::new(vec!["BTCUSDT".to_string()], vec!["1m".to_string()], "ws://x".to_string());
    assert_eq!(client.link, Link::Down);
    assert!(matches!(client.start(), Command::Connect(0)));
    assert!(matches!(client.step(Report::ConnectFailed), Command::Connect(d) if d == RECONNECT_DELAY));
    assert_eq!(RECONNECT_DELAY, 5);
    assert_eq!(client.link, Link::Down);
    assert!(matches!(client.step(Report::Connected), Command::Subscribe(ref s) if s == "subscribe"));
    assert_eq!(client.link, Link::Up);
    assert!(matches!(client.step(Report::Text("tick".to_string())), Command::Forward(ref s) if s == "tick"));
    assert!(matches!(client.step(Report::Other), Command::Read));
    assert_eq!(client.link, Link::Up);
    assert!(matches!(client.step(Report::ReadFailed), Command::Connect(5)));
    assert_eq!(client.link, Link::Down);
    assert!(matches!(client.step(Report::Connected), Command::Subscribe(_)));
    assert!(matches!(client.step(Report::Ended), Command::Connect(5)));
    assert_eq!(client.link, Link::Down);
    assert!(matches!(client.step(Report::Text("late".to_string())), Command::Connect(5)));
    assert_eq!(client.ws_url, "ws://x");
}

#[test]
fn columns_hold_the_last_thousand_bars() {
    let bars: Vec<Candle> = (0..1003).map(|k| candle(k, 100 + k)).collect();
    let columns = candle_columns(&bars);
    assert_eq!(columns.timestamps.len(), 1000);
    assert_eq!(columns.timestamps[0], 3);
    assert_eq!(columns.timestamps[999], 1002);
    assert_eq!(columns.closes[0], Amount { raw: 103 });
    assert_eq!(columns.highs[999], Amount { raw: 1103 });
    assert_eq!(columns.lows[5], Amount { raw: 107 });
    assert_eq!(columns.opens.len(), 1000);
    assert_eq!(columns.volumes.len(), 1000);
    assert_eq!(columns.symbols[0], "BTCUSDT");
    assert_eq!(columns.intervals[999], "1d");
    let few = candle_columns(&bars[..3].to_vec());
    assert_eq!(few.timestamps, vec![0, 1, 2]);
    assert!(candle_columns(&vec![]).timestamps.is_empty());
}
