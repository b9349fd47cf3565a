use drg::amount::Amount;
use drg::common::{
    calculate_atr, calculate_ema, calculate_sma, checked_timestamp_millis_to_datetime,
    find_max_last_n, find_min_last_n, timestamp_millis_to_datetime, true_range, UtcDateTime,
};
use drg::model::Candle;

fn value(units: f64) -> Amount {
    Amount { raw: (units * 1e8).round() as i64 }
}

fn series(values: &[f64]) -> Vec<Amount> {
    values.iter().map(|v| value(*v)).collect()
}

fn ohlc(high: f64, low: f64, close: f64) -> Candle {
    Candle {
        symbol: "A".to_string(),
        timestamp: 0,
        open: value(close),
        high: value(high),
        low: value(low),
        close: value(close),
        volume: value(1.0),
        interval: "1d".to_string(),
    }
}

#[test]
fn rolling_max_and_min_over_last_n() {
    let v = series(&[5.0, 9.0, 2.0, 7.0, 3.0]);
    assert_eq!(find_max_last_n(&v, 3), value(7.0));
    assert_eq!(find_min_last_n(&v, 3), value(2.0));
    assert_eq!(find_max_last_n(&v, 5), value(9.0));
    assert_eq!(find_min_last_n(&v, 5), value(2.0));
    assert_eq!(find_max_last_n(&v, 1), value(3.0));
    assert_eq!(find_min_last_n(&v, 1), value(3.0));
}

#[test]
fn rolling_extrema_return_minus_one_without_enough_observations() {
    let v = series(&[5.0, 9.0]);
    let empty: Vec<Amount> = Vec::new();
    for (s, n) in [(&v, 3usize), (&v, 0), (&empty, 1), (&empty, 0)] {
        assert_eq!(find_max_last_n(s, n), value(-1.0));
        assert_eq!(find_min_last_n(s, n), value(-1.0));
    }
}

#[test]
fn rolling_extrema_of_negative_values() {
    let v = series(&[-5.0, -9.0, -2.0]);
    assert_eq!(find_max_last_n(&v, 3), value(-2.0));
    assert_eq!(find_min_last_n(&v, 3), value(-9.0));
}

#[test]
fn sma_is_undefined_before_period_values() {
    let prices = series(&[1.0, 2.0, 3.0, 4.0, 5.0]);
    let sma = calculate_sma(&prices, 3);
    assert_eq!(sma, vec![None, None, Some(value(2.0)), Some(value(3.0)), Some(value(4.0))]);
}

#[test]
fn sma_rounds_toward_zero() {
    let sma = calculate_sma(&[Amount { raw: 1 }, Amount { raw: 2 }, Amount { raw: 2 }], 3);
    assert_eq!(sma[2], Some(Amount { raw: 1 }));
    let sma = calculate_sma(&[Amount { raw: -1 }, Amount { raw: -2 }, Amount { raw: -2 }], 3);
    assert_eq!(sma[2], Some(Amount { raw: -1 }));
}

#[test]
fn sma_edge_periods() {
    let prices = series(&[1.0, 2.0, 3.0]);
    assert_eq!(calculate_sma(&prices, 0), vec![None, None, None]);
    assert_eq!(calculate_sma(&prices, 1), vec![Some(value(1.0)), Some(value(2.0)), Some(value(3.0))]);
    assert_eq!(calculate_sma(&prices, 4), vec![None, None, None]);
    assert_eq!(calculate_sma(&[], 3), vec![]);
    let extreme = [Amount { raw: i64::MAX }, Amount { raw: i64::MAX }];
    assert_eq!(calculate_sma(&extreme, 2)[1], Some(Amount { raw: i64::MAX }));
}

#[test]
fn ema_first_output_is_first_price_for_any_period() {
    let prices = series(&[42.5, 10.0, 99.0]);
    for period in [0usize, 1, 2, 20, 1000, usize::MAX] {
        let ema = calculate_ema(&prices, period);
        assert_eq!(ema.len(), 3);
        assert_eq!(ema[0], Some(value(42.5)), "period {}", period);
    }
}

#[test]
fn ema_follows_its_recurrence() {
    // period 3: multiplier 2 / 4
    let ema = calculate_ema(&series(&[10.0, 20.0, 10.0]), 3);
    assert_eq!(ema, vec![Some(value(10.0)), Some(value(15.0)), Some(value(12.5))]);
    // period 1: multiplier 1, the average is the price
    let ema = calculate_ema(&series(&[10.0, 20.0, 5.0]), 1);
    assert_eq!(ema, vec![Some(value(10.0)), Some(value(20.0)), Some(value(5.0))]);
    // period 2: a third of a raw unit is rounded toward zero
    let ema = calculate_ema(&[Amount { raw: 0 }, Amount { raw: 2 }, Amount { raw: -3 }], 2);
    assert_eq!(ema, vec![Some(Amount { raw: 0 }), Some(Amount { raw: 1 }), Some(Amount { raw: -1 })]);
}

#[test]
fn ema_value_that_cannot_be_carried_is_absent_from_there_on() {
    // period 0: multiplier 2 overshoots the price
    let prices = [Amount { raw: i64::MIN }, Amount { raw: i64::MAX }, Amount { raw: 0 }];
    let ema = calculate_ema(&prices, 0);
    assert_eq!(ema, vec![Some(Amount { raw: i64::MIN }), None, None]);
}

#[test]
fn true_range_is_the_widest_of_three_spans() {
    let previous = ohlc(12.0, 8.0, 10.0);
    assert_eq!(true_range(&ohlc(13.0, 11.0, 12.0), &previous), Some(value(3.0)));
    assert_eq!(true_range(&ohlc(9.0, 4.0, 5.0), &previous), Some(value(6.0)));
    assert_eq!(true_range(&ohlc(20.0, 10.0, 15.0), &previous), Some(value(10.0)));
    assert_eq!(true_range(&ohlc(10.0, 10.0, 10.0), &previous), Some(value(0.0)));
}

#[test]
fn true_range_too_wide_to_carry_is_absent() {
    let mut current = ohlc(0.0, 0.0, 0.0);
    current.high = Amount { raw: i64::MAX };
    current.low = Amount { raw: i64::MIN };
    assert_eq!(true_range(&current, &ohlc(1.0, 1.0, 1.0)), None);
}

#[test]
fn atr_first_value_appears_at_bar_index_period() {
    let bars: Vec<Candle> = vec![
        ohlc(10.0, 8.0, 9.0),
        ohlc(11.0, 9.0, 10.0),  // tr 2
        ohlc(14.0, 10.0, 13.0), // tr 4
        ohlc(13.0, 12.0, 12.0), // tr 1
        ohlc(18.0, 12.0, 17.0), // tr 6
    ];
    let period = 3;
    for n in 0..=period {
        assert!(calculate_atr(&bars[..n], period).is_empty(), "{} bars", n);
    }
    let first = calculate_atr(&bars[..period + 1], period);
    assert_eq!(first.len(), 1);
    // the mean of the first three true ranges: (2 + 4 + 1) / 3
    assert_eq!(first[0], Some(Amount { raw: 233_333_333 }));
    let all = calculate_atr(&bars, period);
    assert_eq!(all.len(), bars.len() - period);
    assert_eq!(all[0], first[0]);
    // (4 + 1 + 6) / 3
    assert_eq!(all[1], Some(Amount { raw: 366_666_666 }));
}

#[test]
fn atr_edge_periods() {
    let bars: Vec<Candle> = vec![ohlc(10.0, 8.0, 9.0), ohlc(11.0, 9.0, 10.0), ohlc(15.0, 10.0, 13.0)];
    assert!(calculate_atr(&bars, 0).is_empty());
    assert_eq!(calculate_atr(&bars, 1), vec![Some(value(2.0)), Some(value(5.0))]);
    assert_eq!(calculate_atr(&bars, 2), vec![Some(value(3.5))]);
    assert!(calculate_atr(&bars, 3).is_empty());
    assert!(calculate_atr(&[], 1).is_empty());
}

#[test]
fn timestamp_reads_as_utc_calendar_time() {
    let t = timestamp_millis_to_datetime(947_638_923_004);
    assert_eq!(
        t,
        UtcDateTime {
            year: 2000,
            month: 1,
            day: 12,
            hour: 1,
            minute: 2,
            second: 3,
            millisecond: 4
        }
    );
    let epoch = timestamp_millis_to_datetime(0);
    assert_eq!((epoch.year, epoch.month, epoch.day), (1970, 1, 1));
    assert_eq!((epoch.hour, epoch.minute, epoch.second, epoch.millisecond), (0, 0, 0, 0));
    let before = timestamp_millis_to_datetime(-1);
    assert_eq!((before.year, before.month, before.day), (1969, 12, 31));
    assert_eq!((before.hour, before.minute, before.second, before.millisecond), (23, 59, 59, 999));
}

#[test]
fn timestamp_out_of_calendar_range_is_absent() {
    assert_eq!(checked_timestamp_millis_to_datetime(i64::MAX), None);
    assert_eq!(checked_timestamp_millis_to_datetime(i64::MIN), None);
    assert_eq!(
        checked_timestamp_millis_to_datetime(1_704_067_200_000),
        Some(UtcDateTime {
            year: 2024,
            month: 1,
            day: 1,
            hour: 0,
            minute: 0,
            second: 0,
            millisecond: 0
        })
    );
}
