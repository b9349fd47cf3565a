//! Indicators over price series: rolling extrema, simple and exponential
//! moving averages, true range and average true range.
//!
//! Each is stated over the raw values of its inputs. Averages are rounded
//! toward zero; a value that is not defined yet, or cannot be carried, is
//! absent.

use crate::amount::{
    div_toward_zero, lemma_trunc_div_shrinks, magnitude, narrow, narrow_raw, trunc_div, Amount,
    SCALE,
};
use crate::model::{Candle, CandleView};
use chrono::{Datelike, LocalResult, TimeZone, Timelike, Utc};
use vstd::prelude::*;

verus! {

/// What the rolling extrema return when fewer than `n` observations exist:
/// minus one.
pub open spec fn sentinel() -> int {
    -SCALE
}

/// Whether a window of the last `n` observations exists.
pub open spec fn has_window(len: int, n: int) -> bool {
    1 <= n <= len
}

/// Greatest of the last `n` values, or minus one where there are fewer than
/// `n` values or `n` is zero.
pub fn find_max_last_n(vec: &[Amount], n: usize) -> (r: Amount)
    ensures
        !has_window(vec.len() as int, n as int) ==> r@ == sentinel(),
        has_window(vec.len() as int, n as int) ==> {
            &&& exists|i: int| vec.len() - n <= i < vec.len() && vec[i]@ == r@
            &&& forall|i: int| vec.len() - n <= i < vec.len() ==> vec[i]@ <= r@
        },
{
    if vec.len() == 0 || n == 0 || n > vec.len() {
        return Amount { raw: -SCALE };
    }
    let start = vec.len() - n;
    let mut max = vec[start];
    let mut i: usize = start + 1;
    while i < vec.len()
        invariant
            start < i <= vec.len(),
            exists|k: int| start <= k < i && vec[k]@ == max@,
            forall|k: int| start <= k < i ==> vec[k]@ <= max@,
        decreases vec.len() - i,
    {
        if vec[i].raw > max.raw {
            max = vec[i];
        }
        i += 1;
    }
    max
}

/// Least of the last `n` values, or minus one where there are fewer than
/// `n` values or `n` is zero.
pub fn find_min_last_n(vec: &[Amount], n: usize) -> (r: Amount)
    ensures
        !has_window(vec.len() as int, n as int) ==> r@ == sentinel(),
        has_window(vec.len() as int, n as int) ==> {
            &&& exists|i: int| vec.len() - n <= i < vec.len() && vec[i]@ == r@
            &&& forall|i: int| vec.len() - n <= i < vec.len() ==> vec[i]@ >= r@
        },
{
    if vec.len() == 0 || n == 0 || n > vec.len() {
        return Amount { raw: -SCALE };
    }
    let start = vec.len() - n;
    let mut min = vec[start];
    let mut i: usize = start + 1;
    while i < vec.len()
        invariant
            start < i <= vec.len(),
            exists|k: int| start <= k < i && vec[k]@ == min@,
            forall|k: int| start <= k < i ==> vec[k]@ >= min@,
        decreases vec.len() - i,
    {
        if vec[i].raw < min.raw {
            min = vec[i];
        }
        i += 1;
    }
    min
}

/// Sum of a sequence of integers.
pub open spec fn sum_of(s: Seq<int>) -> int
    decreases s.len(),
{
    if s.len() == 0 {
        0
    } else {
        sum_of(s.drop_last()) + s.last()
    }
}

/// Mean, rounded toward zero, of the `period` values that end just before
/// index `end`.
pub open spec fn window_mean(s: Seq<int>, end: int, period: int) -> int
    recommends
        1 <= period <= end <= s.len(),
{
    trunc_div(sum_of(s.subrange(end - period, end)), period)
}

/// The simple moving average at index `i`: the mean of the `period` values
/// up to and including that index, undefined before `period` values exist
/// and for a period of zero.
pub open spec fn sma_at(prices: Seq<int>, period: int, i: int) -> Option<int> {
    if 1 <= period <= i + 1 {
        Some(window_mean(prices, i + 1, period))
    } else {
        None
    }
}

/// Extending a window by one value adds that value to its sum.
pub proof fn lemma_sum_extend(s: Seq<int>, from: int, to: int)
    requires
        0 <= from <= to < s.len(),
    ensures
        sum_of(s.subrange(from, to + 1)) == sum_of(s.subrange(from, to)) + s[to],
{
    assert(s.subrange(from, to + 1).drop_last() =~= s.subrange(from, to));
}

/// Dropping the first value of a window takes that value from its sum.
pub proof fn lemma_sum_shrink(s: Seq<int>, from: int, to: int)
    requires
        0 <= from < to <= s.len(),
    ensures
        sum_of(s.subrange(from + 1, to)) == sum_of(s.subrange(from, to)) - s[from],
    decreases to - from,
{
    if to == from + 1 {
        assert(s.subrange(from, to).drop_last() =~= Seq::<int>::empty());
        assert(s.subrange(from + 1, to) =~= Seq::<int>::empty());
        assert(sum_of(s.subrange(from, to).drop_last()) == 0);
    } else {
        lemma_sum_shrink(s, from, to - 1);
        lemma_sum_extend(s, from, to - 1);
        lemma_sum_extend(s, from + 1, to - 1);
    }
}

/// The sum of values that all lie in a range lies in that range times their
/// number.
pub proof fn lemma_sum_bounds(s: Seq<int>, lo: int, hi: int)
    requires
        forall|i: int| 0 <= i < s.len() ==> lo <= #[trigger] s[i] <= hi,
    ensures
        s.len() * lo <= sum_of(s) <= s.len() * hi,
    decreases s.len(),
{
    if s.len() > 0 {
        lemma_sum_bounds(s.drop_last(), lo, hi);
        let n = s.len() as int;
        assert((n - 1) * lo + lo == n * lo) by (nonlinear_arith);
        assert((n - 1) * hi + hi == n * hi) by (nonlinear_arith);
    }
}

/// The mean of values that all lie in a range lies in that range.
pub proof fn lemma_mean_bounds(total: int, n: int, lo: int, hi: int)
    requires
        n >= 1,
        lo <= 0 <= hi,
        n * lo <= total <= n * hi,
    ensures
        lo <= trunc_div(total, n) <= hi,
{
    let m = magnitude(total);
    let q = m / n;
    assert(q * n <= m) by (nonlinear_arith)
        requires
            q == m / n,
            n >= 1,
            m >= 0,
    ;
    if total >= 0 {
        assert(q <= hi) by (nonlinear_arith)
            requires
                q * n <= m,
                m <= n * hi,
                n >= 1,
        ;
        assert(q >= 0) by (nonlinear_arith)
            requires
                q == m / n,
                n >= 1,
                m >= 0,
        ;
    } else {
        assert(n * (-lo) == -(n * lo)) by (nonlinear_arith);
        assert(q <= -lo) by (nonlinear_arith)
            requires
                q * n <= m,
                m <= n * (-lo),
                n >= 1,
        ;
        assert(q >= 0) by (nonlinear_arith)
            requires
                q == m / n,
                n >= 1,
                m >= 0,
        ;
    }
}

/// Simple moving average: one output per input, each the mean of the last
/// `period` prices, absent while fewer than `period` prices exist.
pub fn calculate_sma(prices: &[Amount], period: usize) -> (r: Vec<Option<Amount>>)
    ensures
        r.len() == prices.len(),
        forall|i: int|
            0 <= i < prices.len() ==> (#[trigger] r[i]).deep_view() == sma_at(
                prices.deep_view(),
                period as int,
                i,
            ),
{
    let ghost raw = prices.deep_view();
    let mut sma: Vec<Option<Amount>> = Vec::new();
    let mut i: usize = 0;
    while i < prices.len()
        invariant
            i <= prices.len(),
            raw == prices.deep_view(),
            sma.len() == i,
            forall|k: int|
                0 <= k < i ==> (#[trigger] sma[k]).deep_view() == sma_at(raw, period as int, k),
        decreases prices.len() - i,
    {
        if period == 0 || i + 1 < period {
            sma.push(None);
        } else {
            let start = i + 1 - period;
            let mut total: i128 = 0;
            let mut j: usize = start;
            assert(raw.subrange(start as int, start as int) =~= Seq::<int>::empty());
            while j <= i
                invariant
                    start <= j <= i + 1,
                    i < prices.len(),
                    raw == prices.deep_view(),
                    total == sum_of(raw.subrange(start as int, j as int)),
                    (j - start) * i64::MIN <= total <= (j - start) * i64::MAX,
                decreases i + 1 - j,
            {
                proof {
                    lemma_sum_extend(raw, start as int, j as int);
                    assert(raw[j as int] == prices[j as int]@);
                }
                total = total + prices[j].raw as i128;
                j += 1;
            }
            proof {
                lemma_mean_bounds(total as int, period as int, i64::MIN as int, i64::MAX as int);
            }
            let mean = div_toward_zero(total, period as i128);
            sma.push(narrow_raw(mean));
        }
        i += 1;
    }
    sma
}

/// One step of the exponential moving average: the previous value moved
/// toward the price by `2 / (period + 1)` of their difference, rounded
/// toward zero.
pub open spec fn ema_step(prev: int, price: int, period: int) -> int {
    prev + trunc_div((price - prev) * 2, period + 1)
}

/// The exponential moving average at index `i`: the first price at index
/// zero, then one step from the value before; absent from the first value
/// on that cannot be carried.
pub open spec fn ema_at(prices: Seq<int>, period: int, i: int) -> Option<int>
    decreases i,
{
    if i <= 0 {
        Some(prices[0])
    } else {
        match ema_at(prices, period, i - 1) {
            Some(prev) => narrow(ema_step(prev, prices[i], period)),
            None => None,
        }
    }
}

/// Exponential moving average: one output per input, the first equal to the
/// first price.
pub fn calculate_ema(prices: &[Amount], period: usize) -> (r: Vec<Option<Amount>>)
    ensures
        r.len() == prices.len(),
        forall|i: int|
            0 <= i < prices.len() ==> (#[trigger] r[i]).deep_view() == ema_at(
                prices.deep_view(),
                period as int,
                i,
            ),
{
    let ghost raw = prices.deep_view();
    let mut ema: Vec<Option<Amount>> = Vec::new();
    let mut i: usize = 0;
    while i < prices.len()
        invariant
            i <= prices.len(),
            raw == prices.deep_view(),
            ema.len() == i,
            forall|k: int|
                0 <= k < i ==> (#[trigger] ema[k]).deep_view() == ema_at(raw, period as int, k),
        decreases prices.len() - i,
    {
        let price = prices[i];
        assert(raw[i as int] == price@);
        if i == 0 {
            ema.push(Some(price));
        } else {
            let next = match ema[i - 1] {
                Some(prev) => {
                    let moved: i128 = (price.raw as i128 - prev.raw as i128) * 2;
                    proof {
                        lemma_trunc_div_shrinks(moved as int, period + 1);
                    }
                    let step = div_toward_zero(moved, period as i128 + 1);
                    narrow_raw(prev.raw as i128 + step)
                },
                None => None,
            };
            ema.push(next);
        }
        i += 1;
    }
    ema
}

/// Greater of two integers.
pub open spec fn greater(a: int, b: int) -> int {
    if a >= b {
        a
    } else {
        b
    }
}

/// True range of a bar: the greatest of its high-low range and the
/// distances of its high and of its low from the previous close.
pub open spec fn true_range_of(current: CandleView, previous: CandleView) -> int {
    greater(
        greater(current.high - current.low, magnitude(current.high - previous.close)),
        magnitude(current.low - previous.close),
    )
}

/// The distance between two amounts.
fn span(a: Amount, b: Amount) -> (r: u64)
    ensures
        r == magnitude(a@ - b@),
{
    let d: i128 = a.raw as i128 - b.raw as i128;
    if d < 0 {
        (-d) as u64
    } else {
        d as u64
    }
}

/// True range of a bar, unnarrowed.
fn wide_true_range(current: &Candle, previous: &Candle) -> (r: u64)
    ensures
        r == true_range_of(current@, previous@),
{
    let range1: i128 = current.high.raw as i128 - current.low.raw as i128;
    let range2 = span(current.high, previous.close);
    let range3 = span(current.low, previous.close);
    let widest = if range2 >= range3 {
        range2
    } else {
        range3
    };
    if range1 > widest as i128 {
        range1 as u64
    } else {
        widest
    }
}

/// True range of a bar against the bar before it.
pub fn true_range(current: &Candle, previous: &Candle) -> (r: Option<Amount>)
    ensures
        r.deep_view() == narrow(true_range_of(current@, previous@)),
{
    narrow_raw(wide_true_range(current, previous) as i128)
}

/// The true ranges of a bar series: one for each bar but the first.
pub open spec fn true_ranges(bars: Seq<CandleView>) -> Seq<int> {
    Seq::new(
        if bars.len() >= 1 {
            (bars.len() - 1) as nat
        } else {
            0
        },
        |i: int| true_range_of(bars[i + 1], bars[i]),
    )
}

/// The average true range values of a bar series: none for a period of
/// zero or while fewer than `period + 1` bars exist; else one for each bar
/// from index `period` on, the `k`-th being the mean of the `period` true
/// ranges that start at the `k`-th.
pub open spec fn atr_series(bars: Seq<CandleView>, period: int) -> Seq<Option<int>> {
    if period >= 1 && bars.len() >= period + 1 {
        Seq::new(
            (bars.len() - period) as nat,
            |k: int| narrow(window_mean(true_ranges(bars), k + period, period)),
        )
    } else {
        Seq::empty()
    }
}

/// Average true range: the simple moving average of the true range, its
/// first value standing for the bar at index `period`.
pub fn calculate_atr(data: &[Candle], period: usize) -> (r: Vec<Option<Amount>>)
    ensures
        r.deep_view() == atr_series(data.deep_view(), period as int),
{
    let ghost bars = data.deep_view();
    let ghost ranges = true_ranges(bars);
    let mut atr_values: Vec<Option<Amount>> = Vec::new();
    if period == 0 || data.len() <= period {
        assert(atr_values.deep_view() =~= atr_series(bars, period as int));
        return atr_values;
    }
    let mut tr_values: Vec<u64> = Vec::new();
    let mut i: usize = 1;
    while i < data.len()
        invariant
            1 <= i <= data.len(),
            bars == data.deep_view(),
            ranges == true_ranges(bars),
            tr_values.len() == i - 1,
            forall|k: int| 0 <= k < i - 1 ==> #[trigger] tr_values[k] == ranges[k],
        decreases data.len() - i,
    {
        let tr = wide_true_range(&data[i], &data[i - 1]);
        assert(bars[i as int] == data[i as int]@ && bars[i - 1] == data[i - 1]@);
        tr_values.push(tr);
        i += 1;
    }
    let count = tr_values.len();
    let mut sum_tr: u128 = 0;
    let mut i: usize = 0;
    assert(ranges.subrange(0, 0) =~= Seq::<int>::empty());
    while i < count
        invariant
            i <= count,
            1 <= period <= count,
            count == tr_values.len(),
            count == ranges.len(),
            count == data.len() - 1,
            bars == data.deep_view(),
            ranges == true_ranges(bars),
            forall|k: int| 0 <= k < count ==> #[trigger] tr_values[k] == ranges[k],
            i < period ==> sum_tr == sum_of(ranges.subrange(0, i as int)),
            i < period ==> sum_tr <= i * u64::MAX,
            i >= period ==> sum_tr == sum_of(ranges.subrange(i - period, i as int)),
            i >= period ==> sum_tr <= period * u64::MAX,
            atr_values.len() == if i < period {
                0
            } else {
                i - period + 1
            },
            forall|k: int|
                0 <= k < atr_values.len() ==> (#[trigger] atr_values[k]).deep_view() == narrow(
                    window_mean(ranges, k + period, period as int),
                ),
        decreases count - i,
    {
        let ghost from = if i >= period {
            i - period
        } else {
            0
        };
        proof {
            assert(period * u64::MAX <= usize::MAX * u64::MAX) by (nonlinear_arith)
                requires
                    period <= usize::MAX,
            ;
        }
        if i >= period {
            proof {
                let rest = ranges.subrange(from + 1, i as int);
                lemma_sum_shrink(ranges, from as int, i as int);
                lemma_sum_extend(ranges, from + 1, i as int);
                assert forall|k: int| 0 <= k < rest.len() implies 0 <= #[trigger] rest[k]
                    <= u64::MAX by {
                    assert(rest[k] == tr_values[from + 1 + k]);
                }
                lemma_sum_bounds(rest, 0, u64::MAX as int);
                assert((period - 1) * u64::MAX + u64::MAX == period * u64::MAX)
                    by (nonlinear_arith);
            }
            sum_tr = sum_tr - tr_values[i - period] as u128;
            sum_tr = sum_tr + tr_values[i] as u128;
        } else {
            proof {
                lemma_sum_extend(ranges, 0, i as int);
                assert(i * u64::MAX + u64::MAX <= period * u64::MAX) by (nonlinear_arith)
                    requires
                        i + 1 <= period,
                ;
            }
            sum_tr = sum_tr + tr_values[i] as u128;
        }
        if i + 1 >= period {
            let mean: u128 = sum_tr / period as u128;
            let value = if mean > 0x7fff_ffff_ffff_ffff {
                None
            } else {
                Some(Amount { raw: mean as i64 })
            };
            atr_values.push(value);
        }
        i += 1;
    }
    assert(atr_values.deep_view() =~= atr_series(bars, period as int));
    atr_values
}

/// A point in time as its calendar date and time of day in UTC.
#[derive(Clone, Copy, Debug, PartialEq, Eq)]
pub struct UtcDateTime {
    pub year: i32,
    pub month: u32,
    pub day: u32,
    pub hour: u32,
    pub minute: u32,
    pub second: u32,
    pub millisecond: u32,
}

/// The calendar reading of a count of milliseconds since the Unix epoch,
/// as the calendar library gives it: absent for a count that it holds to
/// be out of range.
pub uninterp spec fn utc_calendar(timestamp_millis: int) -> Option<UtcDateTime>;

/// Reads a count of milliseconds since the Unix epoch as a UTC date and
/// time, by `chrono`'s `TimeZone::timestamp_millis_opt` on `Utc`. The
/// fields are those that `chrono` reports for the result: `year`, `month`,
/// `day`, `hour`, `minute`, `second` and `timestamp_subsec_millis`.
///
/// Trusted: the result is taken to depend on the count alone. No more is
/// claimed of it.
#[verifier::external_body]
fn read_utc_millis(timestamp_millis: i64) -> (r: Option<UtcDateTime>)
    ensures
        r == utc_calendar(timestamp_millis as int),
{
    match Utc.timestamp_millis_opt(timestamp_millis) {
        LocalResult::Single(t) => Some(
            UtcDateTime {
                year: t.year(),
                month: t.month(),
                day: t.day(),
                hour: t.hour(),
                minute: t.minute(),
                second: t.second(),
                millisecond: t.timestamp_subsec_millis(),
            },
        ),
        LocalResult::Ambiguous(_, _) => None,
        LocalResult::None => None,
    }
}

/// The UTC date and time of a timestamp in milliseconds that the calendar
/// can hold.
pub fn timestamp_millis_to_datetime(timestamp_millis: i64) -> (r: UtcDateTime)
    requires
        utc_calendar(timestamp_millis as int) is Some,
    ensures
        Some(r) == utc_calendar(timestamp_millis as int),
{
    read_utc_millis(timestamp_millis).unwrap()
}

/// The UTC date and time of a timestamp in milliseconds, absent for a
/// timestamp that the calendar cannot hold.
pub fn checked_timestamp_millis_to_datetime(timestamp_millis: i64) -> (r: Option<UtcDateTime>)
    ensures
        r == utc_calendar(timestamp_millis as int),
{
    match read_utc_millis(timestamp_millis) {
        Some(_) => Some(timestamp_millis_to_datetime(timestamp_millis)),
        None => None,
    }
}

} // verus!
