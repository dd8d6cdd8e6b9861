//! Trade-signal evaluation over MACD series.
//!
//! A signal fires when the MACD value crosses the zero line between two
//! consecutive points.  Two crossing rules exist side by side as an explicit
//! policy: one counts touching zero as part of the lower (or upper) side,
//! the other requires a strict sign reversal.

use vstd::prelude::*;
use crate::fixed::{Fixed, FIXED_SCALE};
use crate::indicators::{calculate_macd, macd_out_at, raw_seq, MACDPoint, MACD_LONG, MACD_SHORT, MACD_SIGNAL, PRICE_ABS_MAX};
use crate::dates::Date;

verus! {

#[derive(Clone, Copy, Debug, PartialEq, Eq, Structural)]
pub enum SignalKind {
    Buy,
    Sell,
}

/// The zero-crossing rule in force.
#[derive(Clone, Copy, Debug, PartialEq, Eq, Structural)]
pub enum CrossPolicy {
    /// A move from at-or-below zero to above it (and the reverse) fires.
    IncludeZero,
    /// Only a strict sign reversal fires; touching zero is ignored.
    StrictSign,
}

/// One bar of provider data: a date and fixed-point OHLCV values.
#[derive(Clone, Copy, Debug, PartialEq, Eq, Structural)]
pub struct StockData {
    pub date: Date,
    pub open: Fixed,
    pub close: Fixed,
    pub high: Fixed,
    pub low: Fixed,
    pub volume: Fixed,
}

/// A derived trade signal, immutable once produced.
#[derive(Clone, Copy, Debug, PartialEq, Eq, Structural)]
pub struct TradeSignal {
    pub date: Date,
    pub signal: SignalKind,
    pub confidence: Fixed,
    pub price: Fixed,
}

/// Whether, under `policy`, the move from `prev` to `cur` crosses zero, and
/// in which direction.
pub open spec fn crossing_spec(policy: CrossPolicy, prev: int, cur: int) -> Option<SignalKind> {
    match policy {
        CrossPolicy::IncludeZero => if prev <= 0 && cur > 0 {
            Some(SignalKind::Buy)
        } else if prev >= 0 && cur < 0 {
            Some(SignalKind::Sell)
        } else {
            None
        },
        CrossPolicy::StrictSign => if prev < 0 && cur > 0 {
            Some(SignalKind::Buy)
        } else if prev > 0 && cur < 0 {
            Some(SignalKind::Sell)
        } else {
            None
        },
    }
}

/// Signal confidence: the crossing MACD magnitude times ten, capped at the
/// fixed-point value one hundred.
pub open spec fn confidence_spec(macd: int) -> int {
    let a = if macd >= 0 {
        macd
    } else {
        -macd
    };
    if a * 10 > 100 * (FIXED_SCALE as int) {
        100 * (FIXED_SCALE as int)
    } else {
        a * 10
    }
}

/// The MACD value produced for index `i` of a close-price sequence under
/// the default periods.
pub open spec fn macd_val_at(prices: Seq<int>, i: int) -> int {
    macd_out_at(prices, i, MACD_SHORT as int, MACD_LONG as int, MACD_SIGNAL as int).2
}

/// The signal emitted at index `j` of the series, if any.
pub open spec fn signal_at(data: Seq<StockData>, prices: Seq<int>, j: int) -> Seq<TradeSignal> {
    match crossing_spec(CrossPolicy::StrictSign, macd_val_at(prices, j - 1), macd_val_at(prices, j)) {
        Some(kind) => seq![
            TradeSignal {
                date: data[j].date,
                signal: kind,
                confidence: Fixed { raw: confidence_spec(macd_val_at(prices, j)) as i64 },
                price: data[j].close,
            },
        ],
        None => Seq::empty(),
    }
}

/// All signals among indices `1 .. i` of the series, in order.
pub open spec fn signals_upto(data: Seq<StockData>, prices: Seq<int>, i: int) -> Seq<TradeSignal>
    decreases i,
{
    if i <= 1 {
        Seq::empty()
    } else {
        signals_upto(data, prices, i - 1) + signal_at(data, prices, i - 1)
    }
}

/// Scans a bar series for strict-sign MACD zero crossings and reports one
/// signal per crossing, exactly as `signals_upto` describes over the whole
/// series.
#[verifier::loop_isolation(false)]
pub fn analyze_signals(data: &Vec<StockData>) -> (out: Vec<TradeSignal>)
    requires
        forall|i: int|
            0 <= i < data@.len() ==> -PRICE_ABS_MAX <= (#[trigger] data@[i]).close.raw
                <= PRICE_ABS_MAX,
    ensures
        out@ == signals_upto(data@, close_seq(data@), data@.len() as int),
{
    let ghost prices = close_seq(data@);
    let mut closes: Vec<Fixed> = Vec::new();
    let mut i: usize = 0;
    while i < data.len()
        invariant
            i <= data@.len(),
            closes@.len() == i,
            forall|j: int| 0 <= j < i ==> (#[trigger] closes@[j]) == data@[j].close,
        decreases data@.len() - i,
    {
        closes.push(data[i].close);
        i = i + 1;
    }
    assert(raw_seq(closes@) =~= prices);
    let (difs, deas, macds) = calculate_macd(&closes);
    assert forall|t: int| 0 <= t < data@.len() implies (#[trigger] macds@[t]).raw == macd_val_at(
        prices,
        t,
    ) by {
        assert((difs@[t].raw as int, deas@[t].raw as int, macds@[t].raw as int) == macd_out_at(
            prices,
            t,
            MACD_SHORT as int,
            MACD_LONG as int,
            MACD_SIGNAL as int,
        ));
    }
    let mut out: Vec<TradeSignal> = Vec::new();
    if data.len() == 0 {
        return out;
    }
    let mut j: usize = 1;
    while j < data.len()
        invariant
            1 <= j <= data@.len(),
            macds@.len() == data@.len(),
            forall|t: int|
                0 <= t < data@.len() ==> (#[trigger] macds@[t]).raw == macd_val_at(prices, t),
            out@ == signals_upto(data@, prices, j as int),
        decreases data@.len() - j,
    {
        let prev = macds[j - 1].raw;
        let cur = macds[j].raw;
        if prev < 0 && cur > 0 {
            out.push(
                TradeSignal {
                    date: data[j].date,
                    signal: SignalKind::Buy,
                    confidence: confidence_of(macds[j]),
                    price: data[j].close,
                },
            );
        } else if prev > 0 && cur < 0 {
            out.push(
                TradeSignal {
                    date: data[j].date,
                    signal: SignalKind::Sell,
                    confidence: confidence_of(macds[j]),
                    price: data[j].close,
                },
            );
        }
        proof {
            assert(out@ =~= signals_upto(data@, prices, j + 1));
        }
        j = j + 1;
    }
    out
}

/// The close prices of a bar series, as raw values.
pub open spec fn close_seq(data: Seq<StockData>) -> Seq<int> {
    data.map_values(|d: StockData| d.close.raw as int)
}

/// The confidence of a crossing, exactly `confidence_spec`.
pub fn confidence_of(macd: Fixed) -> (r: Fixed)
    requires
        -PRICE_ABS_MAX * 8 <= macd.raw <= PRICE_ABS_MAX * 8,
    ensures
        r.raw == confidence_spec(macd.raw as int),
{
    let a = if macd.raw >= 0 {
        macd.raw
    } else {
        -macd.raw
    };
    let scaled = a * 10;
    if scaled > 100 * FIXED_SCALE {
        Fixed { raw: 100 * FIXED_SCALE }
    } else {
        Fixed { raw: scaled }
    }
}

/// Zero-crossing counts (bullish, bearish) among indices `1 .. i` of a MACD
/// value sequence, under the given crossing policy.
pub open spec fn count_crossings(policy: CrossPolicy, m: Seq<int>, i: int) -> (int, int)
    decreases i,
{
    if i <= 1 {
        (0, 0)
    } else {
        let prior = count_crossings(policy, m, i - 1);
        match crossing_spec(policy, m[i - 2], m[i - 1]) {
            Some(SignalKind::Buy) => (prior.0 + 1, prior.1),
            Some(SignalKind::Sell) => (prior.0, prior.1 + 1),
            None => prior,
        }
    }
}

/// The MACD values of a point series.
pub open spec fn macd_of_points(points: Seq<MACDPoint>) -> Seq<int> {
    points.map_values(|p: MACDPoint| p.macd.raw as int)
}

/// Counts bullish and bearish MACD zero crossings over a point series,
/// exactly as `count_crossings` describes: a move from at-or-below zero to
/// above it is bullish, from at-or-above zero to below it bearish.
#[verifier::loop_isolation(false)]
pub fn count_macd_signals(macd_points: &Vec<MACDPoint>) -> (r: (usize, usize))
    ensures
        (r.0 as int, r.1 as int) == count_crossings(
            CrossPolicy::IncludeZero,
            macd_of_points(macd_points@),
            macd_points@.len() as int,
        ),
        r.0 + r.1 < macd_points@.len() || (r.0 == 0 && r.1 == 0),
{
    let ghost ms = macd_of_points(macd_points@);
    let mut bullish: usize = 0;
    let mut bearish: usize = 0;
    if macd_points.len() == 0 {
        return (bullish, bearish);
    }
    let mut i: usize = 1;
    while i < macd_points.len()
        invariant
            1 <= i <= macd_points@.len(),
            (bullish as int, bearish as int) == count_crossings(
                CrossPolicy::IncludeZero,
                ms,
                i as int,
            ),
            bullish + bearish < i,
        decreases macd_points@.len() - i,
    {
        let prev = macd_points[i - 1].macd.raw;
        let cur = macd_points[i].macd.raw;
        if prev <= 0 && cur > 0 {
            bullish = bullish + 1;
        } else if prev >= 0 && cur < 0 {
            bearish = bearish + 1;
        }
        i = i + 1;
    }
    (bullish, bearish)
}

/// Counts signals over a MACD value series given as fixed-point numbers:
/// the pair is (bullish, bearish).
#[verifier::loop_isolation(false)]
pub fn evaluate_signals(macd_series: &Vec<Fixed>) -> (r: (usize, usize))
    ensures
        (r.0 as int, r.1 as int) == count_crossings(
            CrossPolicy::IncludeZero,
            raw_seq(macd_series@),
            macd_series@.len() as int,
        ),
{
    let ghost ms = raw_seq(macd_series@);
    let mut bullish: usize = 0;
    let mut bearish: usize = 0;
    if macd_series.len() == 0 {
        return (bullish, bearish);
    }
    let mut i: usize = 1;
    while i < macd_series.len()
        invariant
            1 <= i <= macd_series@.len(),
            ms == raw_seq(macd_series@),
            (bullish as int, bearish as int) == count_crossings(
                CrossPolicy::IncludeZero,
                ms,
                i as int,
            ),
            bullish + bearish < i,
        decreases macd_series@.len() - i,
    {
        let prev = macd_series[i - 1].raw;
        let cur = macd_series[i].raw;
        if prev <= 0 && cur > 0 {
            bullish = bullish + 1;
        } else if prev >= 0 && cur < 0 {
            bearish = bearish + 1;
        }
        i = i + 1;
    }
    (bullish, bearish)
}

/// Counts signals over a MACD value series under the chosen crossing
/// policy: the two divergent crossing rules stand side by side as an
/// explicit, selectable policy.
#[verifier::loop_isolation(false)]
pub fn evaluate_signals_with_policy(policy: CrossPolicy, macd_series: &Vec<Fixed>) -> (r: (
    usize,
    usize,
))
    ensures
        (r.0 as int, r.1 as int) == count_crossings(
            policy,
            raw_seq(macd_series@),
            macd_series@.len() as int,
        ),
{
    let ghost ms = raw_seq(macd_series@);
    let mut bullish: usize = 0;
    let mut bearish: usize = 0;
    if macd_series.len() == 0 {
        return (bullish, bearish);
    }
    let mut i: usize = 1;
    while i < macd_series.len()
        invariant
            1 <= i <= macd_series@.len(),
            ms == raw_seq(macd_series@),
            (bullish as int, bearish as int) == count_crossings(policy, ms, i as int),
            bullish + bearish < i,
        decreases macd_series@.len() - i,
    {
        let prev = macd_series[i - 1].raw;
        let cur = macd_series[i].raw;
        let fired: Option<SignalKind> = match policy {
            CrossPolicy::IncludeZero => if prev <= 0 && cur > 0 {
                Some(SignalKind::Buy)
            } else if prev >= 0 && cur < 0 {
                Some(SignalKind::Sell)
            } else {
                None
            },
            CrossPolicy::StrictSign => if prev < 0 && cur > 0 {
                Some(SignalKind::Buy)
            } else if prev > 0 && cur < 0 {
                Some(SignalKind::Sell)
            } else {
                None
            },
        };
        match fired {
            Some(SignalKind::Buy) => {
                bullish = bullish + 1;
            },
            Some(SignalKind::Sell) => {
                bearish = bearish + 1;
            },
            None => {},
        }
        i = i + 1;
    }
    (bullish, bearish)
}

} // verus!
