use marketpipe::analysis::{analyze_signals, count_macd_signals, evaluate_signals, evaluate_signals_with_policy, CrossPolicy, SignalKind, StockData};
use marketpipe::dates::Date;
use marketpipe::fixed::Fixed;
use marketpipe::indicators::{compute_macd_series, divergence_score, EMA, MACDCalc, MACDPoint};

fn fx(units_times_ten_thousand: i64) -> Fixed {
    Fixed::new(units_times_ten_thousand)
}

#[test]
fn test_ema() {
    let mut ema = EMA::new(3);
    let data = vec![(1.0 * 10000.0) as i64, (2.0 * 10000.0) as i64, (3.0 * 10000.0) as i64, (4.0
        * 10000.0) as i64];
    let mut last = fx(0);
    for v in data {
        last = ema.next(fx(v));
    }
    assert!(last.raw > 2 * 10000 && last.raw < 4 * 10000);
}

#[test]
fn test_macd_sequence() {
    let mut macd = MACDCalc::new(12, 26, 9);
    let prices = (1..100).map(|i| fx(i as i64 * 10000)).collect::<Vec<_>>();
    let mut values = Vec::new();
    for p in prices {
        values.push(macd.next(p));
    }
    // latest MACD dif should be > 0
    let last = values.last().unwrap();
    assert!(last.0.raw > 0);
}

#[test]
fn test_divergence_score() {
    // create fake rising price but falling macd
    let price = vec![fx(10000), fx(20000), fx(30000), fx(40000), fx(50000)];
    let macd = vec![fx(10000), fx(8000), fx(6000), fx(4000), fx(2000)];
    let score = divergence_score(&price, &macd);
    assert!(score.raw > 0); // bearish divergence -> sell
}

#[test]
fn ema_seeds_with_first_value() {
    let mut ema = EMA::new(12);
    let first = ema.next(fx(123_456));
    assert_eq!(first.raw, 123_456);
}

#[test]
fn ema_step_matches_recurrence() {
    // After a seed of 1.0, feeding 2.0 with period 3 moves by (2-1)*2/4 = 0.5.
    let mut ema = EMA::new(3);
    ema.next(fx(10_000));
    let second = ema.next(fx(20_000));
    assert_eq!(second.raw, 15_000);
}

#[test]
fn macd_series_is_deterministic() {
    let points: Vec<(i64, Fixed)> = (0..50).map(|i| (i as i64, fx((i as i64 + 1) * 10000))).collect();
    let a = compute_macd_series(&points);
    let b = compute_macd_series(&points);
    assert_eq!(a, b);
    assert_eq!(a.len(), 50);
    assert_eq!(a[0].ts, 0);
    assert_eq!(a[0].price.raw, 10000);
    // The first point seeds every average, so dif, dea and macd are zero.
    assert_eq!(a[0].dif.raw, 0);
    assert_eq!(a[0].dea.raw, 0);
    assert_eq!(a[0].macd.raw, 0);
}

#[test]
fn no_signals_without_crossing() {
    // MACD series 1.0, 0.8, 0.6, 0.4, 0.2 never crosses zero.
    let series = vec![fx(10000), fx(8000), fx(6000), fx(4000), fx(2000)];
    let (bullish, bearish) = evaluate_signals(&series);
    assert_eq!(bullish, 0);
    assert_eq!(bearish, 0);
}

#[test]
fn one_buy_signal_on_zero_crossing() {
    // Crossing from -0.1 to +0.1 fires exactly one bullish signal.
    let series = vec![fx(-1000), fx(1000)];
    let (bullish, bearish) = evaluate_signals(&series);
    assert_eq!(bullish, 1);
    assert_eq!(bearish, 0);
}

#[test]
fn crossing_confidence_is_magnitude_times_ten_capped() {
    // |0.1| * 10 = 1.0
    let c = marketpipe::analysis::confidence_of(fx(1000));
    assert_eq!(c.raw, 10_000);
    // A huge magnitude caps at 100.
    let c2 = marketpipe::analysis::confidence_of(fx(200_0000));
    assert_eq!(c2.raw, 100 * 10_000);
}

#[test]
fn count_signals_over_macd_points() {
    let mk = |macd_raw: i64| MACDPoint {
        ts: 0,
        price: fx(0),
        dif: fx(0),
        dea: fx(0),
        macd: fx(macd_raw),
    };
    let pts = vec![mk(-5), mk(5), mk(-5), mk(5)];
    let (bullish, bearish) = count_macd_signals(&pts);
    assert_eq!(bullish, 2);
    assert_eq!(bearish, 1);
}

#[test]
fn divergence_zero_for_short_input() {
    let score = divergence_score(&vec![fx(1)], &vec![fx(1)]);
    assert_eq!(score.raw, 0);
}

#[test]
fn agreement_scores_negative() {
    // Price and MACD both rising: no divergence, negative score.
    let price = vec![fx(10000), fx(50000)];
    let macd = vec![fx(1000), fx(5000)];
    let score = divergence_score(&price, &macd);
    assert!(score.raw < 0);
}

#[test]
fn crossing_policies_differ_on_zero_touch() {
    // From exactly zero to positive: the include-zero rule fires, the
    // strict-sign rule does not.
    let series = vec![fx(0), fx(1000)];
    assert_eq!(evaluate_signals_with_policy(CrossPolicy::IncludeZero, &series), (1, 0));
    assert_eq!(evaluate_signals_with_policy(CrossPolicy::StrictSign, &series), (0, 0));
    // A strict reversal fires under both rules.
    let series2 = vec![fx(-1000), fx(1000)];
    assert_eq!(evaluate_signals_with_policy(CrossPolicy::IncludeZero, &series2), (1, 0));
    assert_eq!(evaluate_signals_with_policy(CrossPolicy::StrictSign, &series2), (1, 0));
}

#[test]
fn rising_prices_emit_no_strict_signals() {
    let d = Date { year: 2024, month: 1, day: 2 };
    let data: Vec<StockData> = (1..60)
        .map(|i| StockData {
            date: d,
            open: fx(i * 10000),
            close: fx(i * 10000),
            high: fx(i * 10000),
            low: fx(i * 10000),
            volume: fx(10000),
        })
        .collect();
    let signals = analyze_signals(&data);
    assert!(signals.is_empty());
}

#[test]
fn recovery_after_decline_emits_buy_signals_only() {
    let d = Date { year: 2024, month: 1, day: 2 };
    let mut closes: Vec<i64> = (1..=40).rev().map(|i| i * 10000).collect();
    closes.extend((1..=40).map(|i| i * 10000));
    let data: Vec<StockData> = closes
        .iter()
        .map(|c| StockData {
            date: d,
            open: fx(*c),
            close: fx(*c),
            high: fx(*c),
            low: fx(*c),
            volume: fx(10000),
        })
        .collect();
    let signals = analyze_signals(&data);
    assert!(!signals.is_empty());
    for s in &signals {
        assert!(matches!(s.signal, SignalKind::Buy));
        assert!(s.confidence.raw <= 100 * 10000);
    }
}
