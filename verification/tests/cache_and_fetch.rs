use marketpipe::cache::ResultCache;
use marketpipe::dates::Date;
use marketpipe::providers::ProviderId;
use marketpipe::fetch::{convert_period_to_ktype, dedup_sort_bars, DataFetcher, DataSourceConfig, FetchError};
use marketpipe::fixed::Fixed;
use marketpipe::models::{Kline, Payload, Quote};
use marketpipe::providers::ProviderConfig;

fn sample_quote() -> Quote {
    Quote {
        symbol: b"000001.SZ".to_vec(),
        timestamp: 1_000,
        price: Fixed::new(105_000),
        open: None,
        high: None,
        low: None,
        prev_close: None,
        volume: None,
        amount: None,
        change: None,
        change_pct: None,
        bid_price: None,
        ask_price: None,
        bid_volume: None,
        ask_volume: None,
    }
}

fn bar(ts: i64, close_raw: i64) -> Kline {
    Kline {
        symbol: b"000001.SZ".to_vec(),
        timestamp: ts,
        open: Fixed::new(close_raw),
        high: Fixed::new(close_raw),
        low: Fixed::new(close_raw),
        close: Fixed::new(close_raw),
        volume: Fixed::new(10_000),
        amount: None,
        period: b"day".to_vec(),
    }
}

fn disabled_config() -> DataSourceConfig {
    let off = |url: &str| ProviderConfig {
        enabled: false,
        base_url: url.as_bytes().to_vec(),
        user_agent: b"test-agent".to_vec(),
    };
    DataSourceConfig {
        eastmoney: off("http://127.0.0.1:9"),
        baidu: off("http://127.0.0.1:9"),
        sina: off("http://127.0.0.1:9"),
        cache_duration: 60,
    }
}

#[test]
fn cache_entry_visible_before_expiry_and_absent_after() {
    // An entry stored at t0 with ttl T is retrievable at t0 + T - 1...
    let key = b"quote:000001.SZ".to_vec();
    let mut cache = ResultCache::new();
    cache.put(&key, &Payload::Quote(sample_quote()), 1_000, 500);
    let hit = cache.get(&key, 1_000 + 500 - 1);
    assert!(matches!(hit, Some(Payload::Quote(_))));
    // ...and absent at t0 + T + 1.
    let mut cache2 = ResultCache::new();
    cache2.put(&key, &Payload::Quote(sample_quote()), 1_000, 500);
    let miss = cache2.get(&key, 1_000 + 500 + 1);
    assert!(miss.is_none());
    // The expired entry was purged, not merely hidden.
    assert_eq!(cache2.len(), 0);
}

#[test]
fn cache_replaces_entries_under_the_same_key() {
    let key = b"quote:000001.SZ".to_vec();
    let mut cache = ResultCache::new();
    cache.put(&key, &Payload::Quote(sample_quote()), 1_000, 500);
    let mut newer = sample_quote();
    newer.price = Fixed::new(999_000);
    cache.put(&key, &Payload::Quote(newer), 2_000, 500);
    assert_eq!(cache.len(), 1);
    match cache.get(&key, 2_100) {
        Some(Payload::Quote(q)) => assert_eq!(q.price.raw, 999_000),
        _ => panic!("expected the replaced quote"),
    }
}

#[test]
fn cache_get_returns_a_deep_copy() {
    let key = b"quote:000001.SZ".to_vec();
    let mut cache = ResultCache::new();
    cache.put(&key, &Payload::Quote(sample_quote()), 0, 1_000);
    match cache.get(&key, 1) {
        Some(Payload::Quote(mut q)) => {
            q.symbol.clear();
        },
        _ => panic!("expected a quote"),
    }
    match cache.get(&key, 2) {
        Some(Payload::Quote(q)) => assert_eq!(q.symbol, b"000001.SZ".to_vec()),
        _ => panic!("expected the stored quote unchanged"),
    }
}

#[test]
fn exhausted_fallback_reports_data_source_error_and_caches_nothing() {
    let mut fetcher = DataFetcher::new(disabled_config());
    let r = fetcher.get_quote(b"000001", 10_000);
    match r {
        Err(FetchError::DataSource(fails)) => assert_eq!(fails.len(), 0),
        _ => panic!("expected the aggregate failure"),
    }
    // No cache entry was written by the failed fetch.
    let key = b"quote:000001.SZ".to_vec();
    assert!(fetcher.get_from_cache(&key, 10_001).is_none());
}

#[test]
fn invalid_symbol_is_surfaced_immediately() {
    let mut fetcher = DataFetcher::new(disabled_config());
    match fetcher.get_quote(b"bogus!", 10_000) {
        Err(FetchError::InvalidSymbol(s)) => assert_eq!(s, b"bogus!".to_vec()),
        _ => panic!("expected the invalid-symbol error"),
    }
}

#[test]
fn fetch_serves_cached_quotes_without_touching_providers() {
    let mut fetcher = DataFetcher::new(disabled_config());
    let key = b"quote:000001.SZ".to_vec();
    fetcher.cache_data(&key, &Payload::Quote(sample_quote()), 10_000, 60_000);
    match fetcher.get_quote(b"000001", 10_050) {
        Ok(q) => assert_eq!(q.price.raw, 105_000),
        _ => panic!("expected the cached quote"),
    }
}

#[test]
fn kline_request_validates_period_and_dates() {
    let mut fetcher = DataFetcher::new(disabled_config());
    let start = Date { year: 2024, month: 1, day: 1 };
    let end = Date { year: 2024, month: 2, day: 1 };
    match fetcher.get_kline_data(b"000001", &start, &end, b"hourly", 10_000) {
        Err(FetchError::InvalidParameter(p)) => assert_eq!(p, b"hourly".to_vec()),
        _ => panic!("expected the invalid-parameter error"),
    }
    match fetcher.get_kline_data(b"000001", &end, &start, b"day", 10_000) {
        Err(FetchError::InvalidDateRange) => {},
        _ => panic!("expected the inverted-range error"),
    }
}

#[test]
fn period_names_map_to_bar_resolutions() {
    assert_eq!(convert_period_to_ktype(b"1min"), Some(1));
    assert_eq!(convert_period_to_ktype(b"5min"), Some(5));
    assert_eq!(convert_period_to_ktype(b"15min"), Some(15));
    assert_eq!(convert_period_to_ktype(b"30min"), Some(30));
    assert_eq!(convert_period_to_ktype(b"60min"), Some(60));
    assert_eq!(convert_period_to_ktype(b"DAY"), Some(101));
    assert_eq!(convert_period_to_ktype(b"week"), Some(102));
    assert_eq!(convert_period_to_ktype(b"month"), Some(103));
    assert_eq!(convert_period_to_ktype(b"hourly"), None);
}

#[test]
fn period_aliases_map_to_the_same_resolutions() {
    assert_eq!(convert_period_to_ktype("1\u{5206}\u{949f}".as_bytes()), Some(1));
    assert_eq!(convert_period_to_ktype("5\u{5206}\u{949f}".as_bytes()), Some(5));
    assert_eq!(convert_period_to_ktype("15\u{5206}\u{949f}".as_bytes()), Some(15));
    assert_eq!(convert_period_to_ktype("30\u{5206}\u{949f}".as_bytes()), Some(30));
    assert_eq!(convert_period_to_ktype("60\u{5206}\u{949f}".as_bytes()), Some(60));
    assert_eq!(convert_period_to_ktype("1\u{5c0f}\u{65f6}".as_bytes()), Some(60));
    assert_eq!(convert_period_to_ktype("\u{65e5}\u{7ebf}".as_bytes()), Some(101));
    assert_eq!(convert_period_to_ktype("\u{5468}\u{7ebf}".as_bytes()), Some(102));
    assert_eq!(convert_period_to_ktype("\u{6708}\u{7ebf}".as_bytes()), Some(103));
}

#[test]
fn overlapping_pages_merge_without_duplicates() {
    // Two overlapping backward pages: the merged series is strictly
    // ascending and free of duplicate timestamps.
    let pages = vec![bar(300, 3), bar(200, 2), bar(200, 2), bar(100, 1), bar(300, 3)];
    let merged = dedup_sort_bars(pages);
    let ts: Vec<i64> = merged.iter().map(|b| b.timestamp).collect();
    assert_eq!(ts, vec![100, 200, 300]);
    for w in ts.windows(2) {
        assert!(w[0] < w[1]);
    }
}

#[test]
fn enabled_sources_follow_priority_order() {
    let mut cfg = disabled_config();
    cfg.eastmoney.enabled = true;
    cfg.sina.enabled = true;
    let fetcher = DataFetcher::new(cfg);
    let sources = fetcher.get_enabled_sources();
    assert_eq!(sources.len(), 2);
    assert!(matches!(sources[0], ProviderId::EastMoney));
    assert!(matches!(sources[1], ProviderId::Sina));
}

#[test]
fn unreachable_upstream_fails_fast_for_depth_and_trades() {
    let mut cfg = disabled_config();
    cfg.eastmoney.enabled = true;
    let mut fetcher = DataFetcher::new(cfg);
    match fetcher.get_market_depth(b"000001", 10_000) {
        Err(FetchError::DataSource(fails)) => assert_eq!(fails.len(), 1),
        _ => panic!("expected the aggregate failure"),
    }
    let today = Date { year: 2024, month: 1, day: 2 };
    match fetcher.get_recent_trades(b"000001", 10, 10_000, &today) {
        Err(FetchError::DataSource(fails)) => assert_eq!(fails.len(), 1),
        _ => panic!("expected the aggregate failure"),
    }
    let start = Date { year: 2024, month: 1, day: 1 };
    let end = Date { year: 2024, month: 1, day: 5 };
    match fetcher.get_kline_data(b"000001", &start, &end, b"day", 10_000) {
        Err(FetchError::DataSource(fails)) => assert_eq!(fails.len(), 1),
        _ => panic!("expected the aggregate failure"),
    }
}
