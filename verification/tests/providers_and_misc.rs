use marketpipe::api::{ApiResponse, RunMode};
use marketpipe::app_core::{market_analysis_from_ticks, symbol_info_from};
use marketpipe::config::{AppConfig, DatabaseConfig, ServerConfig, TradingConfig};
use marketpipe::dates::Date;
use marketpipe::errors::AppError;
use marketpipe::executor::{GuosenExecutor, SimExecutor};
use marketpipe::fixed::Fixed;
use marketpipe::fetch::{DataFetcher, DataSourceConfig};
use marketpipe::providers::{kline_from_line, sina_unwrap, trade_from_line, LineOutcome, ProviderConfig, TradeLineOutcome};
use marketpipe::sim::{generate_simulated_klines, generate_simulated_quote, simulate_trading_day};
use marketpipe::symbol::{CanonicalSymbol, Market};

fn sym() -> CanonicalSymbol {
    CanonicalSymbol { code: b"000001".to_vec(), market: Market::Shenzhen }
}

#[test]
fn kline_line_parses_to_a_bar() {
    let line = b"2024-01-02,10.5,11.0,11.2,10.1,5000";
    match kline_from_line(line, &sym(), &b"day".to_vec()) {
        LineOutcome::Bar(k) => {
            assert_eq!(k.symbol, b"000001.SZ".to_vec());
            assert_eq!(k.timestamp, 19724i64 * 86_400_000);
            assert_eq!(k.open.raw, 105_000);
            assert_eq!(k.close.raw, 110_000);
            assert_eq!(k.high.raw, 112_000);
            assert_eq!(k.low.raw, 101_000);
            assert_eq!(k.volume.raw, 50_000_000);
            assert_eq!(k.period, b"day".to_vec());
        },
        _ => panic!("expected a bar"),
    }
}

#[test]
fn kline_line_with_clock_time() {
    let line = b"2024-01-02 09:30,1,1,1,1,1";
    match kline_from_line(line, &sym(), &b"1min".to_vec()) {
        LineOutcome::Bar(k) => {
            assert_eq!(k.timestamp, 19724i64 * 86_400_000 + 9 * 3_600_000 + 30 * 60_000);
        },
        _ => panic!("expected a bar"),
    }
}

#[test]
fn short_and_bad_kline_lines() {
    assert!(matches!(
        kline_from_line(b"2024-01-02,1,2", &sym(), &b"day".to_vec()),
        LineOutcome::Short
    ));
    assert!(matches!(
        kline_from_line(b"2024-01-02,xx,2,3,4,5", &sym(), &b"day".to_vec()),
        LineOutcome::Bad
    ));
}

#[test]
fn trade_line_parses_to_a_print() {
    let today = Date { year: 2024, month: 1, day: 2 };
    let line = b"T42,10.55,300,B,09:31:05";
    match trade_from_line(line, &sym(), &today) {
        TradeLineOutcome::Print(t) => {
            assert_eq!(t.trade_id, b"T42".to_vec());
            assert_eq!(t.price.raw, 105_500);
            assert_eq!(t.volume.raw, 3_000_000);
            assert!(matches!(t.side, marketpipe::models::TradeSide::Buy));
            assert_eq!(t.timestamp, 19724i64 * 86_400_000 + 9 * 3_600_000 + 31 * 60_000 + 5_000);
        },
        _ => panic!("expected a print"),
    }
    match trade_from_line(b"T43,10.55,300,S,09:31:06", &sym(), &today) {
        TradeLineOutcome::Print(t) => assert!(matches!(t.side, marketpipe::models::TradeSide::Sell)),
        _ => panic!("expected a print"),
    }
    assert!(matches!(trade_from_line(b"T44,1,2", &sym(), &today), TradeLineOutcome::Short));
    assert!(matches!(
        trade_from_line(b"T45,xx,300,B,09:31:05", &sym(), &today),
        TradeLineOutcome::Bad
    ));
}

#[test]
fn sina_script_unwraps_to_its_json() {
    let body = b"var hq_data = {\"data\":[{\"price\":\"10.5\"}]};";
    let inner = sina_unwrap(body).unwrap();
    assert_eq!(inner, b" {\"data\":[{\"price\":\"10.5\"}]}".to_vec());
    assert!(sina_unwrap(b"no assignment here").is_none());
    assert!(sina_unwrap(b"x = missing semicolon").is_none());
}

#[test]
fn simulated_quote_is_positive_and_complete() {
    let q = generate_simulated_quote(&sym(), 5_000);
    assert_eq!(q.symbol, b"000001.SZ".to_vec());
    assert_eq!(q.timestamp, 5_000);
    assert!(q.price.raw > 0 && q.price.raw <= 2_000_000);
    assert!(q.open.is_some() && q.volume.is_some() && q.bid_price.is_some());
}

#[test]
fn simulated_bars_skip_weekends_and_ascend() {
    let start = Date { year: 2024, month: 1, day: 1 };
    let end = Date { year: 2024, month: 1, day: 15 };
    let bars = generate_simulated_klines(&sym(), &start, &end, b"day");
    // Two full weeks hold ten trading days.
    assert_eq!(bars.len(), 10);
    for w in bars.windows(2) {
        assert!(w[0].timestamp < w[1].timestamp);
    }
    for b in &bars {
        assert!(b.close.raw > 0);
        assert_eq!(b.period, b"day".to_vec());
    }
}

#[test]
fn simulated_day_covers_both_sessions() {
    let date = Date { year: 2024, month: 1, day: 3 };
    let ticks = simulate_trading_day(&sym(), &date);
    assert_eq!(ticks.len(), 242);
    for w in ticks.windows(2) {
        assert!(w[0].ts < w[1].ts);
    }
    let day_start = 19725i64 * 86_400_000;
    assert_eq!(ticks[0].ts, day_start + 9 * 3_600_000 + 30 * 60_000);
    assert_eq!(ticks[121].ts, day_start + 13 * 3_600_000);
    assert_eq!(ticks[241].ts, day_start + 15 * 3_600_000);
}

#[test]
fn sim_executor_allocates_sequential_ids() {
    let mut ex = SimExecutor::new();
    let first = ex.buy(b"000001.SZ", Fixed::from_units(10), Fixed::from_units(100));
    let second = ex.sell(b"000001.SZ", Fixed::from_units(10), Fixed::from_units(100));
    assert_eq!(first, b"sim-0".to_vec());
    assert_eq!(second, b"sim-1".to_vec());
    assert_eq!(ex.counter, 2);
}

#[test]
fn brokerage_executor_signs_orders() {
    let ex = GuosenExecutor::new("key".to_string(), "secret".to_string());
    assert_eq!(ex.base_url, "https://api.guosen.com.cn".to_string());
    let sig = ex.sign(b"000001.SZ", Fixed::new(105_000), Fixed::new(-25));
    assert_eq!(sig, b"mock-signature-000001.SZ-105000--25".to_vec());
}

#[test]
fn run_mode_parses_case_insensitively() {
    assert_eq!(RunMode::from_str("SIM").unwrap(), RunMode::Sim);
    assert_eq!(RunMode::from_str("Real").unwrap(), RunMode::Real);
    assert!(RunMode::from_str("other").is_err());
    assert_eq!(RunMode::Sim.name(), "sim".to_string());
}

#[test]
fn api_response_envelopes() {
    let ok: ApiResponse<u32> = ApiResponse::success(7);
    assert!(ok.success);
    assert_eq!(ok.data, Some(7));
    assert!(ok.error.is_none());
    let err: ApiResponse<u32> = ApiResponse::error("boom".to_string());
    assert!(!err.success);
    assert!(err.data.is_none());
    assert_eq!(err.error, Some("boom".to_string()));
}

#[test]
fn error_kinds_map_to_status_codes() {
    assert_eq!(AppError::Database("x".to_string()).status_code(), 500);
    assert_eq!(AppError::Redis("x".to_string()).status_code(), 500);
    assert_eq!(AppError::Reqwest("x".to_string()).status_code(), 502);
    assert_eq!(AppError::Serialization("x".to_string()).status_code(), 500);
    assert_eq!(AppError::Config("x".to_string()).status_code(), 500);
    assert_eq!(AppError::DataNotFound("x".to_string()).status_code(), 404);
    assert_eq!(AppError::Validation("x".to_string()).status_code(), 400);
    assert_eq!(AppError::Internal.status_code(), 500);
}

#[test]
fn server_address_formats_host_and_port() {
    let cfg = AppConfig {
        name: "marketpipe".to_string(),
        version: "0.1.0".to_string(),
        environment: "test".to_string(),
        database: DatabaseConfig {
            sqlite_path: "ticks.db".to_string(),
            redis_url: "redis://localhost".to_string(),
        },
        server: ServerConfig { host: "127.0.0.1".to_string(), port: 8080 },
        trading: TradingConfig {
            default_symbol: "000001".to_string(),
            macd_short: 12,
            macd_long: 26,
            macd_signal: 9,
        },
    };
    assert_eq!(cfg.get_server_address(), "127.0.0.1:8080".to_string());
}

#[test]
fn market_analysis_needs_data() {
    match market_analysis_from_ticks(b"000001.SZ", &Vec::new(), 30) {
        Err(AppError::DataNotFound(_)) => {},
        _ => panic!("expected missing-data error"),
    }
    let ticks: Vec<(i64, Fixed)> = (0..40).map(|i| (i as i64, Fixed::from_units(i as i64 + 1))).collect();
    let m = market_analysis_from_ticks(b"000001.SZ", &ticks, 30).unwrap();
    assert_eq!(m.symbol, b"000001.SZ".to_vec());
    assert_eq!(m.macd_points.len(), 40);
    assert_eq!(m.signal_count, m.bullish_signals + m.bearish_signals);
    assert_eq!(m.analysis_period(), b"30 days".to_vec());
}

#[test]
fn symbol_info_carries_store_results() {
    let info = symbol_info_from(b"000001.SZ", None, 5);
    assert_eq!(info.symbol, b"000001.SZ".to_vec());
    assert!(info.latest_tick.is_none());
    assert_eq!(info.data_points, 5);
}

#[test]
fn klines_with_sim_serve_simulated_bars_on_outage() {
    let off = ProviderConfig {
        enabled: false,
        base_url: b"http://127.0.0.1:9".to_vec(),
        user_agent: b"test-agent".to_vec(),
    };
    let cfg = DataSourceConfig {
        eastmoney: off.clone(),
        baidu: off.clone(),
        sina: off,
        cache_duration: 60,
    };
    let mut fetcher = DataFetcher::new(cfg);
    let start = Date { year: 2024, month: 1, day: 1 };
    let end = Date { year: 2024, month: 1, day: 15 };
    let bars = fetcher
        .get_kline_data_with_sim(b"000001", &start, &end, b"day", 10_000)
        .unwrap();
    // One simulated bar per weekday of the two-week range.
    assert_eq!(bars.len(), 10);
    for w in bars.windows(2) {
        assert!(w[0].timestamp < w[1].timestamp);
    }
}

#[test]
fn quote_with_sim_never_fails_on_outage() {
    let off = ProviderConfig {
        enabled: false,
        base_url: b"http://127.0.0.1:9".to_vec(),
        user_agent: b"test-agent".to_vec(),
    };
    let cfg = DataSourceConfig {
        eastmoney: off.clone(),
        baidu: off.clone(),
        sina: off,
        cache_duration: 60,
    };
    let mut fetcher = DataFetcher::new(cfg);
    let q = fetcher.get_quote_with_sim(b"600733", 10_000).unwrap();
    assert_eq!(q.symbol, b"600733.SH".to_vec());
    assert!(q.price.raw > 0);
}
