use marketpipe::dates::{date_time_to_ms, date_to_days, format_date, parse_date, parse_time, weekday_of_days, Date};
use marketpipe::fixed::{parse_fixed, Fixed};
use marketpipe::symbol::{normalize_symbol, parse_symbol, CanonicalSymbol, Market};

#[test]
fn normalize_classifies_by_leading_digit() {
    let a = normalize_symbol(b"000001").unwrap();
    assert_eq!(a.market, Market::Shenzhen);
    assert_eq!(a.code, b"000001".to_vec());
    let b = normalize_symbol(b"300750").unwrap();
    assert_eq!(b.market, Market::Shenzhen);
    let c = normalize_symbol(b"600733").unwrap();
    assert_eq!(c.market, Market::Shanghai);
}

#[test]
fn normalize_trims_and_uppercases() {
    let a = normalize_symbol(b"  600733.sh \n").unwrap();
    assert_eq!(a.market, Market::Shanghai);
    assert_eq!(a.code, b"600733".to_vec());
}

#[test]
fn normalize_accepts_suffixed_symbols_as_they_stand() {
    let a = normalize_symbol(b"000001.SZ").unwrap();
    assert_eq!(a.market, Market::Shenzhen);
    assert_eq!(a.text(), b"000001.SZ".to_vec());
}

#[test]
fn normalize_is_idempotent() {
    let first = normalize_symbol(b" 000001 ").unwrap();
    let again = normalize_symbol(&first.text()).unwrap();
    assert_eq!(again.code, first.code);
    assert_eq!(again.market, first.market);
}

#[test]
fn normalize_rejects_other_input() {
    assert!(normalize_symbol(b"900001").is_none());
    assert!(normalize_symbol(b"12345").is_none());
    assert!(normalize_symbol(b"ABCDEF").is_none());
    assert!(normalize_symbol(b"").is_none());
    assert!(normalize_symbol(b"0001A1").is_none());
}

#[test]
fn parse_symbol_splits_market_and_code() {
    let (market, code) = parse_symbol(b"000001.SZ").unwrap();
    assert_eq!(market, 0);
    assert_eq!(code, b"000001".to_vec());
    let (market2, _) = parse_symbol(b"600733.SH").unwrap();
    assert_eq!(market2, 1);
    assert!(parse_symbol(b"000001").is_none());
}

#[test]
fn provider_code_forms() {
    let sym = CanonicalSymbol { code: b"600733".to_vec(), market: Market::Shanghai };
    assert_eq!(sym.sina_code(), b"sh600733".to_vec());
    assert_eq!(sym.baidu_code(), b"600733".to_vec());
    assert_eq!(sym.market_id(), 1);
}

#[test]
fn parse_fixed_decodes_decimal_text() {
    assert_eq!(parse_fixed(b"12.34").unwrap().raw, 123_400);
    assert_eq!(parse_fixed(b"-3").unwrap().raw, -30_000);
    assert_eq!(parse_fixed(b"0").unwrap().raw, 0);
    assert_eq!(parse_fixed(b"10000").unwrap().raw, 100_000_000);
}

#[test]
fn parse_fixed_handles_exponents_and_truncation() {
    assert_eq!(parse_fixed(b"1e2").unwrap().raw, 1_000_000);
    assert_eq!(parse_fixed(b"1.5e3").unwrap().raw, 15_000_000);
    assert_eq!(parse_fixed(b"2.5e-1").unwrap().raw, 2_500);
    // Digits beyond the fourth fractional place truncate toward zero.
    assert_eq!(parse_fixed(b"12.34567").unwrap().raw, 123_456);
    assert_eq!(parse_fixed(b"-12.34567").unwrap().raw, -123_456);
}

#[test]
fn parse_fixed_rejects_malformed_text() {
    assert!(parse_fixed(b"").is_none());
    assert!(parse_fixed(b"abc").is_none());
    assert!(parse_fixed(b"1.").is_none());
    assert!(parse_fixed(b".5").is_none());
    assert!(parse_fixed(b"1.2.3").is_none());
    assert!(parse_fixed(b"1e").is_none());
    assert!(parse_fixed(b"999999999999999999999").is_none());
}

#[test]
fn civil_dates_round_through_epoch_days() {
    let epoch = Date { year: 1970, month: 1, day: 1 };
    assert_eq!(date_to_days(&epoch), 0);
    // 1970-01-01 was a Thursday.
    assert_eq!(weekday_of_days(0), 4);
    let d = Date { year: 2024, month: 1, day: 2 };
    assert_eq!(date_to_days(&d), 19724);
    assert_eq!(date_time_to_ms(&d, 0, 0, 0), 19724i64 * 86_400_000);
}

#[test]
fn date_text_parses_and_formats() {
    let d = parse_date(b"2024-01-02").unwrap();
    assert_eq!((d.year, d.month, d.day), (2024, 1, 2));
    assert_eq!(format_date(&d), b"2024-01-02".to_vec());
    assert!(parse_date(b"2024-13-02").is_none());
    assert!(parse_date(b"2024-1-2").is_none());
    assert_eq!(parse_time(b"09:30").unwrap(), (9, 30, 0));
    assert_eq!(parse_time(b"14:59:58").unwrap(), (14, 59, 58));
    assert!(parse_time(b"25:00").is_none());
}

#[test]
fn fixed_constructors() {
    assert_eq!(Fixed::from_units(12).raw, 120_000);
    assert!(Fixed::new(1).is_positive());
    assert!(!Fixed::zero().is_positive());
}
