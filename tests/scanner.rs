use std::str::FromStr;

use arbscanner::config::{Config, ConfigValues};
use arbscanner::decimal::{parse_or_zero, Dec};
use arbscanner::exchanges::PriceUpdate;
use arbscanner::scanner::{ArbitrageOpportunity, ArbitrageScanner};
use rust_decimal::Decimal;

fn settings<'a>(min: &'a str, max: &'a str, pairs: &'a str, exchanges: &'a str) -> ConfigValues<'a> {
    ConfigValues {
        min_spread_percent: Some(min),
        max_spread_percent: Some(max),
        cooldown_ms: Some("1000"),
        callback_url: None,
        filter_pairs: Some(pairs),
        filter_exchanges: Some(exchanges),
        enabled_exchanges: None,
        orderbook_depth: None,
    }
}

fn scanner(min: &str, max: &str, pairs: &str, exchanges: &str) -> ArbitrageScanner {
    ArbitrageScanner::new(Config::from_values(&settings(min, max, pairs, exchanges)).unwrap())
}

fn update(exchange: &str, symbol: &str, bid: &str, ask: &str) -> PriceUpdate {
    PriceUpdate {
        exchange: exchange.to_string(),
        symbol: symbol.to_string(),
        raw_symbol: symbol.replace('/', ""),
        bid: parse_or_zero(bid),
        ask: parse_or_zero(ask),
        bid_size: parse_or_zero("1"),
        ask_size: parse_or_zero("1"),
        timestamp: 0,
    }
}

fn decimal(d: &Dec) -> Decimal {
    Decimal::from_i128_with_scale(d.mantissa, d.scale)
}

fn dec(s: &str) -> Decimal {
    Decimal::from_str(s).unwrap()
}

#[test]
fn single_venue_emits_nothing() {
    let mut s = scanner("0.3", "10", "", "");
    assert!(s.handle_price_update_at(update("binance", "BTC/USDT", "60000", "60010"), 1_000).is_none());
    assert_eq!(s.symbol_count(), 1);
}

fn check_binance_okx(o: &ArbitrageOpportunity) {
    assert_eq!(o.symbol, "BTC/USDT");
    assert_eq!(o.buy_exchange, "binance");
    assert_eq!(o.sell_exchange, "okx");
    assert_eq!(decimal(&o.buy_price), dec("60010"));
    assert_eq!(decimal(&o.sell_price), dec("60250"));
    assert_eq!(decimal(&o.spread_usd), dec("240"));
    assert_eq!(decimal(&o.spread_percent).round_dp(6), dec("0.399933"));
}

#[test]
fn cross_venue_spread_above_threshold_emits_once() {
    let mut s = scanner("0.3", "10", "", "");
    assert!(s.handle_price_update_at(update("binance", "BTC/USDT", "60000", "60010"), 10_000).is_none());
    let o = s.handle_price_update_at(update("okx", "BTC/USDT", "60250", "60260"), 10_000).unwrap();
    check_binance_okx(&o);
    assert_eq!(o.timestamp, 10_000);
    assert!(s.handle_price_update_at(update("binance", "BTC/USDT", "60000", "60010"), 10_500).is_none());
    assert!(s.handle_price_update_at(update("okx", "BTC/USDT", "60250", "60260"), 10_999).is_none());
}

#[test]
fn cooldown_allows_the_next_alert_after_it_passed() {
    let mut s = scanner("0.3", "10", "", "");
    s.handle_price_update_at(update("binance", "BTC/USDT", "60000", "60010"), 10_000);
    assert!(s.handle_price_update_at(update("okx", "BTC/USDT", "60250", "60260"), 10_000).is_some());
    assert!(s.handle_price_update_at(update("okx", "BTC/USDT", "60250", "60260"), 10_999).is_none());
    let again = s.handle_price_update_at(update("okx", "BTC/USDT", "60250", "60260"), 11_000).unwrap();
    assert_eq!(again.timestamp, 11_000);
}

#[test]
fn cooldown_is_kept_per_opportunity() {
    let mut s = scanner("0.3", "10", "", "");
    s.handle_price_update_at(update("binance", "BTC/USDT", "60000", "60010"), 5_000);
    assert!(s.handle_price_update_at(update("okx", "BTC/USDT", "60250", "60260"), 5_000).is_some());
    s.handle_price_update_at(update("binance", "ETH/USDT", "3000", "3001"), 5_100);
    assert!(s.handle_price_update_at(update("okx", "ETH/USDT", "3020", "3021"), 5_100).is_some());
}

#[test]
fn spread_above_maximum_is_an_anomaly() {
    let mut s = scanner("0.3", "10", "", "");
    assert!(s.handle_price_update_at(update("a", "X/USDT", "99", "100"), 5_000_000).is_none());
    assert!(s.handle_price_update_at(update("b", "X/USDT", "200", "201"), 5_000_000).is_none());
}

#[test]
fn spread_at_the_bounds_is_accepted() {
    let mut s = scanner("1", "2", "", "");
    s.handle_price_update_at(update("a", "X/USDT", "99", "100"), 5_000_000);
    let o = s.handle_price_update_at(update("b", "X/USDT", "101", "102"), 5_000_000).unwrap();
    assert_eq!(decimal(&o.spread_percent), dec("1"));
    let mut t = scanner("1", "2", "", "");
    t.handle_price_update_at(update("a", "Y/USDT", "99", "100"), 5_000_000);
    let o = t.handle_price_update_at(update("b", "Y/USDT", "102", "103"), 5_000_000).unwrap();
    assert_eq!(decimal(&o.spread_percent), dec("2"));
}

#[test]
fn same_venue_best_bid_and_ask_emit_nothing() {
    let mut s = scanner("0.3", "10", "", "");
    assert!(s.handle_price_update_at(update("binance", "BTC/USDT", "60250", "60010"), 5_000_000).is_none());
    assert!(s.handle_price_update_at(update("okx", "BTC/USDT", "60000", "60300"), 5_000_000).is_none());
}

#[test]
fn pair_filter_scans_only_matching_bases() {
    let mut s = scanner("0.3", "10", "btc", "");
    s.handle_price_update_at(update("binance", "ETH/USDT", "3000", "3001"), 5_000_000);
    assert!(s.handle_price_update_at(update("okx", "ETH/USDT", "3020", "3021"), 5_000_000).is_none());
    s.handle_price_update_at(update("binance", "BTC/USDT", "60000", "60010"), 5_000_000);
    let o = s.handle_price_update_at(update("okx", "BTC/USDT", "60250", "60260"), 5_000_000).unwrap();
    check_binance_okx(&o);
}

#[test]
fn pair_filter_matches_substrings_both_ways() {
    let mut s = scanner("0.3", "10", "BTC", "");
    s.handle_price_update_at(update("binance", "SBTC/USDT", "100", "101"), 5_000_000);
    assert!(s.handle_price_update_at(update("okx", "SBTC/USDT", "105", "106"), 5_000_000).is_some());
    let mut t = scanner("0.3", "10", "WBTC", "");
    t.handle_price_update_at(update("binance", "BTC/USDT", "60000", "60010"), 5_000_000);
    assert!(t.handle_price_update_at(update("okx", "BTC/USDT", "60250", "60260"), 5_000_000).is_some());
}

#[test]
fn exchange_filter_restricts_the_venues_compared() {
    let mut s = scanner("0.3", "10", "", "Binance, KRAKEN");
    s.handle_price_update_at(update("binance", "BTC/USDT", "60000", "60010"), 5_000_000);
    assert!(s.handle_price_update_at(update("okx", "BTC/USDT", "60250", "60260"), 5_000_000).is_none());
    let o = s.handle_price_update_at(update("kraken", "BTC/USDT", "60250", "60260"), 5_000_000).unwrap();
    assert_eq!(o.sell_exchange, "kraken");
    assert_eq!(o.buy_exchange, "binance");
}

#[test]
fn newer_update_replaces_the_older_one() {
    let mut s = scanner("0.3", "10", "", "");
    s.handle_price_update_at(update("binance", "BTC/USDT", "60000", "60010"), 5_000_000);
    s.handle_price_update_at(update("okx", "BTC/USDT", "60000", "60020"), 5_000_000);
    let o = s.handle_price_update_at(update("okx", "BTC/USDT", "60300", "60310"), 5_000_000).unwrap();
    assert_eq!(decimal(&o.sell_price), dec("60300"));
    assert_eq!(s.symbol_count(), 1);
}

#[test]
fn ties_go_to_the_first_venue_seen() {
    let mut s = scanner("0.3", "10", "", "");
    s.handle_price_update_at(update("a", "T/USDT", "99", "100"), 5_000_000);
    s.handle_price_update_at(update("b", "T/USDT", "99", "100"), 5_000_000);
    let o = s.handle_price_update_at(update("c", "T/USDT", "105", "106"), 5_000_000).unwrap();
    assert_eq!(o.buy_exchange, "a");
    assert_eq!(o.sell_exchange, "c");
}

#[test]
fn find_arbitrage_reports_the_spread_formula() {
    let s = scanner("0.3", "10", "", "");
    let row = vec![update("binance", "BTC/USDT", "60000", "60010"), update("okx", "BTC/USDT", "60250", "60260")];
    let o = s.find_arbitrage("BTC/USDT", &row, 42).unwrap();
    check_binance_okx(&o);
    assert_eq!(o.timestamp, 42);
    assert!(s.find_arbitrage("BTC/USDT", &row[..1].to_vec(), 42).is_none());
}

#[test]
fn spread_acceptance_is_inclusive() {
    let s = scanner("0.3", "10", "ETH", "");
    assert!(s.spread_accepted("ETH/USDT", &parse_or_zero("0.3")));
    assert!(s.spread_accepted("ETH/USDT", &parse_or_zero("10.00")));
    assert!(!s.spread_accepted("ETH/USDT", &parse_or_zero("0.29")));
    assert!(!s.spread_accepted("ETH/USDT", &parse_or_zero("10.01")));
    assert!(!s.spread_accepted("BTC/USDT", &parse_or_zero("1")));
}

#[test]
fn handle_price_update_reads_the_clock() {
    let mut s = scanner("0.3", "10", "", "");
    s.handle_price_update(update("binance", "BTC/USDT", "60000", "60010"));
    let o = s.handle_price_update(update("okx", "BTC/USDT", "60250", "60260")).unwrap();
    assert!(o.timestamp > 1_600_000_000_000);
}

#[test]
fn lagged_bus_resumes_with_newer_updates() {
    let (tx, mut rx) = tokio::sync::broadcast::channel::<PriceUpdate>(10_000);
    for _ in 0..20_000 {
        tx.send(update("binance", "BTC/USDT", "60000", "60010")).unwrap();
    }
    tx.send(update("okx", "BTC/USDT", "60250", "60260")).unwrap();
    let mut s = scanner("0.3", "10", "", "");
    let mut lagged = 0u64;
    let mut handled = 0u32;
    let mut found = None;
    loop {
        match rx.try_recv() {
            Ok(u) => {
                handled += 1;
                if let Some(o) = s.handle_price_update_at(u, 5_000_000) {
                    found = Some(o);
                }
            }
            Err(tokio::sync::broadcast::error::TryRecvError::Lagged(k)) => lagged += k,
            Err(_) => break,
        }
    }
    assert!(lagged > 0);
    assert_eq!(lagged + handled as u64, 20_001);
    check_binance_okx(&found.unwrap());
}
