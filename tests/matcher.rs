use arbscanner::matcher::{normalize_upper_symbol, TickerMatcher};

#[test]
fn test_normalize_symbol() {
    let matcher = TickerMatcher::new();

    assert_eq!(matcher.normalize_symbol("BTCUSDT"), "BTC/USDT");
    assert_eq!(matcher.normalize_symbol("BTC-USDT"), "BTC/USDT");
    assert_eq!(matcher.normalize_symbol("BTC_USDT"), "BTC/USDT");
    assert_eq!(matcher.normalize_symbol("BTC/USDT"), "BTC/USDT");
    assert_eq!(matcher.normalize_symbol("ETHBTC"), "ETH/BTC");
    assert_eq!(matcher.normalize_symbol("SOLUSDC"), "SOL/USDC");
}

#[test]
fn lower_case_symbols_are_upper_cased_first() {
    let matcher = TickerMatcher::new();
    assert_eq!(matcher.normalize_symbol("btcusdt"), "BTC/USDT");
    assert_eq!(matcher.normalize_symbol("eth-usdt"), "ETH/USDT");
}

#[test]
fn upper_case_normalization_rules() {
    assert_eq!(normalize_upper_symbol("BTCUSDT"), "BTC/USDT");
    assert_eq!(normalize_upper_symbol("A-B-C"), "A/B/C");
    assert_eq!(normalize_upper_symbol("A_B"), "A/B");
    assert_eq!(normalize_upper_symbol("X/Y-Z"), "X/Y-Z");
    assert_eq!(normalize_upper_symbol("BTCFDUSD"), "BTCFD/USD");
    assert_eq!(normalize_upper_symbol("USDT"), "USDT/USD");
    assert_eq!(normalize_upper_symbol("DOGEXYZ"), "DOGEXYZ/USD");
    assert_eq!(normalize_upper_symbol(""), "/USD");
    assert_eq!(normalize_upper_symbol("ADAEUR"), "ADA/EUR");
    assert_eq!(normalize_upper_symbol("XRPSOL"), "XRP/SOL");
}

#[test]
fn register_returns_the_normalized_name_and_indexes_it() {
    let mut matcher = TickerMatcher::new();
    assert_eq!(matcher.get_normalized("binance", "BTCUSDT"), None);
    assert_eq!(matcher.register("binance", "BTCUSDT"), "BTC/USDT");
    assert_eq!(matcher.get_normalized("binance", "BTCUSDT"), Some("BTC/USDT".to_string()));
    assert_eq!(matcher.get_normalized("okx", "BTCUSDT"), None);
    assert_eq!(matcher.get_exchanges_for_symbol("BTC/USDT"), vec!["binance".to_string()]);
    assert!(matcher.get_exchanges_for_symbol("ETH/USDT").is_empty());
}

#[test]
fn register_twice_is_idempotent() {
    let mut matcher = TickerMatcher::new();
    let first = matcher.register("okx", "BTC-USDT");
    let second = matcher.register("okx", "BTC-USDT");
    assert_eq!(first, second);
    assert_eq!(matcher.get_exchanges_for_symbol("BTC/USDT"), vec!["okx".to_string()]);
    assert_eq!(matcher.symbol_count(), 1);
    assert!(matcher.get_arbitrageable_symbols().is_empty());
}

#[test]
fn symbols_on_two_venues_are_arbitrageable() {
    let mut matcher = TickerMatcher::new();
    matcher.register("binance", "BTCUSDT");
    matcher.register("okx", "BTC-USDT");
    matcher.register("gate", "ETH_USDT");
    matcher.register("kraken", "BTC/USDT");
    assert_eq!(
        matcher.get_exchanges_for_symbol("BTC/USDT"),
        vec!["binance".to_string(), "okx".to_string(), "kraken".to_string()]
    );
    assert_eq!(matcher.get_arbitrageable_symbols(), vec!["BTC/USDT".to_string()]);
    assert_eq!(matcher.symbol_count(), 2);
}
