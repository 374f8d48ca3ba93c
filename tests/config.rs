use arbscanner::config::{parse_list, Config, ConfigError, ConfigValues};
use arbscanner::decimal::parse_or_zero;

fn empty() -> ConfigValues<'static> {
    ConfigValues {
        min_spread_percent: None,
        max_spread_percent: None,
        cooldown_ms: None,
        callback_url: None,
        filter_pairs: None,
        filter_exchanges: None,
        enabled_exchanges: None,
        orderbook_depth: None,
    }
}

#[test]
fn defaults_apply_when_nothing_is_set() {
    let c = Config::from_values(&empty()).unwrap();
    assert_eq!((c.min_spread_percent.mantissa, c.min_spread_percent.scale), (8, 1));
    assert_eq!((c.max_spread_percent.mantissa, c.max_spread_percent.scale), (100, 1));
    assert_eq!(c.cooldown_ms, 1000);
    assert_eq!(c.callback_url, "http://192.168.1.223:82/api/datastudio/trigger");
    assert!(c.filter_pairs.is_empty());
    assert!(c.filter_exchanges.is_empty());
    assert_eq!(c.enabled_exchanges.len(), 10);
    assert_eq!(c.enabled_exchanges[0], "binance");
    assert_eq!(c.enabled_exchanges[9], "coinbase");
    assert_eq!(c.orderbook_depth, 5);
    assert!(c.is_exchange_enabled("HTX"));
    assert!(!c.is_exchange_enabled("ftx"));
}

#[test]
fn malformed_numbers_fail() {
    let mut v = empty();
    v.min_spread_percent = Some("abc");
    assert_eq!(Config::from_values(&v).unwrap_err(), ConfigError::InvalidMinSpread);
    let mut v = empty();
    v.max_spread_percent = Some("");
    assert_eq!(Config::from_values(&v).unwrap_err(), ConfigError::InvalidMaxSpread);
    let mut v = empty();
    v.cooldown_ms = Some("-5");
    assert_eq!(Config::from_values(&v).unwrap_err(), ConfigError::InvalidCooldown);
}

#[test]
fn malformed_depth_fails() {
    let mut v = empty();
    v.orderbook_depth = Some("many");
    assert_eq!(Config::from_values(&v).unwrap_err(), ConfigError::InvalidDepth);
    v.orderbook_depth = Some("12");
    assert_eq!(Config::from_values(&v).unwrap().orderbook_depth, 12);
}

#[test]
fn lists_are_trimmed_case_mapped_and_skip_empties() {
    assert_eq!(parse_list(" btc, eth ,,sol ", true), vec!["BTC", "ETH", "SOL"]);
    assert_eq!(parse_list("OKX,Gate", false), vec!["okx", "gate"]);
    assert!(parse_list("", true).is_empty());
    assert!(parse_list(" , ", false).is_empty());
}

#[test]
fn enabled_list_is_read_in_lower_case() {
    let mut v = empty();
    v.enabled_exchanges = Some("Binance,OKX");
    let c = Config::from_values(&v).unwrap();
    assert!(c.is_exchange_enabled("binance"));
    assert!(c.is_exchange_enabled("okx"));
    assert!(!c.is_exchange_enabled("gate"));
}

#[test]
fn filters_of_pairs_and_exchanges() {
    let mut v = empty();
    v.filter_pairs = Some("btc");
    v.filter_exchanges = Some("OKX");
    let c = Config::from_values(&v).unwrap();
    assert!(c.passes_pair_filter("BTC/USDT"));
    assert!(c.passes_pair_filter("WBTC/USDT"));
    assert!(c.passes_pair_filter("BT/USDT"));
    assert!(!c.passes_pair_filter("ETH/USDT"));
    assert!(c.allows_exchange("okx"));
    assert!(c.allows_exchange("OKX"));
    assert!(!c.allows_exchange("binance"));
    let open = Config::from_values(&empty()).unwrap();
    assert!(open.passes_pair_filter("ANY/USDT"));
    assert!(open.allows_exchange("anything"));
}

#[test]
fn decimal_texts_parse_or_count_as_zero() {
    let d = parse_or_zero("60000.50");
    assert_eq!((d.mantissa, d.scale), (6000050, 2));
    let z = parse_or_zero("n/a");
    assert_eq!((z.mantissa, z.scale), (0, 0));
    assert!(parse_or_zero("1").less_than(&parse_or_zero("1.0001")));
    assert!(!parse_or_zero("2.0").less_than(&parse_or_zero("2")));
}
