use std::io::Write;

use arbscanner::decimal::parse_or_zero;
use arbscanner::exchanges::{
    htx_channel_symbol, inflate_frame, quote_update, topic_symbol, PriceUpdate, QuoteFields,
    SymbolResolution,
};
use arbscanner::matcher::TickerMatcher;
use arbscanner::notifier::{capitalize, CALLBACK_KEY};

fn fields<'a>(raw: &'a str, bid: Option<&'a str>, ask: Option<&'a str>) -> QuoteFields<'a> {
    QuoteFields { raw_symbol: raw, bid, ask, bid_size: Some("1.5"), ask_size: None }
}

#[test]
fn registered_quote_becomes_an_update() {
    let mut m = TickerMatcher::new();
    let u = quote_update(&mut m, "bybit", &fields("BTCUSDT", Some("60000.1"), Some("60000.2")), SymbolResolution::Register, Some(7))
        .unwrap();
    assert_eq!(u.exchange, "bybit");
    assert_eq!(u.symbol, "BTC/USDT");
    assert_eq!(u.raw_symbol, "BTCUSDT");
    assert_eq!((u.bid.mantissa, u.bid.scale), (600001, 1));
    assert_eq!((u.ask.mantissa, u.ask.scale), (600002, 1));
    assert_eq!((u.bid_size.mantissa, u.bid_size.scale), (15, 1));
    assert_eq!(u.ask_size.mantissa, 0);
    assert_eq!(u.timestamp, 7);
    assert_eq!(m.get_normalized("bybit", "BTCUSDT"), Some("BTC/USDT".to_string()));
}

#[test]
fn zero_or_missing_sides_are_dropped() {
    let mut m = TickerMatcher::new();
    assert!(quote_update(&mut m, "okx", &fields("BTC-USDT", Some("0"), Some("1")), SymbolResolution::Register, None).is_none());
    assert!(quote_update(&mut m, "okx", &fields("BTC-USDT", Some("1"), Some("0.000")), SymbolResolution::Register, None).is_none());
    assert!(quote_update(&mut m, "okx", &fields("BTC-USDT", None, Some("1")), SymbolResolution::Register, None).is_none());
    assert!(quote_update(&mut m, "okx", &fields("BTC-USDT", Some("x"), Some("1")), SymbolResolution::Register, None).is_none());
    assert!(quote_update(&mut m, "okx", &fields("BTC-USDT", Some("-1"), Some("1")), SymbolResolution::Register, None).is_none());
    assert!(quote_update(&mut m, "okx", &fields("BTC-USDT", Some("1"), Some("-0.5")), SymbolResolution::Register, None).is_none());
    assert_eq!(m.get_normalized("okx", "BTC-USDT"), None);
}

#[test]
fn looked_up_symbols_must_be_registered() {
    let mut m = TickerMatcher::new();
    assert!(quote_update(&mut m, "mexc", &fields("ETHUSDT", Some("1"), Some("2")), SymbolResolution::LookUp, None).is_none());
    m.register("mexc", "ETHUSDT");
    let u = quote_update(&mut m, "mexc", &fields("ETHUSDT", Some("1"), Some("2")), SymbolResolution::LookUp, None).unwrap();
    assert_eq!(u.symbol, "ETH/USDT");
    assert!(u.timestamp > 1_600_000_000_000);
}

#[test]
fn mid_price_is_the_average() {
    let u = PriceUpdate {
        exchange: "a".to_string(),
        symbol: "X/Y".to_string(),
        raw_symbol: "XY".to_string(),
        bid: parse_or_zero("100"),
        ask: parse_or_zero("101"),
        bid_size: parse_or_zero("0"),
        ask_size: parse_or_zero("0"),
        timestamp: 0,
    };
    let m = u.mid_price().unwrap();
    assert_eq!(rust_decimal::Decimal::from_i128_with_scale(m.mantissa, m.scale), rust_decimal::Decimal::new(1005, 1));
}

#[test]
fn channel_and_topic_symbols() {
    assert_eq!(htx_channel_symbol("market.btcusdt.bbo"), Some("BTCUSDT".to_string()));
    assert_eq!(htx_channel_symbol("market"), None);
    assert_eq!(topic_symbol("/market/ticker:BTC-USDT", ':'), "BTC-USDT");
    assert_eq!(topic_symbol("spot@public.bookTicker.v3.api@BTCUSDT", '@'), "BTCUSDT");
    assert_eq!(topic_symbol("plain", ':'), "plain");
}

#[test]
fn gzip_frames_inflate() {
    let mut enc = flate2::write::GzEncoder::new(Vec::new(), flate2::Compression::default());
    enc.write_all(b"{\"ping\":1}").unwrap();
    let frame = enc.finish().unwrap();
    assert_eq!(inflate_frame(&frame), Some("{\"ping\":1}".to_string()));
    assert_eq!(inflate_frame(&vec![1, 2, 3]), None);
}

#[test]
fn venue_display_names() {
    assert_eq!(capitalize("okx"), "OKX");
    assert_eq!(capitalize("gate"), "Gate.io");
    assert_eq!(capitalize("KuCoin"), "KuCoin");
    assert_eq!(capitalize("coinbase"), "Coinbase");
    assert_eq!(capitalize("binance"), "Binance");
    assert_eq!(capitalize("bitfinex"), "Bitfinex");
    assert_eq!(capitalize(""), "");
    assert_eq!(CALLBACK_KEY, "act:arbitrage-spread");
}
