//! How an opportunity is presented to the callback's receiver.
use vstd::prelude::*;
use crate::text::{char_to_upper, char_upper_of, lower_of, str_eq, to_lower};

verus! {

/// The key under which every opportunity is sent.
pub const CALLBACK_KEY: &'static str = "act:arbitrage-spread";

/// The name under which a venue is shown: the fixed name of a known venue
/// (matched in lower case), otherwise the id with its first character upper-cased.
pub open spec fn display_name(s: Seq<char>) -> Seq<char> {
    let l = lower_of(s);
    if l == "binance"@ {
        "Binance"@
    } else if l == "bybit"@ {
        "Bybit"@
    } else if l == "okx"@ {
        "OKX"@
    } else if l == "kraken"@ {
        "Kraken"@
    } else if l == "kucoin"@ {
        "KuCoin"@
    } else if l == "gate"@ {
        "Gate.io"@
    } else if l == "mexc"@ {
        "MEXC"@
    } else if l == "htx"@ {
        "HTX"@
    } else if l == "bitget"@ {
        "Bitget"@
    } else if l == "coinbase"@ {
        "Coinbase"@
    } else if s.len() == 0 {
        Seq::empty()
    } else {
        char_upper_of(s[0]) + s.drop_first()
    }
}

/// The display name of a venue id.
pub fn capitalize(s: &str) -> (r: String)
    ensures
        r@ == display_name(s@),
{
    let l = to_lower(s);
    let l = l.as_str();
    if str_eq(l, "binance") {
        String::from_str("Binance")
    } else if str_eq(l, "bybit") {
        String::from_str("Bybit")
    } else if str_eq(l, "okx") {
        String::from_str("OKX")
    } else if str_eq(l, "kraken") {
        String::from_str("Kraken")
    } else if str_eq(l, "kucoin") {
        String::from_str("KuCoin")
    } else if str_eq(l, "gate") {
        String::from_str("Gate.io")
    } else if str_eq(l, "mexc") {
        String::from_str("MEXC")
    } else if str_eq(l, "htx") {
        String::from_str("HTX")
    } else if str_eq(l, "bitget") {
        String::from_str("Bitget")
    } else if str_eq(l, "coinbase") {
        String::from_str("Coinbase")
    } else {
        let n = s.unicode_len();
        if n == 0 {
            String::new()
        } else {
            let first = char_to_upper(s.get_char(0));
            let rest = s.substring_char(1, n);
            assert(rest@ =~= s@.drop_first());
            first.concat(rest)
        }
    }
}

} // verus!
