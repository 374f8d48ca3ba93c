//! The update that every venue adapter publishes, and the conversion from a
//! decoded venue ticker to that update.
use vstd::prelude::*;
use crate::decimal::{checked_add, checked_div, decimal_of_text, decimal_quotient, decimal_sum, parse_decimal, Dec};
use crate::config::{split_at_char, split_text};
use crate::matcher::{normalized_name, register_symbols, register_venues, TickerMatcher};
use crate::text::{str_eq, to_upper, upper_of};

verus! {

/// Top of book of one symbol on one exchange.
#[derive(Clone, Debug)]
pub struct PriceUpdate {
    /// Short lower-case venue id.
    pub exchange: String,
    /// Canonical `BASE/QUOTE` name.
    pub symbol: String,
    /// The symbol as the venue sent it.
    pub raw_symbol: String,
    pub bid: Dec,
    pub ask: Dec,
    pub bid_size: Dec,
    pub ask_size: Dec,
    /// Milliseconds since the epoch.
    pub timestamp: i64,
}

impl PriceUpdate {
    /// Representable decimals, and both sides of the book positive.
    pub open spec fn wf(&self) -> bool {
        &&& self.bid.mantissa > 0
        &&& self.ask.mantissa > 0
        &&& self.bid.wf()
        &&& self.ask.wf()
        &&& self.bid_size.wf()
        &&& self.ask_size.wf()
    }

    /// `(bid + ask) / 2`; `None` where the sum or the quotient overflows.
    pub fn mid_price(&self) -> (r: Option<Dec>)
        requires
            self.wf(),
        ensures
            r == match decimal_sum(self.bid, self.ask) {
                Some(sum) => decimal_quotient(sum, Dec { mantissa: 2, scale: 0 }),
                None => None,
            },
    {
        let two = Dec::from_u32(2);
        match checked_add(&self.bid, &self.ask) {
            Some(sum) => checked_div(&sum, &two),
            None => None,
        }
    }

    /// A copy of this update.
    pub fn duplicate(&self) -> (r: PriceUpdate)
        ensures
            r == *self,
    {
        PriceUpdate {
            exchange: self.exchange.clone(),
            symbol: self.symbol.clone(),
            raw_symbol: self.raw_symbol.clone(),
            bid: self.bid,
            ask: self.ask,
            bid_size: self.bid_size,
            ask_size: self.ask_size,
            timestamp: self.timestamp,
        }
    }
}

/// The value of a quoted field: what its text parses to, and zero where the
/// field is missing or does not parse.
pub open spec fn quoted_value(text: Option<Seq<char>>) -> Dec {
    match text {
        Some(s) => match decimal_of_text(s) {
            Some(d) => d,
            None => Dec { mantissa: 0, scale: 0 },
        },
        None => Dec { mantissa: 0, scale: 0 },
    }
}

pub open spec fn text_view(text: Option<&str>) -> Option<Seq<char>> {
    match text {
        Some(s) => Some(s@),
        None => None,
    }
}

fn field_value(text: Option<&str>) -> (r: Dec)
    ensures
        r == quoted_value(text_view(text)),
        r.wf(),
{
    match text {
        Some(s) => match parse_decimal(s) {
            Some(d) => d,
            None => Dec::zero(),
        },
        None => Dec::zero(),
    }
}

/// How an adapter finds the canonical name of a ticker's symbol.
#[derive(Clone, Copy, Debug, PartialEq, Eq)]
pub enum SymbolResolution {
    /// Registers the symbol, which then always resolves.
    Register,
    /// Looks up a symbol registered when subscribing; an unknown symbol is dropped.
    LookUp,
}

/// The ticker fields of one venue message, as texts.
pub struct QuoteFields<'a> {
    pub raw_symbol: &'a str,
    pub bid: Option<&'a str>,
    pub ask: Option<&'a str>,
    pub bid_size: Option<&'a str>,
    pub ask_size: Option<&'a str>,
}

/// A ticker is dropped when either side is not positive (missing and
/// unreadable prices count as zero), or when its symbol was looked up and is unknown.
pub open spec fn quote_dropped(
    symbols: Map<(Seq<char>, Seq<char>), Seq<char>>,
    exchange: Seq<char>,
    fields: QuoteFields,
    resolution: SymbolResolution,
) -> bool {
    ||| quoted_value(text_view(fields.bid)).mantissa <= 0
    ||| quoted_value(text_view(fields.ask)).mantissa <= 0
    ||| (resolution == SymbolResolution::LookUp && !symbols.contains_key(
        (exchange, fields.raw_symbol@),
    ))
}

/// Relies on `chrono::Utc::now`: the current time in milliseconds; nothing is known of its value.
#[verifier::external_body]
pub(crate) fn utc_now_millis() -> (r: i64) {
    chrono::Utc::now().timestamp_millis()
}

/// Turns one decoded venue ticker into a `PriceUpdate` for the bus.
///
/// `timestamp` is the venue's time where it sends one; without it the local
/// clock is read.
pub fn quote_update(
    matcher: &mut TickerMatcher,
    exchange: &str,
    fields: &QuoteFields,
    resolution: SymbolResolution,
    timestamp: Option<i64>,
) -> (r: Option<PriceUpdate>)
    requires
        old(matcher).wf(),
    ensures
        final(matcher).wf(),
        r is None == quote_dropped(old(matcher).symbols(), exchange@, *fields, resolution),
        r matches Some(u) ==> {
            &&& u.wf()
            &&& u.exchange@ == exchange@
            &&& u.raw_symbol@ == fields.raw_symbol@
            &&& u.symbol@ == normalized_name(fields.raw_symbol@)
            &&& u.bid == quoted_value(text_view(fields.bid))
            &&& u.ask == quoted_value(text_view(fields.ask))
            &&& u.bid_size == quoted_value(text_view(fields.bid_size))
            &&& u.ask_size == quoted_value(text_view(fields.ask_size))
            &&& u.bid.mantissa > 0 && u.ask.mantissa > 0
            &&& (timestamp matches Some(t) ==> u.timestamp == t)
        },
        (r is Some && resolution == SymbolResolution::Register) ==> {
            &&& final(matcher).symbols() == register_symbols(
                old(matcher).symbols(),
                exchange@,
                fields.raw_symbol@,
            )
            &&& final(matcher).venues() == register_venues(
                old(matcher).venues(),
                exchange@,
                fields.raw_symbol@,
            )
        },
        (r is None || resolution == SymbolResolution::LookUp) ==> {
            &&& final(matcher).symbols() == old(matcher).symbols()
            &&& final(matcher).venues() == old(matcher).venues()
        },
{
    let bid = field_value(fields.bid);
    let ask = field_value(fields.ask);
    if bid.mantissa <= 0 || ask.mantissa <= 0 {
        return None;
    }
    let symbol = match resolution {
        SymbolResolution::Register => matcher.register(exchange, fields.raw_symbol),
        SymbolResolution::LookUp => match matcher.get_normalized(exchange, fields.raw_symbol) {
            Some(n) => n,
            None => {
                return None;
            },
        },
    };
    let at = match timestamp {
        Some(t) => t,
        None => utc_now_millis(),
    };
    Some(
        PriceUpdate {
            exchange: String::from_str(exchange),
            symbol,
            raw_symbol: String::from_str(fields.raw_symbol),
            bid,
            ask,
            bid_size: field_value(fields.bid_size),
            ask_size: field_value(fields.ask_size),
            timestamp: at,
        },
    )
}

/// A venue connector.
pub trait Exchange {
    fn name(&self) -> &'static str;

    fn ws_url(&self) -> &str;
}

/// What `flate2`'s gzip decoder reads from a frame as text; `None` where the
/// frame is not gzip or not UTF-8.
pub uninterp spec fn gunzipped_text(frame: Seq<u8>) -> Option<Seq<char>>;

/// Relies on `flate2::read::GzDecoder` with `Read::read_to_string`: the
/// inflated text of a gzip frame.
#[verifier::external_body]
fn gunzip_to_text(frame: &[u8]) -> (r: Option<String>)
    ensures
        r is Some == gunzipped_text(frame@) is Some,
        r matches Some(t) ==> gunzipped_text(frame@) == Some(t@),
{
    let mut text = String::new();
    match std::io::Read::read_to_string(&mut flate2::read::GzDecoder::new(frame), &mut text) {
        Ok(_) => Some(text),
        Err(_) => None,
    }
}

/// The text of a compressed HTX frame; a frame that does not inflate is skipped.
pub fn inflate_frame(frame: &Vec<u8>) -> (r: Option<String>)
    ensures
        r is Some == gunzipped_text(frame@) is Some,
        r matches Some(t) ==> gunzipped_text(frame@) == Some(t@),
{
    gunzip_to_text(frame.as_slice())
}

/// The symbol of an HTX channel `market.<symbol>.bbo`: its second dot-separated
/// part, upper-cased; `None` for a channel with fewer than two parts.
pub fn htx_channel_symbol(channel: &str) -> (r: Option<String>)
    ensures
        r is Some == (split_at_char(channel@, '.').len() >= 2),
        r matches Some(s) ==> s@ == upper_of(split_at_char(channel@, '.')[1]),
{
    let parts = split_text(channel, '.');
    if parts.len() >= 2 {
        assert(parts.deep_view()[1] == parts@[1]@);
        Some(to_upper(parts[1].as_str()))
    } else {
        None
    }
}

/// The last part of a topic after `sep`, as KuCoin's `/market/ticker:BTC-USDT`
/// and MEXC's `spot@public.bookTicker.v3.api@BTCUSDT` carry their symbols.
pub fn topic_symbol(topic: &str, sep: char) -> (r: String)
    ensures
        r@ == split_at_char(topic@, sep).last(),
{
    let parts = split_text(topic, sep);
    proof {
        crate::config::lemma_split_nonempty(topic@, sep);
    }
    let last = parts.len() - 1;
    assert(parts.deep_view()[last as int] == parts@[last as int]@);
    parts[last].clone()
}

/// One instrument of a venue's listing.
pub struct Listing {
    pub symbol: String,
    pub status: String,
    pub quote: String,
}

/// The listing is in `status` and quoted in one of `quotes`.
pub open spec fn listing_wanted(l: Listing, status: Seq<char>, quotes: Seq<Seq<char>>) -> bool {
    l.status@ == status && quotes.contains(l.quote@)
}

/// The symbols of the wanted listings among the first `n`, in order.
pub open spec fn wanted_symbols(listings: Seq<Listing>, status: Seq<char>, quotes: Seq<Seq<char>>, n: int) -> Seq<Seq<char>>
    decreases n,
{
    if n <= 0 {
        Seq::empty()
    } else if listing_wanted(listings[n - 1], status, quotes) {
        wanted_symbols(listings, status, quotes, n - 1).push(listings[n - 1].symbol@)
    } else {
        wanted_symbols(listings, status, quotes, n - 1)
    }
}

proof fn lemma_wanted_grows(listings: Seq<Listing>, status: Seq<char>, quotes: Seq<Seq<char>>, n: int, m: int)
    requires
        0 <= n <= m,
    ensures
        wanted_symbols(listings, status, quotes, n).len() <= wanted_symbols(listings, status, quotes, m).len(),
        wanted_symbols(listings, status, quotes, m).subrange(0, wanted_symbols(listings, status, quotes, n).len() as int)
            == wanted_symbols(listings, status, quotes, n),
    decreases m - n,
{
    if n < m {
        lemma_wanted_grows(listings, status, quotes, n, m - 1);
        let a = wanted_symbols(listings, status, quotes, n);
        let b = wanted_symbols(listings, status, quotes, m - 1);
        let c = wanted_symbols(listings, status, quotes, m);
        if listing_wanted(listings[m - 1], status, quotes) {
            assert(c.subrange(0, a.len() as int) =~= b.subrange(0, a.len() as int));
        }
    } else {
        assert(wanted_symbols(listings, status, quotes, n).subrange(0, wanted_symbols(listings, status, quotes, n).len() as int)
            =~= wanted_symbols(listings, status, quotes, n));
    }
}

fn quote_listed(quotes: &Vec<String>, quote: &str) -> (r: bool)
    ensures
        r == quotes.deep_view().contains(quote@),
{
    let mut i: usize = 0;
    while i < quotes.len()
        invariant
            i <= quotes@.len(),
            forall|k: int| 0 <= k < i ==> quotes@[k]@ != quote@,
        decreases quotes@.len() - i,
    {
        if str_eq(quotes[i].as_str(), quote) {
            assert(quotes.deep_view()[i as int] == quote@);
            return true;
        }
        i = i + 1;
    }
    assert forall|k: int| 0 <= k < quotes.deep_view().len() implies quotes.deep_view()[k] != quote@ by {
        assert(quotes.deep_view()[k] == quotes@[k]@);
    }
    false
}

/// The first `limit` symbols of a venue's listing that are in `status` and
/// quoted in one of `quotes`, in listing order.
pub fn tradable_symbols(listings: &Vec<Listing>, status: &str, quotes: &Vec<String>, limit: usize) -> (r: Vec<String>)
    ensures
        r.deep_view() == {
            let all = wanted_symbols(listings@, status@, quotes.deep_view(), listings@.len() as int);
            if all.len() <= limit {
                all
            } else {
                all.subrange(0, limit as int)
            }
        },
{
    let ghost qs = quotes.deep_view();
    let ghost all = wanted_symbols(listings@, status@, qs, listings@.len() as int);
    let mut out: Vec<String> = Vec::new();
    let mut i: usize = 0;
    while i < listings.len() && out.len() < limit
        invariant
            i <= listings@.len(),
            qs == quotes.deep_view(),
            all == wanted_symbols(listings@, status@, qs, listings@.len() as int),
            out.deep_view() == wanted_symbols(listings@, status@, qs, i as int),
            out@.len() <= limit,
        decreases listings@.len() - i,
    {
        let l = &listings[i];
        if str_eq(l.status.as_str(), status) && quote_listed(quotes, l.quote.as_str()) {
            let ghost before = out.deep_view();
            out.push(l.symbol.clone());
            assert(out.deep_view() =~= before.push(listings@[i as int].symbol@));
        }
        i = i + 1;
    }
    proof {
        lemma_wanted_grows(listings@, status@, qs, i as int, listings@.len() as int);
        if out@.len() < limit {
            assert(i == listings@.len());
        }
    }
    out
}

} // verus!
