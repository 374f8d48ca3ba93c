//! Scanner configuration, built from the texts of its settings.
use vstd::prelude::*;
use crate::decimal::{decimal_of_text, parse_decimal, Dec};
use crate::text::{
    is_infix, lower_of, push_char, str_contains, str_eq, to_lower, to_upper, trim, trimmed,
    upper_of,
};

verus! {

/// What `str::parse::<u64>` returns for a text.
pub uninterp spec fn u64_of_text(s: Seq<char>) -> Option<u64>;

/// What `str::parse::<usize>` returns for a text.
pub uninterp spec fn usize_of_text(s: Seq<char>) -> Option<usize>;

/// Relies on `str::parse::<u64>`: the result depends on the characters alone.
#[verifier::external_body]
fn parse_u64(s: &str) -> (r: Option<u64>)
    ensures
        r == u64_of_text(s@),
{
    s.parse::<u64>().ok()
}

/// Relies on `str::parse::<usize>`: the result depends on the characters alone.
#[verifier::external_body]
fn parse_usize(s: &str) -> (r: Option<usize>)
    ensures
        r == usize_of_text(s@),
{
    s.parse::<usize>().ok()
}

/// Default of the minimum spread, in percent.
pub const DEFAULT_MIN_SPREAD: &'static str = "0.8";

/// Default of the maximum spread, in percent.
pub const DEFAULT_MAX_SPREAD: &'static str = "10.0";

/// Default cooldown between two alerts on one opportunity, in milliseconds.
pub const DEFAULT_COOLDOWN: &'static str = "1000";

/// Default callback address.
pub const DEFAULT_CALLBACK_URL: &'static str = "http://192.168.1.223:82/api/datastudio/trigger";

/// Default list of enabled exchanges.
pub const DEFAULT_EXCHANGES: &'static str = "binance,bybit,okx,kraken,kucoin,gate,mexc,htx,bitget,coinbase";

/// Default order book depth.
pub const DEFAULT_DEPTH: usize = 5;

/// A setting that could not be read.
#[derive(Clone, Copy, Debug, PartialEq, Eq)]
pub enum ConfigError {
    InvalidMinSpread,
    InvalidMaxSpread,
    InvalidCooldown,
    InvalidDepth,
}

/// The texts of the settings; `None` where a setting is not given.
pub struct ConfigValues<'a> {
    pub min_spread_percent: Option<&'a str>,
    pub max_spread_percent: Option<&'a str>,
    pub cooldown_ms: Option<&'a str>,
    pub callback_url: Option<&'a str>,
    pub filter_pairs: Option<&'a str>,
    pub filter_exchanges: Option<&'a str>,
    pub enabled_exchanges: Option<&'a str>,
    pub orderbook_depth: Option<&'a str>,
}

#[derive(Clone, Debug)]
pub struct Config {
    /// Smallest spread, in percent, that is reported (inclusive).
    pub min_spread_percent: Dec,
    /// Largest spread, in percent, that is reported (inclusive); larger ones are anomalies.
    pub max_spread_percent: Dec,
    /// Least time between two alerts on one opportunity, in milliseconds.
    pub cooldown_ms: u64,
    pub callback_url: String,
    /// Base assets to scan; empty scans all.
    pub filter_pairs: Vec<String>,
    /// Exchanges whose prices are compared; empty compares all.
    pub filter_exchanges: Vec<String>,
    /// Exchanges whose adapters run.
    pub enabled_exchanges: Vec<String>,
    /// Reserved: the scanner reads the top of the book only.
    pub orderbook_depth: usize,
}

/// The parts of `s` between occurrences of `sep`, in order (an empty text is one empty part).
pub open spec fn split_at_char(s: Seq<char>, sep: char) -> Seq<Seq<char>>
    decreases s.len(),
{
    if s.len() == 0 {
        seq![Seq::empty()]
    } else {
        let prev = split_at_char(s.drop_last(), sep);
        if s.last() == sep {
            prev.push(Seq::empty())
        } else {
            prev.update(prev.len() - 1, prev.last().push(s.last()))
        }
    }
}

pub proof fn lemma_split_nonempty(s: Seq<char>, sep: char)
    ensures
        split_at_char(s, sep).len() >= 1,
    decreases s.len(),
{
    if s.len() > 0 {
        lemma_split_nonempty(s.drop_last(), sep);
    }
}

pub open spec fn case_of(s: Seq<char>, upper: bool) -> Seq<char> {
    if upper {
        upper_of(s)
    } else {
        lower_of(s)
    }
}

/// Each part trimmed and case-mapped, the empty ones left out.
pub open spec fn clean_items(parts: Seq<Seq<char>>, upper: bool) -> Seq<Seq<char>>
    decreases parts.len(),
{
    if parts.len() == 0 {
        Seq::empty()
    } else {
        let prev = clean_items(parts.drop_last(), upper);
        let item = case_of(trimmed(parts.last()), upper);
        if item.len() > 0 {
            prev.push(item)
        } else {
            prev
        }
    }
}

/// The items of a comma-separated setting.
pub open spec fn list_setting(s: Seq<char>, upper: bool) -> Seq<Seq<char>> {
    clean_items(split_at_char(s, ','), upper)
}

/// The parts of a text between occurrences of `sep`, as `str::split` gives them.
pub fn split_text(s: &str, sep: char) -> (r: Vec<String>)
    ensures
        r.deep_view() == split_at_char(s@, sep),
{
    let n = s.unicode_len();
    let mut parts: Vec<String> = Vec::new();
    let mut current = String::new();
    let mut i: usize = 0;
    while i < n
        invariant
            n == s@.len(),
            i <= n,
            parts.deep_view().push(current@) == split_at_char(s@.subrange(0, i as int), sep),
        decreases n - i,
    {
        let c = s.get_char(i);
        let ghost before = parts.deep_view().push(current@);
        proof {
            lemma_split_nonempty(s@.subrange(0, i as int), sep);
            assert(s@.subrange(0, i + 1).drop_last() == s@.subrange(0, i as int));
        }
        if c == sep {
            parts.push(current);
            current = String::new();
            assert(parts.deep_view().push(current@) =~= before.push(Seq::empty()));
        } else {
            let ghost pv = parts.deep_view();
            push_char(&mut current, c);
            assert(parts.deep_view().push(current@) =~= before.update(
                before.len() - 1,
                before.last().push(c),
            ));
        }
        i = i + 1;
    }
    assert(s@.subrange(0, n as int) == s@);
    parts.push(current);
    parts
}

/// The items of a comma-separated setting: trimmed, upper- or lower-cased,
/// and without the empty ones.
pub fn parse_list(s: &str, upper: bool) -> (r: Vec<String>)
    ensures
        r.deep_view() == list_setting(s@, upper),
{
    let parts = split_text(s, ',');
    let mut out: Vec<String> = Vec::new();
    let mut i: usize = 0;
    while i < parts.len()
        invariant
            i <= parts.len(),
            parts.deep_view() == split_at_char(s@, ','),
            out.deep_view() == clean_items(parts.deep_view().subrange(0, i as int), upper),
        decreases parts.len() - i,
    {
        let t = trim(parts[i].as_str());
        let item = if upper {
            to_upper(t)
        } else {
            to_lower(t)
        };
        let ghost pv = parts.deep_view();
        proof {
            assert(pv.subrange(0, i + 1).drop_last() == pv.subrange(0, i as int));
            assert(pv.subrange(0, i + 1).last() == parts@[i as int]@);
        }
        if item.unicode_len() > 0 {
            let ghost before = out.deep_view();
            out.push(item);
            assert(out.deep_view() =~= before.push(item@));
        }
        i = i + 1;
    }
    assert(parts.deep_view().subrange(0, parts.len() as int) == parts.deep_view());
    out
}

/// `text` where it is given, else `default`.
pub open spec fn given_or(text: Option<&str>, default: Seq<char>) -> Seq<char> {
    match text {
        Some(s) => s@,
        None => default,
    }
}

fn text_or<'a>(text: Option<&'a str>, default: &'a str) -> (r: &'a str)
    ensures
        r@ == given_or(text, default@),
{
    match text {
        Some(s) => s,
        None => default,
    }
}

/// The text before the first `/` of a symbol (all of it without one).
pub open spec fn base_asset(s: Seq<char>) -> Seq<char>
    decreases s.len(),
{
    if s.len() == 0 || s[0] == '/' {
        Seq::empty()
    } else {
        seq![s[0]] + base_asset(s.drop_first())
    }
}

proof fn lemma_base_asset(s: Seq<char>, i: int)
    requires
        0 <= i <= s.len(),
        forall|k: int| 0 <= k < i ==> s[k] != '/',
        i == s.len() || s[i] == '/',
    ensures
        base_asset(s) == s.subrange(0, i),
    decreases i,
{
    if i > 0 {
        lemma_base_asset(s.drop_first(), i - 1);
        assert(seq![s[0]] + s.drop_first().subrange(0, i - 1) =~= s.subrange(0, i));
    } else {
        assert(s.subrange(0, 0) =~= Seq::<char>::empty());
    }
}

fn base_of(symbol: &str) -> (r: &str)
    ensures
        r@ == base_asset(symbol@),
{
    let n = symbol.unicode_len();
    let mut i: usize = 0;
    while i < n
        invariant
            n == symbol@.len(),
            i <= n,
            forall|k: int| 0 <= k < i ==> symbol@[k] != '/',
        ensures
            i == n || symbol@[i as int] == '/',
        decreases n - i,
    {
        if symbol.get_char(i) == '/' {
            break;
        }
        i = i + 1;
    }
    proof {
        lemma_base_asset(symbol@, i as int);
    }
    symbol.substring_char(0, i)
}

/// The order book depth: the default where the setting is not given, and
/// what the given text parses to otherwise (`None` where it does not parse).
pub open spec fn depth_setting(text: Option<&str>) -> Option<usize> {
    match text {
        Some(s) => usize_of_text(s@),
        None => Some(DEFAULT_DEPTH),
    }
}

impl Config {
    /// Builds the configuration from the texts of the settings, with the
    /// defaults for those not given. Every numeric setting that is given
    /// must parse.
    pub fn from_values(values: &ConfigValues) -> (r: Result<Config, ConfigError>)
        ensures
            r matches Err(e) ==> {
                ||| (e == ConfigError::InvalidMinSpread && decimal_of_text(
                    given_or(values.min_spread_percent, DEFAULT_MIN_SPREAD@),
                ) is None)
                ||| (e == ConfigError::InvalidMaxSpread && decimal_of_text(
                    given_or(values.min_spread_percent, DEFAULT_MIN_SPREAD@),
                ) is Some && decimal_of_text(
                    given_or(values.max_spread_percent, DEFAULT_MAX_SPREAD@),
                ) is None)
                ||| (e == ConfigError::InvalidCooldown && decimal_of_text(
                    given_or(values.min_spread_percent, DEFAULT_MIN_SPREAD@),
                ) is Some && decimal_of_text(
                    given_or(values.max_spread_percent, DEFAULT_MAX_SPREAD@),
                ) is Some && u64_of_text(given_or(values.cooldown_ms, DEFAULT_COOLDOWN@)) is None)
                ||| (e == ConfigError::InvalidDepth && decimal_of_text(
                    given_or(values.min_spread_percent, DEFAULT_MIN_SPREAD@),
                ) is Some && decimal_of_text(
                    given_or(values.max_spread_percent, DEFAULT_MAX_SPREAD@),
                ) is Some && u64_of_text(given_or(values.cooldown_ms, DEFAULT_COOLDOWN@)) is Some
                    && depth_setting(values.orderbook_depth) is None)
            },
            r is Ok == (decimal_of_text(given_or(values.min_spread_percent, DEFAULT_MIN_SPREAD@)) is Some
                && decimal_of_text(given_or(values.max_spread_percent, DEFAULT_MAX_SPREAD@)) is Some
                && u64_of_text(given_or(values.cooldown_ms, DEFAULT_COOLDOWN@)) is Some
                && depth_setting(values.orderbook_depth) is Some),
            r matches Ok(c) ==> {
                &&& c.wf()
                &&& Some(c.min_spread_percent) == decimal_of_text(
                    given_or(values.min_spread_percent, DEFAULT_MIN_SPREAD@),
                )
                &&& Some(c.max_spread_percent) == decimal_of_text(
                    given_or(values.max_spread_percent, DEFAULT_MAX_SPREAD@),
                )
                &&& Some(c.cooldown_ms) == u64_of_text(given_or(values.cooldown_ms, DEFAULT_COOLDOWN@))
                &&& c.callback_url@ == given_or(values.callback_url, DEFAULT_CALLBACK_URL@)
                &&& c.filter_pairs.deep_view() == list_setting(given_or(values.filter_pairs, Seq::empty()), true)
                &&& c.filter_exchanges.deep_view() == list_setting(
                    given_or(values.filter_exchanges, Seq::empty()),
                    false,
                )
                &&& c.enabled_exchanges.deep_view() == list_setting(
                    given_or(values.enabled_exchanges, DEFAULT_EXCHANGES@),
                    false,
                )
                &&& Some(c.orderbook_depth) == depth_setting(values.orderbook_depth)
            },
    {
        let min_spread_percent = match parse_decimal(text_or(values.min_spread_percent, DEFAULT_MIN_SPREAD)) {
            Some(d) => d,
            None => {
                return Err(ConfigError::InvalidMinSpread);
            },
        };
        let max_spread_percent = match parse_decimal(text_or(values.max_spread_percent, DEFAULT_MAX_SPREAD)) {
            Some(d) => d,
            None => {
                return Err(ConfigError::InvalidMaxSpread);
            },
        };
        let cooldown_ms = match parse_u64(text_or(values.cooldown_ms, DEFAULT_COOLDOWN)) {
            Some(c) => c,
            None => {
                return Err(ConfigError::InvalidCooldown);
            },
        };
        let callback_url = String::from_str(text_or(values.callback_url, DEFAULT_CALLBACK_URL));
        proof {
            reveal_strlit("");
        }
        let filter_pairs = parse_list(text_or(values.filter_pairs, ""), true);
        let filter_exchanges = parse_list(text_or(values.filter_exchanges, ""), false);
        let enabled_exchanges = parse_list(text_or(values.enabled_exchanges, DEFAULT_EXCHANGES), false);
        let orderbook_depth = match values.orderbook_depth {
            Some(t) => match parse_usize(t) {
                Some(d) => d,
                None => {
                    return Err(ConfigError::InvalidDepth);
                },
            },
            None => DEFAULT_DEPTH,
        };
        Ok(
            Config {
                min_spread_percent,
                max_spread_percent,
                cooldown_ms,
                callback_url,
                filter_pairs,
                filter_exchanges,
                enabled_exchanges,
                orderbook_depth,
            },
        )
    }

    pub open spec fn wf(&self) -> bool {
        self.min_spread_percent.wf() && self.max_spread_percent.wf()
    }

    /// The adapter of `exchange` is enabled (compared in lower case).
    pub fn is_exchange_enabled(&self, exchange: &str) -> (r: bool)
        ensures
            r == exists|i: int|
                0 <= i < self.enabled_exchanges@.len() && #[trigger] self.enabled_exchanges@[i]@
                    == lower_of(exchange@),
    {
        let lowered = to_lower(exchange);
        let mut i: usize = 0;
        while i < self.enabled_exchanges.len()
            invariant
                i <= self.enabled_exchanges@.len(),
                lowered@ == lower_of(exchange@),
                forall|k: int| 0 <= k < i ==> #[trigger] self.enabled_exchanges@[k]@ != lowered@,
            decreases self.enabled_exchanges.len() - i,
        {
            if str_eq(self.enabled_exchanges[i].as_str(), lowered.as_str()) {
                return true;
            }
            i = i + 1;
        }
        false
    }

    /// Prices of `exchange` take part in the comparison.
    pub open spec fn allows_exchange_spec(&self, exchange: Seq<char>) -> bool {
        self.filter_exchanges@.len() == 0 || exists|i: int|
            0 <= i < self.filter_exchanges@.len() && #[trigger] self.filter_exchanges@[i]@ == lower_of(
                exchange,
            )
    }

    pub fn allows_exchange(&self, exchange: &str) -> (r: bool)
        ensures
            r == self.allows_exchange_spec(exchange@),
    {
        if self.filter_exchanges.len() == 0 {
            return true;
        }
        let lowered = to_lower(exchange);
        let mut i: usize = 0;
        while i < self.filter_exchanges.len()
            invariant
                i <= self.filter_exchanges@.len(),
                lowered@ == lower_of(exchange@),
                forall|k: int| 0 <= k < i ==> #[trigger] self.filter_exchanges@[k]@ != lowered@,
            decreases self.filter_exchanges.len() - i,
        {
            if str_eq(self.filter_exchanges[i].as_str(), lowered.as_str()) {
                return true;
            }
            i = i + 1;
        }
        false
    }

    /// A symbol is scanned when no pair filter is set, or when its base asset
    /// contains a filter entry or is contained in one.
    pub open spec fn passes_pair_filter_spec(&self, symbol: Seq<char>) -> bool {
        self.filter_pairs@.len() == 0 || exists|i: int|
            0 <= i < self.filter_pairs@.len() && (is_infix(
                #[trigger] self.filter_pairs@[i]@,
                base_asset(symbol),
            ) || is_infix(base_asset(symbol), self.filter_pairs@[i]@))
    }

    pub fn passes_pair_filter(&self, symbol: &str) -> (r: bool)
        ensures
            r == self.passes_pair_filter_spec(symbol@),
    {
        if self.filter_pairs.len() == 0 {
            return true;
        }
        let base = base_of(symbol);
        let mut i: usize = 0;
        while i < self.filter_pairs.len()
            invariant
                i <= self.filter_pairs@.len(),
                base@ == base_asset(symbol@),
                forall|k: int|
                    0 <= k < i ==> !is_infix(#[trigger] self.filter_pairs@[k]@, base@) && !is_infix(
                        base@,
                        self.filter_pairs@[k]@,
                    ),
            decreases self.filter_pairs.len() - i,
        {
            let p = self.filter_pairs[i].as_str();
            if str_contains(base, p) || str_contains(p, base) {
                return true;
            }
            i = i + 1;
        }
        false
    }
}

} // verus!
