//! The scanner: the latest price of each symbol on each exchange, the search
//! for a cross-exchange spread on every update, and the cooldown that keeps
//! one opportunity from being reported over and over.
use vstd::prelude::*;
use crate::config::Config;
use crate::decimal::{
    checked_div, checked_mul, checked_sub, decimal_difference, decimal_product, decimal_quotient,
    lemma_not_below_positive, same_sign, Dec,
};
use crate::exchanges::{utc_now_millis, PriceUpdate};
use crate::tables::{
    alert_table_contents, alert_table_get, alert_table_insert, alert_table_new, price_table_contents,
    price_table_insert, price_table_len, price_table_new, price_table_remove, AlertTable, PriceTable,
};
use crate::text::str_eq;

verus! {

/// A spread between the lowest ask on one exchange and the highest bid on another.
#[derive(Clone, Debug)]
pub struct ArbitrageOpportunity {
    pub symbol: String,
    /// Where the lowest ask is.
    pub buy_exchange: String,
    /// Where the highest bid is.
    pub sell_exchange: String,
    pub buy_price: Dec,
    pub sell_price: Dec,
    /// `spread_usd / buy_price * 100`.
    pub spread_percent: Dec,
    /// `sell_price - buy_price`.
    pub spread_usd: Dec,
    pub timestamp: i64,
}

/// `row` with the update of `u`'s exchange replaced by `u`, or `u` appended
/// where the exchange has none yet.
pub open spec fn with_price(row: Seq<PriceUpdate>, u: PriceUpdate) -> Seq<PriceUpdate>
    decreases row.len(),
{
    if row.len() == 0 {
        seq![u]
    } else if row[0].exchange@ == u.exchange@ {
        row.update(0, u)
    } else {
        seq![row[0]] + with_price(row.drop_first(), u)
    }
}

proof fn lemma_with_price_at(row: Seq<PriceUpdate>, u: PriceUpdate, i: int)
    requires
        0 <= i < row.len(),
        row[i].exchange@ == u.exchange@,
        forall|k: int| 0 <= k < i ==> row[k].exchange@ != u.exchange@,
    ensures
        with_price(row, u) == row.update(i, u),
    decreases row.len(),
{
    if i > 0 {
        let rest = row.drop_first();
        assert forall|k: int| 0 <= k < i - 1 implies rest[k].exchange@ != u.exchange@ by {
            assert(rest[k] == row[k + 1]);
        }
        lemma_with_price_at(rest, u, i - 1);
        assert(seq![row[0]] + rest.update(i - 1, u) =~= row.update(i, u));
    }
}

proof fn lemma_with_price_absent(row: Seq<PriceUpdate>, u: PriceUpdate)
    requires
        forall|k: int| 0 <= k < row.len() ==> row[k].exchange@ != u.exchange@,
    ensures
        with_price(row, u) == row.push(u),
    decreases row.len(),
{
    if row.len() > 0 {
        let rest = row.drop_first();
        assert forall|k: int| 0 <= k < rest.len() implies rest[k].exchange@ != u.exchange@ by {
            assert(rest[k] == row[k + 1]);
        }
        lemma_with_price_absent(rest, u);
        assert(seq![row[0]] + rest.push(u) =~= row.push(u));
    } else {
        assert(seq![u] =~= row.push(u));
    }
}

proof fn lemma_with_price_elements(row: Seq<PriceUpdate>, u: PriceUpdate)
    ensures
        with_price(row, u).len() == row.len() || with_price(row, u).len() == row.len() + 1,
        forall|k: int|
            0 <= k < with_price(row, u).len() ==> #[trigger] with_price(row, u)[k] == u || (k
                < row.len() && with_price(row, u)[k] == row[k]),
    decreases row.len(),
{
    if row.len() > 0 && row[0].exchange@ != u.exchange@ {
        let rest = row.drop_first();
        lemma_with_price_elements(rest, u);
        let w = with_price(row, u);
        assert forall|k: int| 0 <= k < w.len() implies #[trigger] w[k] == u || (k < row.len() && w[k]
            == row[k]) by {
            if k > 0 {
                assert(w[k] == with_price(rest, u)[k - 1]);
            }
        }
    }
}

fn with_price_exec(entries: Vec<PriceUpdate>, u: PriceUpdate) -> (r: Vec<PriceUpdate>)
    ensures
        r@ == with_price(entries@, u),
{
    let ghost start = entries@;
    let mut row = entries;
    let n = row.len();
    let mut i: usize = 0;
    let mut found = false;
    while i < n
        invariant_except_break
            !found,
        invariant
            n == row.len(),
            i <= n,
            row@ == start,
            forall|k: int| 0 <= k < i ==> start[k].exchange@ != u.exchange@,
        ensures
            found ==> i < n && start[i as int].exchange@ == u.exchange@,
            !found ==> i == n,
        decreases n - i,
    {
        if str_eq(row[i].exchange.as_str(), u.exchange.as_str()) {
            found = true;
            break;
        }
        i = i + 1;
    }
    if found {
        proof {
            lemma_with_price_at(start, u, i as int);
        }
        row.set(i, u);
    } else {
        proof {
            lemma_with_price_absent(start, u);
        }
        row.push(u);
    }
    row
}

/// The row of `symbol` in a price table, empty where it has none.
pub open spec fn row_of(prices: Map<Seq<char>, Seq<PriceUpdate>>, symbol: Seq<char>) -> Seq<PriceUpdate> {
    if prices.contains_key(symbol) {
        prices[symbol]
    } else {
        Seq::empty()
    }
}

/// Among the first `n` updates of `row` from allowed exchanges, the first
/// one with the highest bid.
pub open spec fn best_bid_upto(cfg: Config, row: Seq<PriceUpdate>, n: int) -> Option<int>
    decreases n,
{
    if n <= 0 {
        None
    } else {
        let prev = best_bid_upto(cfg, row, n - 1);
        if !cfg.allows_exchange_spec(row[n - 1].exchange@) {
            prev
        } else {
            match prev {
                None => Some(n - 1),
                Some(b) => if row[b].bid.lt(row[n - 1].bid) {
                    Some(n - 1)
                } else {
                    prev
                },
            }
        }
    }
}

/// Among the first `n` updates of `row` from allowed exchanges, the first
/// one with the lowest ask.
pub open spec fn best_ask_upto(cfg: Config, row: Seq<PriceUpdate>, n: int) -> Option<int>
    decreases n,
{
    if n <= 0 {
        None
    } else {
        let prev = best_ask_upto(cfg, row, n - 1);
        if !cfg.allows_exchange_spec(row[n - 1].exchange@) {
            prev
        } else {
            match prev {
                None => Some(n - 1),
                Some(a) => if row[n - 1].ask.lt(row[a].ask) {
                    Some(n - 1)
                } else {
                    prev
                },
            }
        }
    }
}

proof fn lemma_best_in_range(cfg: Config, row: Seq<PriceUpdate>, n: int)
    requires
        0 <= n <= row.len(),
    ensures
        best_bid_upto(cfg, row, n) matches Some(b) ==> 0 <= b < n && cfg.allows_exchange_spec(
            row[b].exchange@,
        ),
        best_ask_upto(cfg, row, n) matches Some(a) ==> 0 <= a < n && cfg.allows_exchange_spec(
            row[a].exchange@,
        ),
        (best_bid_upto(cfg, row, n) is Some) == (best_ask_upto(cfg, row, n) is Some),
    decreases n,
{
    if n > 0 {
        lemma_best_in_range(cfg, row, n - 1);
    }
}

/// The spread in currency units, `sell - buy`, and in percent,
/// `(sell - buy) / buy * 100`, as `rust_decimal` computes them for buying at
/// `buy` and selling at `sell`; `None` where a step overflows.
pub open spec fn spread_of(sell: Dec, buy: Dec) -> Option<(Dec, Dec)> {
    match decimal_difference(sell, buy) {
        Some(usd) => match decimal_quotient(usd, buy) {
            Some(ratio) => match decimal_product(ratio, Dec { mantissa: 100, scale: 0 }) {
                Some(percent) => Some((usd, percent)),
                None => None,
            },
            None => None,
        },
        None => None,
    }
}

/// A spread in percent is within the configured band, and the symbol passes the pair filter.
pub open spec fn spread_accepted(cfg: Config, symbol: Seq<char>, spread_percent: Dec) -> bool {
    &&& !spread_percent.lt(cfg.min_spread_percent)
    &&& !cfg.max_spread_percent.lt(spread_percent)
    &&& cfg.passes_pair_filter_spec(symbol)
}

/// Nothing can be reported for `row`: fewer than two updates, no allowed
/// exchange, best bid and best ask on the same exchange, or a zero best ask.
pub open spec fn no_candidate(cfg: Config, row: Seq<PriceUpdate>) -> bool {
    ||| row.len() < 2
    ||| best_bid_upto(cfg, row, row.len() as int) is None
    ||| row[best_bid_upto(cfg, row, row.len() as int)->0].exchange@ == row[best_ask_upto(
        cfg,
        row,
        row.len() as int,
    )->0].exchange@
    ||| row[best_ask_upto(cfg, row, row.len() as int)->0].ask.mantissa == 0
}

/// The spread in percent of a computed spread.
pub open spec fn percent_part(spread: Option<(Dec, Dec)>) -> Dec {
    match spread {
        Some(p) => p.1,
        None => Dec { mantissa: 0, scale: 0 },
    }
}

/// The update with the best bid of a row that has a candidate.
pub open spec fn best_sell(cfg: Config, row: Seq<PriceUpdate>) -> PriceUpdate {
    row[best_bid_upto(cfg, row, row.len() as int)->0]
}

/// The update with the best ask of a row that has a candidate.
pub open spec fn best_buy(cfg: Config, row: Seq<PriceUpdate>) -> PriceUpdate {
    row[best_ask_upto(cfg, row, row.len() as int)->0]
}

/// `row` offers an opportunity on `symbol`: it has a candidate, the spread
/// between its best bid and best ask can be computed, and it is accepted.
pub open spec fn offers(cfg: Config, symbol: Seq<char>, row: Seq<PriceUpdate>) -> bool {
    &&& !no_candidate(cfg, row)
    &&& spread_of(best_sell(cfg, row).bid, best_buy(cfg, row).ask) is Some
    &&& spread_accepted(cfg, symbol, percent_part(spread_of(best_sell(cfg, row).bid, best_buy(cfg, row).ask)))
}

/// The cooldown key of the opportunity that `row` offers on `symbol`.
pub open spec fn offered_key(cfg: Config, symbol: Seq<char>, row: Seq<PriceUpdate>) -> (Seq<char>, Seq<char>, Seq<char>) {
    (symbol, best_buy(cfg, row).exchange@, best_sell(cfg, row).exchange@)
}

/// `o` is the opportunity that `row` offers on `symbol` at time `now`: it
/// buys at the best ask and sells at the best bid, on two exchanges, and its
/// spread is accepted.
pub open spec fn reports(cfg: Config, symbol: Seq<char>, row: Seq<PriceUpdate>, now: i64, o: ArbitrageOpportunity) -> bool {
    let b = best_bid_upto(cfg, row, row.len() as int)->0;
    let a = best_ask_upto(cfg, row, row.len() as int)->0;
    &&& !no_candidate(cfg, row)
    &&& o.symbol@ == symbol
    &&& o.sell_exchange@ == row[b].exchange@
    &&& o.sell_price == row[b].bid
    &&& o.buy_exchange@ == row[a].exchange@
    &&& o.buy_price == row[a].ask
    &&& o.sell_exchange@ != o.buy_exchange@
    &&& spread_of(o.sell_price, o.buy_price) == Some((o.spread_usd, o.spread_percent))
    &&& o.buy_price.mantissa > 0 && o.sell_price.mantissa > 0
    &&& spread_accepted(cfg, symbol, o.spread_percent)
    &&& o.timestamp == now
    &&& o.buy_price.wf() && o.sell_price.wf() && o.spread_usd.wf() && o.spread_percent.wf()
    &&& (o.spread_percent.mantissa > 0 ==> same_sign(o.spread_usd, o.buy_price))
    &&& (o.spread_usd.mantissa > 0 ==> o.buy_price.lt(o.sell_price))
}

/// The last alert time of `key`, zero where it has none.
pub open spec fn last_alert_of(alerts: Map<(Seq<char>, Seq<char>, Seq<char>), i64>, key: (Seq<char>, Seq<char>, Seq<char>)) -> int {
    if alerts.contains_key(key) {
        alerts[key] as int
    } else {
        0
    }
}

/// At `now`, at least `cooldown` milliseconds have passed since the last alert on `key`.
pub open spec fn cooldown_elapsed(
    alerts: Map<(Seq<char>, Seq<char>, Seq<char>), i64>,
    key: (Seq<char>, Seq<char>, Seq<char>),
    now: i64,
    cooldown: u64,
) -> bool {
    now - last_alert_of(alerts, key) >= cooldown
}

pub open spec fn opportunity_key(o: ArbitrageOpportunity) -> (Seq<char>, Seq<char>, Seq<char>) {
    (o.symbol@, o.buy_exchange@, o.sell_exchange@)
}

/// After an alert on a key at `first`, the cooldown admits the next alert on
/// that key at `next` only when at least `cooldown` milliseconds lie between them.
pub proof fn lemma_cooldown_spacing(
    alerts: Map<(Seq<char>, Seq<char>, Seq<char>), i64>,
    key: (Seq<char>, Seq<char>, Seq<char>),
    first: i64,
    next: i64,
    cooldown: u64,
)
    requires
        cooldown_elapsed(alerts.insert(key, first), key, next, cooldown),
    ensures
        next - first >= cooldown,
{
}

/// Alerts on other keys leave the cooldown of `key` as it was.
pub proof fn lemma_cooldown_other_key(
    alerts: Map<(Seq<char>, Seq<char>, Seq<char>), i64>,
    key: (Seq<char>, Seq<char>, Seq<char>),
    other: (Seq<char>, Seq<char>, Seq<char>),
    at: i64,
    now: i64,
    cooldown: u64,
)
    requires
        other != key,
    ensures
        cooldown_elapsed(alerts.insert(other, at), key, now, cooldown) == cooldown_elapsed(
            alerts,
            key,
            now,
            cooldown,
        ),
{
}

/// Every reported opportunity buys and sells on two different exchanges and
/// has its spread in percent within the configured band.
pub proof fn lemma_reported_within_band(
    cfg: Config,
    symbol: Seq<char>,
    row: Seq<PriceUpdate>,
    now: i64,
    o: ArbitrageOpportunity,
)
    requires
        reports(cfg, symbol, row, now, o),
    ensures
        o.buy_exchange@ != o.sell_exchange@,
        !o.spread_percent.lt(cfg.min_spread_percent),
        !cfg.max_spread_percent.lt(o.spread_percent),
        spread_of(o.sell_price, o.buy_price) == Some((o.spread_usd, o.spread_percent)),
{
}

/// With a positive minimum spread, a reported opportunity sells above its buy price, and its spread is positive in
/// percent and in currency units.
pub proof fn lemma_reported_profitable(
    cfg: Config,
    symbol: Seq<char>,
    row: Seq<PriceUpdate>,
    now: i64,
    o: ArbitrageOpportunity,
)
    requires
        reports(cfg, symbol, row, now, o),
        cfg.min_spread_percent.mantissa > 0,
    ensures
        o.spread_percent.mantissa > 0,
        o.spread_usd.mantissa > 0,
        o.buy_price.lt(o.sell_price),
{
    lemma_not_below_positive(o.spread_percent, cfg.min_spread_percent);
}

/// Keeps the latest price of every symbol on every exchange and reports
/// cross-exchange spreads.
pub struct ArbitrageScanner {
    config: Config,
    /// Symbol to the latest update of each exchange, in order of first sight.
    prices: PriceTable,
    /// Last alert time of each `(symbol, buy exchange, sell exchange)`.
    last_alert: AlertTable,
}

impl ArbitrageScanner {
    pub closed spec fn config_spec(&self) -> Config {
        self.config
    }

    pub closed spec fn prices(&self) -> Map<Seq<char>, Seq<PriceUpdate>> {
        price_table_contents(self.prices)
    }

    pub closed spec fn alerts(&self) -> Map<(Seq<char>, Seq<char>, Seq<char>), i64> {
        alert_table_contents(self.last_alert)
    }

    /// Every stored update is well formed and the configuration's bounds are.
    pub open spec fn wf(&self) -> bool {
        &&& self.config_spec().wf()
        &&& forall|s: Seq<char>, k: int| #[trigger]
            self.prices().contains_key(s) && 0 <= k < self.prices()[s].len() ==> (
            #[trigger] self.prices()[s][k]).wf()
    }

    pub fn new(config: Config) -> (r: Self)
        requires
            config.wf(),
        ensures
            r.wf(),
            r.config_spec() == config,
            r.prices() == Map::<Seq<char>, Seq<PriceUpdate>>::empty(),
            r.alerts() == Map::<(Seq<char>, Seq<char>, Seq<char>), i64>::empty(),
    {
        ArbitrageScanner { config, prices: price_table_new(), last_alert: alert_table_new() }
    }

    pub fn config(&self) -> (r: &Config)
        ensures
            *r == self.config_spec(),
    {
        &self.config
    }

    /// Number of symbols with at least one stored price.
    pub fn symbol_count(&self) -> (r: usize)
        ensures
            r == self.prices().dom().len(),
    {
        price_table_len(&self.prices)
    }

    /// The spread in percent is within the band and the symbol passes the pair filter.
    pub fn spread_accepted(&self, symbol: &str, spread_percent: &Dec) -> (r: bool)
        requires
            self.config_spec().wf(),
            spread_percent.wf(),
        ensures
            r == spread_accepted(self.config_spec(), symbol@, *spread_percent),
    {
        if spread_percent.less_than(&self.config.min_spread_percent) {
            return false;
        }
        if self.config.max_spread_percent.less_than(spread_percent) {
            return false;
        }
        self.config.passes_pair_filter(symbol)
    }

    /// Looks for a cross-exchange spread among the latest updates of one symbol.
    pub fn find_arbitrage(&self, symbol: &str, row: &Vec<PriceUpdate>, now: i64) -> (r: Option<ArbitrageOpportunity>)
        requires
            self.config_spec().wf(),
            forall|k: int| 0 <= k < row@.len() ==> (#[trigger] row@[k]).wf(),
        ensures
            r is Some == offers(self.config_spec(), symbol@, row@),
            r matches Some(o) ==> reports(self.config_spec(), symbol@, row@, now, o),
    {
        let n = row.len();
        if n < 2 {
            return None;
        }
        let ghost cfg = self.config_spec();
        let mut bid_at: Option<usize> = None;
        let mut ask_at: Option<usize> = None;
        let mut i: usize = 0;
        while i < n
            invariant
                n == row@.len(),
                i <= n,
                cfg == self.config_spec(),
                forall|k: int| 0 <= k < row@.len() ==> (#[trigger] row@[k]).wf(),
                bid_at matches Some(b) ==> best_bid_upto(cfg, row@, i as int) == Some(b as int),
                bid_at is None ==> best_bid_upto(cfg, row@, i as int) is None,
                ask_at matches Some(a) ==> best_ask_upto(cfg, row@, i as int) == Some(a as int),
                ask_at is None ==> best_ask_upto(cfg, row@, i as int) is None,
            decreases n - i,
        {
            proof {
                lemma_best_in_range(cfg, row@, i as int);
            }
            if self.config.allows_exchange(row[i].exchange.as_str()) {
                match bid_at {
                    None => {
                        bid_at = Some(i);
                    },
                    Some(b) => {
                        if row[b].bid.less_than(&row[i].bid) {
                            bid_at = Some(i);
                        }
                    },
                }
                match ask_at {
                    None => {
                        ask_at = Some(i);
                    },
                    Some(a) => {
                        if row[i].ask.less_than(&row[a].ask) {
                            ask_at = Some(i);
                        }
                    },
                }
            }
            i = i + 1;
        }
        proof {
            lemma_best_in_range(cfg, row@, n as int);
        }
        let (b, a) = match (bid_at, ask_at) {
            (Some(b), Some(a)) => (b, a),
            _ => {
                return None;
            },
        };
        let sell = &row[b];
        let buy = &row[a];
        if str_eq(sell.exchange.as_str(), buy.exchange.as_str()) {
            return None;
        }
        if buy.ask.is_zero() {
            return None;
        }
        let spread_usd = match checked_sub(&sell.bid, &buy.ask) {
            Some(d) => d,
            None => {
                return None;
            },
        };
        let ratio = match checked_div(&spread_usd, &buy.ask) {
            Some(d) => d,
            None => {
                return None;
            },
        };
        let hundred = Dec::from_u32(100);
        let spread_percent = match checked_mul(&ratio, &hundred) {
            Some(d) => d,
            None => {
                return None;
            },
        };
        if !self.spread_accepted(symbol, &spread_percent) {
            return None;
        }
        Some(
            ArbitrageOpportunity {
                symbol: String::from_str(symbol),
                buy_exchange: buy.exchange.clone(),
                sell_exchange: sell.exchange.clone(),
                buy_price: buy.ask,
                sell_price: sell.bid,
                spread_percent,
                spread_usd,
                timestamp: now,
            },
        )
    }

    /// Whether an alert on `o` is due at `now`; when it is, `now` becomes the
    /// last alert time of its key.
    pub fn check_cooldown(&mut self, o: &ArbitrageOpportunity, now: i64) -> (r: bool)
        ensures
            r == cooldown_elapsed(old(self).alerts(), opportunity_key(*o), now, old(self).config_spec().cooldown_ms),
            final(self).alerts() == if r {
                old(self).alerts().insert(opportunity_key(*o), now)
            } else {
                old(self).alerts()
            },
            final(self).prices() == old(self).prices(),
            final(self).config_spec() == old(self).config_spec(),
    {
        let last = match alert_table_get(&self.last_alert, o.symbol.as_str(), o.buy_exchange.as_str(), o.sell_exchange.as_str()) {
            Some(t) => t,
            None => 0,
        };
        if (now as i128) - (last as i128) >= self.config.cooldown_ms as i128 {
            alert_table_insert(&mut self.last_alert, o.symbol.as_str(), o.buy_exchange.as_str(), o.sell_exchange.as_str(), now);
            true
        } else {
            false
        }
    }

    /// Stores an update over the previous one of its symbol and exchange,
    /// then reports the symbol's opportunity if there is one and its cooldown
    /// has passed at `now`.
    pub fn handle_price_update_at(&mut self, update: PriceUpdate, now: i64) -> (r: Option<ArbitrageOpportunity>)
        requires
            old(self).wf(),
            update.wf(),
        ensures
            final(self).wf(),
            final(self).config_spec() == old(self).config_spec(),
            final(self).prices() == old(self).prices().insert(
                update.symbol@,
                with_price(row_of(old(self).prices(), update.symbol@), update),
            ),
            r is Some == (offers(
                old(self).config_spec(),
                update.symbol@,
                with_price(row_of(old(self).prices(), update.symbol@), update),
            ) && cooldown_elapsed(
                old(self).alerts(),
                offered_key(
                    old(self).config_spec(),
                    update.symbol@,
                    with_price(row_of(old(self).prices(), update.symbol@), update),
                ),
                now,
                old(self).config_spec().cooldown_ms,
            )),
            r matches Some(o) ==> {
                &&& reports(
                    old(self).config_spec(),
                    update.symbol@,
                    with_price(row_of(old(self).prices(), update.symbol@), update),
                    now,
                    o,
                )
                &&& cooldown_elapsed(old(self).alerts(), opportunity_key(o), now, old(self).config_spec().cooldown_ms)
                &&& final(self).alerts() == old(self).alerts().insert(opportunity_key(o), now)
            },
            r is None ==> final(self).alerts() == old(self).alerts(),
    {
        let symbol = update.symbol.clone();
        let row = match price_table_remove(&mut self.prices, symbol.as_str()) {
            Some(r) => r,
            None => Vec::new(),
        };
        let ghost old_row = row_of(old(self).prices(), update.symbol@);
        assert(row@ == old_row);
        let ghost upd = update;
        let row = with_price_exec(row, update);
        proof {
            lemma_with_price_elements(old_row, upd);
            assert forall|k: int| 0 <= k < row@.len() implies (#[trigger] row@[k]).wf() by {
                if row@[k] != upd {
                    assert(old(self).prices().contains_key(upd.symbol@));
                    assert(old(self).prices()[upd.symbol@][k].wf());
                }
            }
        }
        let found = self.find_arbitrage(symbol.as_str(), &row, now);
        price_table_insert(&mut self.prices, symbol, row);
        proof {
            assert forall|s: Seq<char>, k: int| #[trigger]
                self.prices().contains_key(s) && 0 <= k < self.prices()[s].len() implies (
                #[trigger] self.prices()[s][k]).wf() by {
                if s != upd.symbol@ {
                    assert(old(self).prices().contains_key(s));
                    assert(old(self).prices()[s][k].wf());
                }
            }
        }
        match found {
            None => None,
            Some(o) => {
                if self.check_cooldown(&o, now) {
                    Some(o)
                } else {
                    None
                }
            },
        }
    }

    /// Handles an update at the time the local clock reads; a reported
    /// opportunity carries that time.
    pub fn handle_price_update(&mut self, update: PriceUpdate) -> (r: Option<ArbitrageOpportunity>)
        requires
            old(self).wf(),
            update.wf(),
        ensures
            final(self).wf(),
            final(self).config_spec() == old(self).config_spec(),
            final(self).prices() == old(self).prices().insert(
                update.symbol@,
                with_price(row_of(old(self).prices(), update.symbol@), update),
            ),
            !offers(
                old(self).config_spec(),
                update.symbol@,
                with_price(row_of(old(self).prices(), update.symbol@), update),
            ) ==> r is None,
            r matches Some(o) ==> {
                &&& reports(
                    old(self).config_spec(),
                    update.symbol@,
                    with_price(row_of(old(self).prices(), update.symbol@), update),
                    o.timestamp,
                    o,
                )
                &&& cooldown_elapsed(old(self).alerts(), opportunity_key(o), o.timestamp, old(self).config_spec().cooldown_ms)
                &&& final(self).alerts() == old(self).alerts().insert(opportunity_key(o), o.timestamp)
            },
            r is None ==> final(self).alerts() == old(self).alerts(),
    {
        let now = utc_now_millis();
        self.handle_price_update_at(update, now)
    }
}

} // verus!
