//! Normalization of venue symbols to a canonical `BASE/QUOTE` name, and the
//! two indices between venue symbols and canonical names.
use vstd::prelude::*;
use crate::tables::{
    symbol_index_contents, symbol_index_get, symbol_index_insert, symbol_index_new,
    venue_index_contents, venue_index_entries, venue_index_get, venue_index_insert, venue_index_new,
    SymbolIndex, VenueIndex,
};
use crate::text::{
    contains_char, ends_with, push_char, replace_all, replace_char, str_ends_with, str_eq,
    to_upper, upper_of,
};

verus! {

/// Number of quote currencies tried when a symbol has no separator.
pub const QUOTE_COUNT: usize = 18;

/// The quote currencies, in the order in which they are tried.
pub open spec fn quote_spec(i: int) -> Seq<char> {
    if i == 0 {
        seq!['U', 'S', 'D', 'T']
    } else if i == 1 {
        seq!['U', 'S', 'D', 'C']
    } else if i == 2 {
        seq!['U', 'S', 'D']
    } else if i == 3 {
        seq!['B', 'U', 'S', 'D']
    } else if i == 4 {
        seq!['T', 'U', 'S', 'D']
    } else if i == 5 {
        seq!['U', 'S', 'D', 'P']
    } else if i == 6 {
        seq!['D', 'A', 'I']
    } else if i == 7 {
        seq!['F', 'D', 'U', 'S', 'D']
    } else if i == 8 {
        seq!['E', 'U', 'R']
    } else if i == 9 {
        seq!['G', 'B', 'P']
    } else if i == 10 {
        seq!['J', 'P', 'Y']
    } else if i == 11 {
        seq!['A', 'U', 'D']
    } else if i == 12 {
        seq!['C', 'A', 'D']
    } else if i == 13 {
        seq!['B', 'T', 'C']
    } else if i == 14 {
        seq!['E', 'T', 'H']
    } else if i == 15 {
        seq!['B', 'N', 'B']
    } else if i == 16 {
        seq!['S', 'O', 'L']
    } else {
        seq!['X', 'R', 'P']
    }
}

/// Splits `s` by the first quote currency, from the `i`-th on, that it ends
/// with and that leaves a non-empty base; with none, appends `/USD`.
pub open spec fn split_by_quote(s: Seq<char>, i: int) -> Seq<char>
    decreases QUOTE_COUNT - i,
{
    if i < 0 || i >= QUOTE_COUNT {
        s + seq!['/', 'U', 'S', 'D']
    } else if ends_with(s, quote_spec(i)) && s.len() > quote_spec(i).len() {
        s.subrange(0, s.len() - quote_spec(i).len()) + seq!['/'] + quote_spec(i)
    } else {
        split_by_quote(s, i + 1)
    }
}

/// The canonical name of an upper-case venue symbol.
pub open spec fn normalize_upper(s: Seq<char>) -> Seq<char> {
    if s.contains('/') {
        s
    } else if s.contains('-') {
        replace_char(s, '-', '/')
    } else if s.contains('_') {
        replace_char(s, '_', '/')
    } else {
        split_by_quote(s, 0)
    }
}

/// The canonical name of any venue symbol: upper-cased, then normalized.
pub open spec fn normalized_name(raw: Seq<char>) -> Seq<char> {
    normalize_upper(upper_of(raw))
}

fn quote_currency(i: usize) -> (r: &'static str)
    requires
        i < QUOTE_COUNT,
    ensures
        r@ == quote_spec(i as int),
{
    if i == 0 {
        proof { reveal_strlit("USDT"); }
        "USDT"
    } else if i == 1 {
        proof { reveal_strlit("USDC"); }
        "USDC"
    } else if i == 2 {
        proof { reveal_strlit("USD"); }
        "USD"
    } else if i == 3 {
        proof { reveal_strlit("BUSD"); }
        "BUSD"
    } else if i == 4 {
        proof { reveal_strlit("TUSD"); }
        "TUSD"
    } else if i == 5 {
        proof { reveal_strlit("USDP"); }
        "USDP"
    } else if i == 6 {
        proof { reveal_strlit("DAI"); }
        "DAI"
    } else if i == 7 {
        proof { reveal_strlit("FDUSD"); }
        "FDUSD"
    } else if i == 8 {
        proof { reveal_strlit("EUR"); }
        "EUR"
    } else if i == 9 {
        proof { reveal_strlit("GBP"); }
        "GBP"
    } else if i == 10 {
        proof { reveal_strlit("JPY"); }
        "JPY"
    } else if i == 11 {
        proof { reveal_strlit("AUD"); }
        "AUD"
    } else if i == 12 {
        proof { reveal_strlit("CAD"); }
        "CAD"
    } else if i == 13 {
        proof { reveal_strlit("BTC"); }
        "BTC"
    } else if i == 14 {
        proof { reveal_strlit("ETH"); }
        "ETH"
    } else if i == 15 {
        proof { reveal_strlit("BNB"); }
        "BNB"
    } else if i == 16 {
        proof { reveal_strlit("SOL"); }
        "SOL"
    } else {
        proof { reveal_strlit("XRP"); }
        "XRP"
    }
}

/// Normalizes a symbol that is already upper case: a `/` is kept, a `-` or
/// `_` becomes `/`, otherwise the first known quote currency that ends the
/// symbol is split off, and failing that `/USD` is appended.
pub fn normalize_upper_symbol(s: &str) -> (r: String)
    ensures
        r@ == normalize_upper(s@),
{
    if contains_char(s, '/') {
        return String::from_str(s);
    }
    if contains_char(s, '-') {
        return replace_all(s, '-', '/');
    }
    if contains_char(s, '_') {
        return replace_all(s, '_', '/');
    }
    let n = s.unicode_len();
    let mut i: usize = 0;
    while i < QUOTE_COUNT
        invariant
            n == s@.len(),
            i <= QUOTE_COUNT,
            !s@.contains('/') && !s@.contains('-') && !s@.contains('_'),
            split_by_quote(s@, 0) == split_by_quote(s@, i as int),
        decreases QUOTE_COUNT - i,
    {
        let quote = quote_currency(i);
        if str_ends_with(s, quote) {
            let q = quote.unicode_len();
            if n > q {
                let base = s.substring_char(0, n - q);
                let mut out = String::from_str(base);
                push_char(&mut out, '/');
                out.append(quote);
                assert(out@ =~= s@.subrange(0, s@.len() - quote@.len()) + seq!['/'] + quote@);
                assert(split_by_quote(s@, i as int) == s@.subrange(0, s@.len() - quote@.len())
                    + seq!['/'] + quote@);
                return out;
            }
        }
        i = i + 1;
    }
    let mut out = String::from_str(s);
    push_char(&mut out, '/');
    push_char(&mut out, 'U');
    push_char(&mut out, 'S');
    push_char(&mut out, 'D');
    assert(out@ =~= s@ + seq!['/', 'U', 'S', 'D']);
    out
}

/// `list` with the entry of `exchange` set to `raw`: the first entry of that
/// exchange is replaced, and with none the pair is appended.
pub open spec fn with_venue(list: Seq<(Seq<char>, Seq<char>)>, exchange: Seq<char>, raw: Seq<char>) -> Seq<
    (Seq<char>, Seq<char>),
>
    decreases list.len(),
{
    if list.len() == 0 {
        seq![(exchange, raw)]
    } else if list[0].0 == exchange {
        list.update(0, (exchange, raw))
    } else {
        seq![list[0]] + with_venue(list.drop_first(), exchange, raw)
    }
}

proof fn lemma_with_venue_members(list: Seq<(Seq<char>, Seq<char>)>, exchange: Seq<char>, raw: Seq<char>)
    ensures
        with_venue(list, exchange, raw).len() >= list.len(),
        exists|j: int|
            0 <= j < with_venue(list, exchange, raw).len() && #[trigger] with_venue(list, exchange, raw)[j]
                == (exchange, raw),
        forall|j: int|
            0 <= j < with_venue(list, exchange, raw).len() ==> #[trigger] with_venue(list, exchange, raw)[j]
                == (exchange, raw) || (j < list.len() && with_venue(list, exchange, raw)[j] == list[j]),
        forall|i: int| 0 <= i < list.len() ==> #[trigger] with_venue(list, exchange, raw)[i].0 == list[i].0,
    decreases list.len(),
{
    let w = with_venue(list, exchange, raw);
    if list.len() == 0 {
        assert(w[0] == (exchange, raw));
    } else if list[0].0 == exchange {
        assert(w[0] == (exchange, raw));
    } else {
        let rest = list.drop_first();
        lemma_with_venue_members(rest, exchange, raw);
        let wr = with_venue(rest, exchange, raw);
        assert(w == seq![list[0]] + wr);
        let j0 = choose|j: int| 0 <= j < wr.len() && wr[j] == (exchange, raw);
        assert(w[j0 + 1] == (exchange, raw));
        assert forall|j: int| 0 <= j < w.len() implies #[trigger] w[j] == (exchange, raw) || (j < list.len()
            && w[j] == list[j]) by {
            if j > 0 {
                assert(w[j] == wr[j - 1]);
                if j - 1 < rest.len() && wr[j - 1] == rest[j - 1] {
                    assert(rest[j - 1] == list[j]);
                }
            }
        }
        assert forall|i: int| 0 <= i < list.len() implies #[trigger] w[i].0 == list[i].0 by {
            if i > 0 {
                assert(w[i] == wr[i - 1]);
                assert(wr[i - 1].0 == rest[i - 1].0);
            }
        }
    }
}

/// The two indices agree: every listed `(exchange, venue symbol)` is
/// registered under the name it is listed under, and the exchange of every
/// registered pair is listed under its name.
pub open spec fn indices_agree(
    symbols: Map<(Seq<char>, Seq<char>), Seq<char>>,
    venues: Map<Seq<char>, Seq<(Seq<char>, Seq<char>)>>,
) -> bool {
    &&& forall|n: Seq<char>, j: int|
        venues.contains_key(n) && 0 <= j < venues[n].len() ==> symbols.contains_key(#[trigger] venues[n][j])
            && symbols[venues[n][j]] == n
    &&& forall|k: (Seq<char>, Seq<char>)| #[trigger]
        symbols.contains_key(k) ==> venues.contains_key(symbols[k]) && exists|j: int|
            0 <= j < venues[symbols[k]].len() && venues[symbols[k]][j].0 == k.0
}

/// No two entries of `list` name the same exchange.
pub open spec fn distinct_venues(list: Seq<(Seq<char>, Seq<char>)>) -> bool {
    forall|i: int, j: int| 0 <= i < j < list.len() ==> list[i].0 != list[j].0
}

/// The symbol index after registering `raw` on `exchange`.
pub open spec fn register_symbols(
    symbols: Map<(Seq<char>, Seq<char>), Seq<char>>,
    exchange: Seq<char>,
    raw: Seq<char>,
) -> Map<(Seq<char>, Seq<char>), Seq<char>> {
    symbols.insert((exchange, raw), normalized_name(raw))
}

/// The venue list of `normalized` in `venues`, empty where it has none.
pub open spec fn venues_of(
    venues: Map<Seq<char>, Seq<(Seq<char>, Seq<char>)>>,
    normalized: Seq<char>,
) -> Seq<(Seq<char>, Seq<char>)> {
    if venues.contains_key(normalized) {
        venues[normalized]
    } else {
        Seq::empty()
    }
}

/// The venue index after registering `raw` on `exchange`.
pub open spec fn register_venues(
    venues: Map<Seq<char>, Seq<(Seq<char>, Seq<char>)>>,
    exchange: Seq<char>,
    raw: Seq<char>,
) -> Map<Seq<char>, Seq<(Seq<char>, Seq<char>)>> {
    let n = normalized_name(raw);
    venues.insert(n, with_venue(venues_of(venues, n), exchange, raw))
}

proof fn lemma_with_venue_at(list: Seq<(Seq<char>, Seq<char>)>, exchange: Seq<char>, raw: Seq<char>, i: int)
    requires
        0 <= i < list.len(),
        list[i].0 == exchange,
        forall|k: int| 0 <= k < i ==> list[k].0 != exchange,
    ensures
        with_venue(list, exchange, raw) == list.update(i, (exchange, raw)),
    decreases list.len(),
{
    if i > 0 {
        let rest = list.drop_first();
        assert forall|k: int| 0 <= k < i - 1 implies rest[k].0 != exchange by {
            assert(rest[k] == list[k + 1]);
        }
        lemma_with_venue_at(rest, exchange, raw, i - 1);
        assert(seq![list[0]] + rest.update(i - 1, (exchange, raw)) =~= list.update(i, (exchange, raw)));
    }
}

proof fn lemma_with_venue_absent(list: Seq<(Seq<char>, Seq<char>)>, exchange: Seq<char>, raw: Seq<char>)
    requires
        forall|k: int| 0 <= k < list.len() ==> list[k].0 != exchange,
    ensures
        with_venue(list, exchange, raw) == list.push((exchange, raw)),
    decreases list.len(),
{
    if list.len() > 0 {
        let rest = list.drop_first();
        assert forall|k: int| 0 <= k < rest.len() implies rest[k].0 != exchange by {
            assert(rest[k] == list[k + 1]);
        }
        lemma_with_venue_absent(rest, exchange, raw);
        assert(seq![list[0]] + rest.push((exchange, raw)) =~= list.push((exchange, raw)));
    } else {
        assert(seq![(exchange, raw)] =~= list.push((exchange, raw)));
    }
}

proof fn lemma_with_venue_twice(list: Seq<(Seq<char>, Seq<char>)>, exchange: Seq<char>, raw: Seq<char>)
    ensures
        with_venue(with_venue(list, exchange, raw), exchange, raw) == with_venue(list, exchange, raw),
    decreases list.len(),
{
    let once = with_venue(list, exchange, raw);
    if list.len() == 0 {
        assert(once.update(0, (exchange, raw)) =~= once);
    } else if list[0].0 == exchange {
        assert(once.update(0, (exchange, raw)) =~= once);
    } else {
        let rest = list.drop_first();
        lemma_with_venue_twice(rest, exchange, raw);
        assert(once[0] == list[0]);
        assert(once.drop_first() =~= with_venue(rest, exchange, raw));
    }
}

proof fn lemma_with_venue_distinct(list: Seq<(Seq<char>, Seq<char>)>, exchange: Seq<char>, raw: Seq<char>)
    requires
        distinct_venues(list),
    ensures
        distinct_venues(with_venue(list, exchange, raw)),
{
    if exists|i: int| 0 <= i < list.len() && list[i].0 == exchange {
        let i = choose|i: int| 0 <= i < list.len() && list[i].0 == exchange;
        assert forall|k: int| 0 <= k < i implies list[k].0 != exchange by {}
        lemma_with_venue_at(list, exchange, raw, i);
    } else {
        lemma_with_venue_absent(list, exchange, raw);
    }
}

proof fn lemma_register_keeps_agreement(
    symbols: Map<(Seq<char>, Seq<char>), Seq<char>>,
    venues: Map<Seq<char>, Seq<(Seq<char>, Seq<char>)>>,
    exchange: Seq<char>,
    raw: Seq<char>,
)
    requires
        indices_agree(symbols, venues),
        forall|k: (Seq<char>, Seq<char>)| #[trigger] symbols.contains_key(k) ==> symbols[k] == normalized_name(k.1),
    ensures
        indices_agree(register_symbols(symbols, exchange, raw), register_venues(venues, exchange, raw)),
{
    let n = normalized_name(raw);
    let s2 = register_symbols(symbols, exchange, raw);
    let v2 = register_venues(venues, exchange, raw);
    let old_list = venues_of(venues, n);
    let w = with_venue(old_list, exchange, raw);
    lemma_with_venue_members(old_list, exchange, raw);
    assert(v2[n] == w);
    assert forall|m: Seq<char>, j: int| v2.contains_key(m) && 0 <= j < v2[m].len() implies s2.contains_key(
        #[trigger] v2[m][j],
    ) && s2[v2[m][j]] == m by {
        if m == n {
            if w[j] != (exchange, raw) {
                assert(j < old_list.len() && w[j] == old_list[j]);
                assert(venues.contains_key(n));
                assert(symbols.contains_key(venues[n][j]) && symbols[venues[n][j]] == n);
            }
        } else {
            assert(v2[m] == venues[m]);
            assert(symbols.contains_key(venues[m][j]) && symbols[venues[m][j]] == m);
            if venues[m][j] == (exchange, raw) {
                assert(symbols[(exchange, raw)] == normalized_name(raw));
            }
        }
    }
    assert forall|k: (Seq<char>, Seq<char>)| #[trigger] s2.contains_key(k) implies v2.contains_key(s2[k])
        && exists|j: int| 0 <= j < v2[s2[k]].len() && v2[s2[k]][j].0 == k.0 by {
        if k == (exchange, raw) {
            let j = choose|j: int| 0 <= j < w.len() && #[trigger] w[j] == (exchange, raw);
            assert(v2[s2[k]][j].0 == k.0);
        } else {
            assert(symbols.contains_key(k));
            let m = symbols[k];
            let j = choose|j: int| 0 <= j < venues[m].len() && venues[m][j].0 == k.0;
            if m == n {
                assert(old_list == venues[m]);
                assert(w[j].0 == old_list[j].0);
                assert(v2[s2[k]][j].0 == k.0);
            } else {
                assert(v2[m] == venues[m]);
                assert(v2[s2[k]][j].0 == k.0);
            }
        }
    }
}

/// Registering the same venue symbol twice leaves both indices as registering
/// it once does, and the symbol index gains no key but `(exchange, raw)`.
pub proof fn lemma_register_idempotent(
    symbols: Map<(Seq<char>, Seq<char>), Seq<char>>,
    venues: Map<Seq<char>, Seq<(Seq<char>, Seq<char>)>>,
    exchange: Seq<char>,
    raw: Seq<char>,
)
    ensures
        register_symbols(register_symbols(symbols, exchange, raw), exchange, raw) == register_symbols(
            symbols,
            exchange,
            raw,
        ),
        register_venues(register_venues(venues, exchange, raw), exchange, raw) == register_venues(
            venues,
            exchange,
            raw,
        ),
        register_symbols(symbols, exchange, raw).dom() == symbols.dom().insert((exchange, raw)),
        register_symbols(symbols, exchange, raw)[(exchange, raw)] == normalized_name(raw),
{
    let n = normalized_name(raw);
    let once = register_venues(venues, exchange, raw);
    lemma_with_venue_twice(venues_of(venues, n), exchange, raw);
    assert(venues_of(once, n) == with_venue(venues_of(venues, n), exchange, raw));
    assert(register_venues(once, exchange, raw) =~= once);
    assert(register_symbols(register_symbols(symbols, exchange, raw), exchange, raw) =~= register_symbols(
        symbols,
        exchange,
        raw,
    ));
    assert(register_symbols(symbols, exchange, raw).dom() =~= symbols.dom().insert((exchange, raw)));
}

fn with_venue_exec(entries: Vec<(String, String)>, exchange: &str, raw: &str) -> (r: Vec<(String, String)>)
    ensures
        r.deep_view() == with_venue(entries.deep_view(), exchange@, raw@),
{
    let ghost start = entries.deep_view();
    let mut list = entries;
    let n = list.len();
    let mut i: usize = 0;
    let mut found = false;
    while i < n
        invariant_except_break
            !found,
        invariant
            n == list.len(),
            i <= n,
            list.deep_view() == start,
            forall|k: int| 0 <= k < i ==> start[k].0 != exchange@,
        ensures
            found ==> i < n && start[i as int].0 == exchange@,
            !found ==> i == n,
        decreases n - i,
    {
        if str_eq(list[i].0.as_str(), exchange) {
            assert(start[i as int].0 == exchange@);
            found = true;
            break;
        }
        i = i + 1;
    }
    if found {
        proof {
            lemma_with_venue_at(start, exchange@, raw@, i as int);
        }
        list.set(i, (String::from_str(exchange), String::from_str(raw)));
        assert(list.deep_view() =~= start.update(i as int, (exchange@, raw@)));
    } else {
        proof {
            lemma_with_venue_absent(start, exchange@, raw@);
        }
        list.push((String::from_str(exchange), String::from_str(raw)));
        assert(list.deep_view() =~= start.push((exchange@, raw@)));
    }
    list
}

/// Maps venue symbols to canonical `BASE/QUOTE` names and back.
pub struct TickerMatcher {
    /// `(exchange, venue symbol)` to canonical name.
    to_normalized: SymbolIndex,
    /// Canonical name to the `(exchange, venue symbol)` pairs that carry it.
    to_exchange: VenueIndex,
}

impl TickerMatcher {
    /// The canonical name of each registered `(exchange, venue symbol)`.
    pub closed spec fn symbols(&self) -> Map<(Seq<char>, Seq<char>), Seq<char>> {
        symbol_index_contents(self.to_normalized)
    }

    /// For each canonical name, the exchanges that carry it with their venue symbols.
    pub closed spec fn venues(&self) -> Map<Seq<char>, Seq<(Seq<char>, Seq<char>)>> {
        venue_index_contents(self.to_exchange)
    }

    /// Every registered venue symbol maps to its canonical name, each
    /// canonical name lists an exchange at most once, and the indices agree.
    pub open spec fn wf(&self) -> bool {
        &&& forall|k: (Seq<char>, Seq<char>)| #[trigger]
            self.symbols().contains_key(k) ==> self.symbols()[k] == normalized_name(k.1)
        &&& forall|n: Seq<char>| #[trigger]
            self.venues().contains_key(n) ==> distinct_venues(self.venues()[n])
        &&& indices_agree(self.symbols(), self.venues())
    }

    pub fn new() -> (r: Self)
        ensures
            r.wf(),
            r.symbols() == Map::<(Seq<char>, Seq<char>), Seq<char>>::empty(),
            r.venues() == Map::<Seq<char>, Seq<(Seq<char>, Seq<char>)>>::empty(),
    {
        TickerMatcher { to_normalized: symbol_index_new(), to_exchange: venue_index_new() }
    }

    /// The canonical name of a venue symbol, without registering it.
    pub fn normalize_symbol(&self, raw: &str) -> (r: String)
        ensures
            r@ == normalized_name(raw@),
    {
        let upper = to_upper(raw);
        normalize_upper_symbol(upper.as_str())
    }

    /// Records a venue symbol in both indices and returns its canonical name.
    pub fn register(&mut self, exchange: &str, exchange_symbol: &str) -> (r: String)
        requires
            old(self).wf(),
        ensures
            final(self).wf(),
            r@ == normalized_name(exchange_symbol@),
            final(self).symbols() == register_symbols(old(self).symbols(), exchange@, exchange_symbol@),
            final(self).venues() == register_venues(old(self).venues(), exchange@, exchange_symbol@),
    {
        let normalized = self.normalize_symbol(exchange_symbol);
        symbol_index_insert(&mut self.to_normalized, exchange, exchange_symbol, normalized.clone());
        let list = match venue_index_get(&self.to_exchange, normalized.as_str()) {
            Some(l) => l,
            None => Vec::new(),
        };
        assert(list.deep_view() =~= venues_of(old(self).venues(), normalized@));
        proof {
            if old(self).venues().contains_key(normalized@) {
                assert(distinct_venues(old(self).venues()[normalized@]));
            }
            lemma_with_venue_distinct(list.deep_view(), exchange@, exchange_symbol@);
        }
        let updated = with_venue_exec(list, exchange, exchange_symbol);
        venue_index_insert(&mut self.to_exchange, normalized.clone(), updated);
        proof {
            assert forall|n: Seq<char>| #[trigger] self.venues().contains_key(n) implies distinct_venues(
                self.venues()[n],
            ) by {
                if n != normalized@ {
                    assert(old(self).venues().contains_key(n));
                }
            }
            assert forall|k: (Seq<char>, Seq<char>)| #[trigger] self.symbols().contains_key(k) implies self.symbols()[k]
                == normalized_name(k.1) by {
                if k != (exchange@, exchange_symbol@) {
                    assert(old(self).symbols().contains_key(k));
                }
            }
            lemma_register_keeps_agreement(old(self).symbols(), old(self).venues(), exchange@, exchange_symbol@);
        }
        normalized
    }

    /// The canonical name registered for a venue symbol, if any.
    pub fn get_normalized(&self, exchange: &str, exchange_symbol: &str) -> (r: Option<String>)
        ensures
            r is Some == self.symbols().contains_key((exchange@, exchange_symbol@)),
            r matches Some(n) ==> n@ == self.symbols()[(exchange@, exchange_symbol@)],
    {
        symbol_index_get(&self.to_normalized, exchange, exchange_symbol)
    }

    /// The exchanges that carry a canonical name, in the order they were first registered.
    pub fn get_exchanges_for_symbol(&self, normalized: &str) -> (r: Vec<String>)
        ensures
            r@.len() == venues_of(self.venues(), normalized@).len(),
            forall|i: int|
                0 <= i < r@.len() ==> #[trigger] r@[i]@ == venues_of(self.venues(), normalized@)[i].0,
    {
        let list = match venue_index_get(&self.to_exchange, normalized) {
            Some(l) => l,
            None => Vec::new(),
        };
        let ghost lv = list.deep_view();
        assert(lv =~= venues_of(self.venues(), normalized@));
        let mut out: Vec<String> = Vec::new();
        let mut i: usize = 0;
        while i < list.len()
            invariant
                i <= list.len(),
                lv == list.deep_view(),
                out@.len() == i,
                forall|k: int| 0 <= k < i ==> #[trigger] out@[k]@ == lv[k].0,
            decreases list.len() - i,
        {
            out.push(list[i].0.clone());
            i = i + 1;
        }
        out
    }

    /// The canonical names carried by at least two exchanges, each once.
    pub fn get_arbitrageable_symbols(&self) -> (r: Vec<String>)
        requires
            self.wf(),
        ensures
            forall|i: int| 0 <= i < r@.len() ==> {
                &&& self.venues().contains_key(#[trigger] r@[i]@)
                &&& self.venues()[r@[i]@].len() >= 2
            },
            forall|i: int, j: int| 0 <= i < j < r@.len() ==> r@[i]@ != r@[j]@,
            forall|n: Seq<char>|
                #[trigger] self.venues().contains_key(n) && self.venues()[n].len() >= 2 ==> exists|i: int|
                    0 <= i < r@.len() && r@[i]@ == n,
    {
        let entries = venue_index_entries(&self.to_exchange);
        let mut out: Vec<String> = Vec::new();
        let mut i: usize = 0;
        while i < entries.len()
            invariant
                i <= entries.len(),
                forall|k: int| 0 <= k < entries@.len() ==> {
                    &&& self.venues().contains_key(#[trigger] entries@[k].0@)
                    &&& self.venues()[entries@[k].0@] == entries@[k].1.deep_view()
                },
                forall|a: int, b: int| 0 <= a < b < entries@.len() ==> entries@[a].0@ != entries@[b].0@,
                forall|k: int| 0 <= k < out@.len() ==> {
                    &&& self.venues().contains_key(#[trigger] out@[k]@)
                    &&& self.venues()[out@[k]@].len() >= 2
                },
                forall|k: int| 0 <= k < out@.len() ==> exists|a: int| 0 <= a < i && #[trigger] out@[k]@ == entries@[a].0@,
                forall|a: int, b: int| 0 <= a < b < out@.len() ==> out@[a]@ != out@[b]@,
                forall|a: int| 0 <= a < i && #[trigger] entries@[a].1@.len() >= 2 ==> exists|k: int|
                    0 <= k < out@.len() && out@[k]@ == entries@[a].0@,
            decreases entries.len() - i,
        {
            if entries[i].1.len() >= 2 {
                let ghost before = out@;
                out.push(entries[i].0.clone());
                proof {
                    assert(out@[out@.len() - 1]@ == entries@[i as int].0@);
                    assert forall|k: int| 0 <= k < out@.len() implies exists|a: int| 0 <= a < i + 1 && #[trigger] out@[k]@ == entries@[a].0@ by {
                        if k < before.len() {
                            assert(out@[k] == before[k]);
                        } else {
                            assert(out@[k]@ == entries@[i as int].0@);
                        }
                    }
                    assert forall|a: int, b: int| 0 <= a < b < out@.len() implies out@[a]@ != out@[b]@ by {
                        if b == out@.len() - 1 {
                            assert(out@[a] == before[a]);
                        }
                    }
                    assert forall|a: int| 0 <= a < i + 1 && #[trigger] entries@[a].1@.len() >= 2 implies exists|k: int|
                        0 <= k < out@.len() && out@[k]@ == entries@[a].0@ by {
                        if a < i {
                            let k = choose|k: int| 0 <= k < before.len() && before[k]@ == entries@[a].0@;
                            assert(out@[k] == before[k]);
                        } else {
                            assert(out@[out@.len() - 1]@ == entries@[a].0@);
                        }
                    }
                }
            }
            i = i + 1;
        }
        proof {
            assert forall|n: Seq<char>|
                #[trigger] self.venues().contains_key(n) && self.venues()[n].len() >= 2 implies exists|i: int|
                    0 <= i < out@.len() && out@[i]@ == n by {
                let a = choose|a: int| 0 <= a < entries@.len() && entries@[a].0@ == n;
                assert(entries@[a].1.deep_view().len() == entries@[a].1@.len());
            }
        }
        out
    }

    /// Number of canonical names known to the matcher.
    pub fn symbol_count(&self) -> (r: usize)
        ensures
            r == self.venues().dom().len(),
    {
        let entries = venue_index_entries(&self.to_exchange);
        proof {
            let keys = entries@.map_values(|e: (String, Vec<(String, String)>)| e.0@);
            assert(keys.to_set() =~= self.venues().dom()) by {
                assert forall|n: Seq<char>| self.venues().dom().contains(n) implies keys.to_set().contains(n) by {
                    let a = choose|a: int| 0 <= a < entries@.len() && entries@[a].0@ == n;
                    assert(keys[a] == n);
                }
            }
            assert(keys.no_duplicates());
            keys.unique_seq_to_set();
        }
        entries.len()
    }
}

} // verus!
