//! The concurrent hash maps of `dashmap` that hold the matcher's indices and
//! the scanner's tables.
//!
//! Each table is one instantiation of `DashMap`; what it holds is named by a
//! spec function over the map, and each operation that the library uses has
//! a wrapper stating how it changes or reads those contents. Every wrapper
//! that changes a table takes it by `&mut`, so a table is never changed
//! behind a shared borrow.
use vstd::prelude::*;
use dashmap::DashMap;
use crate::exchanges::PriceUpdate;

verus! {

#[verifier::external_type_specification]
#[verifier::external_body]
#[verifier::reject_recursive_types(K)]
#[verifier::reject_recursive_types(V)]
#[verifier::reject_recursive_types(S)]
pub struct ExDashMap<K, V, S>(DashMap<K, V, S>);

/// `(exchange, venue symbol)` to canonical name.
pub type SymbolIndex = DashMap<(String, String), String>;

/// Canonical name to its `(exchange, venue symbol)` list.
pub type VenueIndex = DashMap<String, Vec<(String, String)>>;

/// The keys `(exchange, venue symbol)` and canonical names that a symbol index holds.
pub uninterp spec fn symbol_index_contents(m: SymbolIndex) -> Map<
    (Seq<char>, Seq<char>),
    Seq<char>,
>;

/// Relies on `DashMap::new`: a new map is empty.
#[verifier::external_body]
pub fn symbol_index_new() -> (r: SymbolIndex)
    ensures
        symbol_index_contents(r) =~= Map::empty(),
{
    DashMap::new()
}

/// Relies on `DashMap::insert`: the key now maps to the value, other keys are kept.
#[verifier::external_body]
pub fn symbol_index_insert(m: &mut SymbolIndex, exchange: &str, raw: &str, normalized: String)
    ensures
        symbol_index_contents(*final(m)) == symbol_index_contents(*old(m)).insert(
            (exchange@, raw@),
            normalized@,
        ),
{
    m.insert((exchange.to_string(), raw.to_string()), normalized);
}

/// Relies on `DashMap::get`: the value under the key, if any.
#[verifier::external_body]
pub fn symbol_index_get(m: &SymbolIndex, exchange: &str, raw: &str) -> (r:
    Option<String>)
    ensures
        r is Some == symbol_index_contents(*m).contains_key((exchange@, raw@)),
        r matches Some(v) ==> v@ == symbol_index_contents(*m)[(exchange@, raw@)],
{
    m.get(&(exchange.to_string(), raw.to_string())).map(|e| e.value().clone())
}

/// The canonical names and their `(exchange, venue symbol)` lists that a venue index holds.
pub uninterp spec fn venue_index_contents(m: VenueIndex) -> Map<
    Seq<char>,
    Seq<(Seq<char>, Seq<char>)>,
>;

/// Relies on `DashMap::new`: a new map is empty.
#[verifier::external_body]
pub fn venue_index_new() -> (r: VenueIndex)
    ensures
        venue_index_contents(r) =~= Map::empty(),
{
    DashMap::new()
}

/// Relies on `DashMap::insert`: the key now maps to the value, other keys are kept.
#[verifier::external_body]
pub fn venue_index_insert(m: &mut VenueIndex, key: String, value: Vec<(String, String)>)
    ensures
        venue_index_contents(*final(m)) == venue_index_contents(*old(m)).insert(
            key@,
            value.deep_view(),
        ),
{
    m.insert(key, value);
}

/// Relies on `DashMap::get`: a copy of the value under the key, if any.
#[verifier::external_body]
pub fn venue_index_get(m: &VenueIndex, key: &str) -> (r: Option<
    Vec<(String, String)>,
>)
    ensures
        r is Some == venue_index_contents(*m).contains_key(key@),
        r matches Some(v) ==> v.deep_view() == venue_index_contents(*m)[key@],
{
    m.get(key).map(|e| e.value().clone())
}

/// Relies on `DashMap::iter`: every entry once, in an order that the map chooses.
#[verifier::external_body]
pub fn venue_index_entries(m: &VenueIndex) -> (r: Vec<
    (String, Vec<(String, String)>),
>)
    ensures
        forall|i: int|
            0 <= i < r@.len() ==> {
                &&& venue_index_contents(*m).contains_key(#[trigger] r@[i].0@)
                &&& venue_index_contents(*m)[r@[i].0@] == r@[i].1.deep_view()
            },
        forall|i: int, j: int| 0 <= i < j < r@.len() ==> r@[i].0@ != r@[j].0@,
        forall|k: Seq<char>|
            #[trigger] venue_index_contents(*m).contains_key(k) ==> exists|i: int|
                0 <= i < r@.len() && r@[i].0@ == k,
{
    m.iter().map(|e| (e.key().clone(), e.value().clone())).collect()
}

/// Canonical name to the latest update of each exchange that quotes it.
pub type PriceTable = DashMap<String, Vec<PriceUpdate>>;

/// `(symbol, buy exchange, sell exchange)` to the time of the last alert.
pub type AlertTable = DashMap<(String, String, String), i64>;

/// The rows of a price table.
pub uninterp spec fn price_table_contents(m: PriceTable) -> Map<Seq<char>, Seq<PriceUpdate>>;

/// Relies on `DashMap::new`: a new map is empty.
#[verifier::external_body]
pub fn price_table_new() -> (r: PriceTable)
    ensures
        price_table_contents(r) =~= Map::empty(),
{
    DashMap::new()
}

/// Relies on `DashMap::insert`: the key now maps to the value, other keys are kept.
#[verifier::external_body]
pub fn price_table_insert(m: &mut PriceTable, key: String, row: Vec<PriceUpdate>)
    ensures
        price_table_contents(*final(m)) == price_table_contents(*old(m)).insert(key@, row@),
{
    m.insert(key, row);
}

/// Relies on `DashMap::remove`: takes the value under the key out of the map.
#[verifier::external_body]
pub fn price_table_remove(m: &mut PriceTable, key: &str) -> (r: Option<Vec<PriceUpdate>>)
    ensures
        r is Some == price_table_contents(*old(m)).contains_key(key@),
        r matches Some(v) ==> v@ == price_table_contents(*old(m))[key@],
        price_table_contents(*final(m)) == price_table_contents(*old(m)).remove(key@),
{
    m.remove(key).map(|(_, v)| v)
}

/// Relies on `DashMap::len`: the number of keys.
#[verifier::external_body]
pub fn price_table_len(m: &PriceTable) -> (r: usize)
    ensures
        r == price_table_contents(*m).dom().len(),
{
    m.len()
}

/// The last alert times that an alert table holds.
pub uninterp spec fn alert_table_contents(m: AlertTable) -> Map<(Seq<char>, Seq<char>, Seq<char>), i64>;

/// Relies on `DashMap::new`: a new map is empty.
#[verifier::external_body]
pub fn alert_table_new() -> (r: AlertTable)
    ensures
        alert_table_contents(r) =~= Map::empty(),
{
    DashMap::new()
}

/// Relies on `DashMap::insert`: the key now maps to the value, other keys are kept.
#[verifier::external_body]
pub fn alert_table_insert(m: &mut AlertTable, symbol: &str, buy: &str, sell: &str, at: i64)
    ensures
        alert_table_contents(*final(m)) == alert_table_contents(*old(m)).insert(
            (symbol@, buy@, sell@),
            at,
        ),
{
    m.insert((symbol.to_string(), buy.to_string(), sell.to_string()), at);
}

/// Relies on `DashMap::get`: the value under the key, if any.
#[verifier::external_body]
pub fn alert_table_get(m: &AlertTable, symbol: &str, buy: &str, sell: &str) -> (r: Option<i64>)
    ensures
        r is Some == alert_table_contents(*m).contains_key((symbol@, buy@, sell@)),
        r matches Some(v) ==> v == alert_table_contents(*m)[(symbol@, buy@, sell@)],
{
    m.get(&(symbol.to_string(), buy.to_string(), sell.to_string())).map(|e| *e.value())
}

} // verus!
