//! Cross-exchange arbitrage scanning: decimal prices, symbol normalization
//! and the matcher's indices, the conversion of venue tickers to updates, a
//! latest-price table with spread detection and a per-opportunity cooldown,
//! and how opportunities are presented. Beside it, a single-issuer token
//! ledger with signed, chained blocks.
pub mod text;
pub mod decimal;
pub mod tables;
pub mod matcher;
pub mod exchanges;
pub mod config;
pub mod scanner;
pub mod notifier;
pub mod errors;
pub mod crypto;
pub mod model;
pub mod chain;
pub mod storage;
