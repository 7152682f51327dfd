//! The matching and book-keeping core of a central-limit-order-book exchange: market
//! configuration and fees, oracle prices, a bounded order book with fixed and oracle-pegged
//! orders, price-time matching, an event queue that defers maker settlement, and the
//! per-account ledger.

pub mod account;
pub mod book;
pub mod client;
pub mod decimal;
pub mod engine;
pub mod error;
pub mod events;
pub mod market;
pub mod matching;
pub mod oracle;
pub mod pubkey;
