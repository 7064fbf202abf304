//! A simulated exchange: an account that market orders are settled against, and an order book
//! kept in price and time priority.

pub mod account;
pub mod book;
pub mod decimal;
pub mod error;
pub mod exchange;
pub mod grouping;
pub mod instrument;
pub mod keyed;
pub mod names;
pub mod order;
pub mod snapshot;
pub mod text;
pub mod time;
