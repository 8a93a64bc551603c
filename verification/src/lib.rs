//! Ticker-data acquisition for a stock watchlist service.
//!
//! The crate holds the decisions of the service: which history request is
//! made for which purpose, what becomes of each answer of the quote
//! provider, how a bar series is projected to its closing prices, and how the
//! watchlist changes. Talking to the provider and to HTTP clients is left to
//! the program around it.

pub mod acquisition;
pub mod bars;
pub mod watchlist;

pub use acquisition::{
    pull_ticker_data_lt, pull_ticker_data_st, validate_ticker, BatchFetch, HistoryRequest,
    Horizon, Interval, ProviderError,
};
pub use bars::{unpack_bars_close, Bar};
pub use watchlist::{hello, AddOutcome, RemoveOutcome, Watchlist};
