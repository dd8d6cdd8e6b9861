//! Market data acquisition, caching, and streaming indicator pipeline.
//!
//! The library normalizes ticker symbols, fetches quotes and bar data from
//! several upstream providers in priority order, caches successful results
//! under a time-to-live, and derives MACD trend indicators and trade signals
//! from price series using fixed-point decimal arithmetic.

pub mod analysis;
pub mod api;
pub mod app_core;
pub mod cache;
pub mod config;
pub mod dates;
pub mod errors;
pub mod executor;
pub mod fetch;
pub mod fixed;
pub mod http;
pub mod indicators;
pub mod json;
pub mod providers;
pub mod sim;
pub mod strconv;
pub mod models;
pub mod symbol;
pub mod text;
