//! Time-weighted average price estimation from a list of trades.
//!
//! Trades are split into fixed-width time buckets anchored at a reference
//! instant, each bucket is reduced to an open/high/low/close candle, empty
//! buckets are repaired from their neighbours, and the repaired candles are
//! averaged into a single price.
//!
//! Prices are fixed-point integers (ticks) and times are milliseconds since
//! the epoch; the caller picks the tick size.

pub mod bucket;
pub mod candle;
pub mod config;
pub mod market;
pub mod smooth;
pub mod twap;

pub use bucket::{bucket_of, bucketize, build_candle, build_candles, group_for_bucket, MarketData};
pub use candle::{Prices, OHLC};
pub use config::{normalize_symbol, window_plan, ConfigError};
pub use market::MarketResponse;
pub use smooth::smooth_candles;
pub use twap::{aggregate_twap, calculate_twap, direct_twap, AggregationError};
