//! Streaming analytics for pump-anomaly detection on an exchange feed:
//! candle downsampling with gap fill, per-symbol state, episode tracking
//! with cooldown, the detection rules, and the chart-recording lifecycle.
//!
//! Prices, quantities, ratios and percentages are fixed-point integers with
//! `orderbook::PRICE_SCALE` ticks per unit; times are milliseconds since the
//! Unix epoch.
pub mod candle;
pub mod clock;
pub mod config;
pub mod decimal;
pub mod detection;
pub mod dispatch;
pub mod episode;
pub mod feed;
pub mod market;
pub mod orderbook;
pub mod recording;
pub mod text;
