//! Detection settings as plain values. Prices, ratios, multipliers and
//! percentages are fixed-point with `PRICE_SCALE` ticks per unit (a ratio of
//! 1.02 is `102_000_000`, one percent is `1_000_000`).
use vstd::prelude::*;

verus! {

#[derive(Clone, Debug)]
pub struct ApiConfig {
    pub base_rest_url: String,
    pub base_ws_url: String,
}

#[derive(Clone, Debug)]
pub struct GeneralConfig {
    pub symbols: Vec<String>,
    pub log_dir: String,
    pub poll_interval_ms: u64,
}

#[derive(Clone, Copy, Debug, PartialEq, Eq, Structural)]
pub struct CooldownConfig {
    pub per_symbol_seconds: u64,
}

#[derive(Clone, Copy, Debug, PartialEq, Eq, Structural)]
pub struct OrderbookConfig {
    pub max_levels: usize,
    pub depth_band_pct: u64,
    /// Minimum notional depth, in price ticks.
    pub min_thick_depth_usdt: u64,
    pub max_spread_pct: u64,
}

#[derive(Clone, Copy, Debug, PartialEq, Eq, Structural)]
pub struct Strategy1Config {
    pub enabled: bool,
    pub spread_ratio_min: u64,
    pub min_abs_diff: u64,
    pub min_price: u64,
}

#[derive(Clone, Copy, Debug, PartialEq, Eq, Structural)]
pub struct Strategy2Config {
    pub enabled: bool,
    pub spread_ratio_min: u64,
    pub spike_lookback_secs: u64,
    pub spike_ratio_min: u64,
    pub min_price: u64,
}

#[derive(Clone, Copy, Debug, PartialEq, Eq, Structural)]
pub struct Strategy3Config {
    pub enabled: bool,
    pub spread_ratio_min: u64,
    pub baseline_window_secs: u64,
    pub pump_vs_baseline_min: u64,
    pub mark_stability_max: u64,
    pub min_price: u64,
}

#[derive(Clone, Copy, Debug, PartialEq, Eq, Structural)]
pub struct Strategy4Config {
    pub enabled: bool,
    pub spread_ratio_min: u64,
    pub min_abs_diff: u64,
    pub min_price: u64,
}

#[derive(Clone, Copy, Debug, PartialEq, Eq, Structural)]
pub struct Strategy5Config {
    pub enabled: bool,
    pub min_price: u64,
}

/// Chart recording: whether it is on, how much history seeds a capture and
/// how long capture continues after an episode ends.
#[derive(Clone, Debug)]
pub struct CsvExportConfig {
    pub enabled: bool,
    pub charts_dir: String,
    pub pre_anomaly_buffer_secs: i64,
    pub post_anomaly_recording_secs: i64,
}

#[derive(Clone, Debug)]
pub struct Config {
    pub api: ApiConfig,
    pub general: GeneralConfig,
    pub cooldowns: CooldownConfig,
    pub orderbook: OrderbookConfig,
    pub strategy1: Strategy1Config,
    pub strategy2: Strategy2Config,
    pub strategy3: Strategy3Config,
    pub strategy4: Strategy4Config,
    pub strategy5: Strategy5Config,
    pub csv_export: CsvExportConfig,
}

} // verus!
