use pump_detector::config::{
    OrderbookConfig, Strategy1Config, Strategy2Config, Strategy3Config, Strategy4Config, Strategy5Config,
};
use pump_detector::detection::{Strategy1, Strategy2, Strategy3, Strategy4, Strategy5, Verdict};
use pump_detector::market::SymbolData;
use pump_detector::orderbook::{OrderbookLevel, ProcessedOrderbook};

const U: u64 = 100_000_000;

fn data_with(last: u64, mark: u64, t: u64) -> SymbolData {
    let mut d = SymbolData::new("PUMP_USDT".to_string());
    d.update_mark_price(mark, t);
    d.update_last_price(last, t);
    d
}

fn s1(enabled: bool) -> Strategy1 {
    let cfg = Strategy1Config { enabled, spread_ratio_min: 102_000_000, min_abs_diff: 1_000_000, min_price: U };
    Strategy1::new(cfg, 60, false, 10)
}

#[test]
fn strategy1_spread_example() {
    let mut s = s1(true);
    let d = data_with(1_030_000_000, 1_000_000_000, 1_000);
    let out = s.detector.check_at(&d, 1_000);
    assert_eq!(out.verdict, Verdict::Met);
    assert!(out.started);
    assert!(out.closed.is_none());

    let mut s = s1(true);
    let d = data_with(1_019_000_000, 1_000_000_000, 1_000);
    let out = s.detector.check_at(&d, 1_000);
    assert_eq!(out.verdict, Verdict::NotMet);
    assert!(!out.started);
}

#[test]
fn strategy1_closes_when_spread_fades() {
    let mut s = s1(true);
    let d = data_with(1_030_000_000, 1_000_000_000, 1_000);
    assert!(s.detector.check_at(&d, 1_000).started);
    let d = data_with(1_000_000_000, 1_000_000_000, 2_000);
    let out = s.detector.check_at(&d, 2_000);
    let e = out.closed.expect("episode closes");
    assert_eq!(e.start_time_ms, 1_000);
    assert_eq!(e.peak_ratio, 103_000_000);
    assert_eq!(e.peak_last_price, 1_030_000_000);
    assert_eq!(e.last_cooldown_end, Some(62_000));
}

#[test]
fn strategy_below_min_price_or_disabled_is_a_miss() {
    let mut s = s1(true);
    let d = data_with(50_000_000, 40_000_000, 0);
    assert_eq!(s.detector.check_at(&d, 0).verdict, Verdict::NotMet);
    let mut s = s1(false);
    let d = data_with(1_030_000_000, 1_000_000_000, 0);
    let out = s.detector.check_at(&d, 0);
    assert_eq!(out.verdict, Verdict::NotMet);
    assert!(!out.started);
}

#[test]
fn missing_price_is_a_miss_and_closes_an_open_episode() {
    let mut s = s1(true);
    let mut d = SymbolData::new("X".to_string());
    d.update_last_price(1_030_000_000, 0);
    assert_eq!(s.detector.check_at(&d, 0).verdict, Verdict::NotMet);
    let d = data_with(1_030_000_000, 1_000_000_000, 0);
    let mut s = s1(true);
    assert!(s.detector.check_at(&d, 0).started);
    let mut lone = SymbolData::new("PUMP_USDT".to_string());
    lone.update_last_price(1_030_000_000, 10);
    let out = s.detector.check_at(&lone, 10);
    assert_eq!(out.verdict, Verdict::NotMet);
    assert_eq!(out.closed.map(|e| e.peak_ratio), Some(103_000_000));
}

#[test]
fn strategy2_needs_history_then_checks_spike() {
    let cfg = Strategy2Config {
        enabled: true,
        spread_ratio_min: 101_000_000,
        spike_lookback_secs: 5,
        spike_ratio_min: 105_000_000,
        min_price: 0,
    };
    let mut s = Strategy2::new(cfg, 30, false, 0);
    let mut d = data_with(1_000_000_000, 1_000_000_000, 10_000);
    // Spread below threshold: a miss, whatever the history.
    assert_eq!(s.detector.check_at(&d, 10_000).verdict, Verdict::NotMet);
    d.update_last_price(1_100_000_000, 12_000);
    // Nothing is five seconds old yet.
    assert_eq!(s.detector.check_at(&d, 12_000).verdict, Verdict::Deferred);
    // At 16 s the snapshot from 10 s (price 10.0) is the reference: 11/10 >= 1.05.
    let out = s.detector.check_at(&d, 16_000);
    assert_eq!(out.verdict, Verdict::Met);
    assert!(out.started);
}

#[test]
fn strategy3_baseline_pump_with_stable_mark() {
    let cfg = Strategy3Config {
        enabled: true,
        spread_ratio_min: 101_000_000,
        baseline_window_secs: 60,
        pump_vs_baseline_min: 102_000_000,
        mark_stability_max: 1_000_000,
        min_price: 0,
    };
    let mut s = Strategy3::new(cfg, 30, false, 0);
    let mut d = data_with(1_000_000_000, 1_000_000_000, 1_000);
    d.update_last_price(1_000_000_000, 2_000);
    d.update_last_price(1_100_000_000, 3_000);
    // Baseline last = (10 + 10 + 11) / 3; 11 over that is above 1.02; mark steady.
    let out = s.detector.check_at(&d, 3_000);
    assert_eq!(out.verdict, Verdict::Met);
    // With a window that holds nothing, the strategy defers.
    let cfg = Strategy3Config { baseline_window_secs: 0, ..cfg };
    let mut s = Strategy3::new(cfg, 30, false, 0);
    assert_eq!(s.detector.check_at(&d, 10_000).verdict, Verdict::Deferred);
}

fn book() -> ProcessedOrderbook {
    let lvl = |p: u64, q: u64| Some(OrderbookLevel { price: p * U, quantity: q * U });
    ProcessedOrderbook::from_raw(&vec![lvl(100, 2), lvl(99, 5)], &vec![lvl(101, 3), lvl(102, 1)], 20, 0)
}

fn ob_config(min_depth_units: u64, max_spread: u64) -> OrderbookConfig {
    OrderbookConfig { max_levels: 20, depth_band_pct: 1_000_000, min_thick_depth_usdt: min_depth_units * U, max_spread_pct: max_spread }
}

#[test]
fn strategy4_thick_book() {
    let cfg = Strategy4Config { enabled: true, spread_ratio_min: 101_000_000, min_abs_diff: 0, min_price: 0 };
    let mut s = Strategy4::new(cfg, ob_config(500, 2_000_000), 30, false, 0);
    let mut d = data_with(1_100_000_000, 1_000_000_000, 0);
    assert_eq!(s.detector.check_at(&d, 0).verdict, Verdict::Deferred);
    d.update_orderbook(book());
    assert_eq!(s.detector.check_at(&d, 0).verdict, Verdict::Met);
    // Depth 503 is short of 504.
    let mut s = Strategy4::new(cfg, ob_config(504, 2_000_000), 30, false, 0);
    assert_eq!(s.detector.check_at(&d, 0).verdict, Verdict::NotMet);
    // Spread of about 0.995% exceeds a 0.5% cap.
    let mut s = Strategy4::new(cfg, ob_config(1, 500_000), 30, false, 0);
    assert_eq!(s.detector.check_at(&d, 0).verdict, Verdict::NotMet);
}

#[test]
fn strategy5_needs_all_four() {
    let c1 = Strategy1Config { enabled: true, spread_ratio_min: 101_000_000, min_abs_diff: 0, min_price: 0 };
    let c2 = Strategy2Config { enabled: true, spread_ratio_min: 101_000_000, spike_lookback_secs: 1, spike_ratio_min: 100_000_000, min_price: 0 };
    let c3 = Strategy3Config {
        enabled: true,
        spread_ratio_min: 101_000_000,
        baseline_window_secs: 60,
        pump_vs_baseline_min: 100_000_000,
        mark_stability_max: 1_000_000,
        min_price: 0,
    };
    let c4 = Strategy4Config { enabled: true, spread_ratio_min: 101_000_000, min_abs_diff: 0, min_price: 0 };
    let c5 = Strategy5Config { enabled: true, min_price: 0 };
    let mut s = Strategy5::new(c5, c1, c2, c3, c4, ob_config(500, 2_000_000), 30, false, 0);
    let mut d = data_with(1_100_000_000, 1_000_000_000, 0);
    // No history a second old yet.
    assert_eq!(s.detector.check_at(&d, 500).verdict, Verdict::Deferred);
    // History is there, the book is not.
    assert_eq!(s.detector.check_at(&d, 2_000).verdict, Verdict::Deferred);
    d.update_orderbook(book());
    let out = s.detector.check_at(&d, 2_000);
    assert_eq!(out.verdict, Verdict::Met);
    assert!(out.started);
}

use pump_detector::dispatch::Notice;
use pump_detector::recording::CsvExporter;

#[test]
fn strategy1_check_records_a_capture() {
    let cfg = Strategy1Config { enabled: true, spread_ratio_min: 102_000_000, min_abs_diff: 1_000_000, min_price: U };
    let mut s = Strategy1::new(cfg, 60, true, 10);
    let mut e = CsvExporter::new(5);
    let mut d = SymbolData::new("X".to_string());
    d.update_mark_price(1_000_000_000, 0);
    d.update_last_price(1_000_000_000, 0);
    d.update_last_price(1_030_000_000, 600);
    let n = s.check_at(&d, &mut e, 600);
    assert_eq!(n.len(), 1);
    assert!(matches!(&n[0], Notice::Started { strategy, symbol } if strategy == "strategy1" && symbol == "X"));
    assert!(e.is_recording(&"X".to_string(), &"strategy1".to_string()));
    d.update_last_price(1_000_000_000, 1_200);
    let n = s.check(&d, &mut e);
    assert_eq!(n.len(), 2);
    assert!(matches!(&n[0], Notice::Ended { strategy, .. } if strategy == "strategy1"));
    assert!(matches!(&n[1], Notice::FinalizeDue { after_secs: 5, .. }));
    let session = e.finalize_recording(&"X".to_string(), &"strategy1".to_string(), None).unwrap();
    assert_eq!(session.last_price_candles.len(), 1);
    assert!(session.anomaly_ended.is_some());
}

#[test]
fn strategy4_check_records_a_capture() {
    let cfg = Strategy4Config { enabled: true, spread_ratio_min: 101_000_000, min_abs_diff: 0, min_price: 0 };
    let mut s = Strategy4::new(cfg, ob_config(500, 2_000_000), 30, true, 10);
    let mut e = CsvExporter::new(5);
    let mut d = data_with(1_100_000_000, 1_000_000_000, 0);
    d.update_orderbook(book());
    let n = s.check_at(&d, &mut e, 0);
    assert_eq!(n.len(), 1);
    assert!(e.is_recording(&"PUMP_USDT".to_string(), &"strategy4".to_string()));
}
