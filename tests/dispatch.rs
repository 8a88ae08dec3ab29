use pump_detector::config::{
    OrderbookConfig, Strategy1Config, Strategy2Config, Strategy3Config, Strategy4Config, Strategy5Config,
};
use pump_detector::detection::{Strategy1, Strategy2, Strategy3, Strategy4, Strategy5};
use pump_detector::dispatch::{handle_market_event, MarketEvent, Notice, Strategies};
use pump_detector::market::SymbolData;
use pump_detector::orderbook::ProcessedOrderbook;
use pump_detector::recording::CsvExporter;

fn strategies(record: bool) -> Strategies {
    let c1 = Strategy1Config { enabled: true, spread_ratio_min: 102_000_000, min_abs_diff: 1_000_000, min_price: 100_000_000 };
    let c2 = Strategy2Config { enabled: false, spread_ratio_min: 0, spike_lookback_secs: 0, spike_ratio_min: 0, min_price: 0 };
    let c3 = Strategy3Config {
        enabled: false,
        spread_ratio_min: 0,
        baseline_window_secs: 0,
        pump_vs_baseline_min: 0,
        mark_stability_max: 0,
        min_price: 0,
    };
    let c4 = Strategy4Config { enabled: false, spread_ratio_min: 0, min_abs_diff: 0, min_price: 0 };
    let c5 = Strategy5Config { enabled: false, min_price: 0 };
    let ob = OrderbookConfig { max_levels: 10, depth_band_pct: 0, min_thick_depth_usdt: 0, max_spread_pct: 0 };
    Strategies {
        strategy1: Strategy1::new(c1, 10, record, 5),
        strategy2: Strategy2::new(c2, 10, record, 5),
        strategy3: Strategy3::new(c3, 10, record, 5),
        strategy4: Strategy4::new(c4, ob, 10, record, 5),
        strategy5: Strategy5::new(c5, c1, c2, c3, c4, ob, 10, record, 5),
    }
}

fn ticker(symbol: &str, last: u64, mark: Option<u64>, t: u64) -> MarketEvent {
    MarketEvent::TickerUpdate { symbol: symbol.to_string(), last_price: last, mark_price: mark, timestamp_ms: t }
}

#[test]
fn episode_start_end_and_recording() {
    let mut data = SymbolData::new("PUMP".to_string());
    let mut s = strategies(true);
    let mut e = CsvExporter::new(30);
    let n = handle_market_event(ticker("PUMP", 1_000_000_000, Some(1_000_000_000), 0), &mut data, &mut s, &mut e, 0);
    assert!(n.is_empty());
    let n = handle_market_event(ticker("PUMP", 1_030_000_000, None, 600), &mut data, &mut s, &mut e, 600);
    assert_eq!(n.len(), 1);
    assert!(matches!(&n[0], Notice::Started { strategy, symbol } if strategy == "strategy1" && symbol == "PUMP"));
    assert!(e.is_recording(&"PUMP".to_string(), &"strategy1".to_string()));
    let n = handle_market_event(ticker("PUMP", 1_000_000_000, None, 1_200), &mut data, &mut s, &mut e, 1_200);
    assert_eq!(n.len(), 2);
    match &n[0] {
        Notice::Ended { strategy, episode, end_ms, log_line } => {
            assert_eq!(strategy, "strategy1");
            assert_eq!(episode.peak_ratio, 103_000_000);
            assert_eq!(*end_ms, 1_200);
            assert!(log_line.as_ref().unwrap().contains("PEAK_RATIO=1.0300"));
        }
        _ => panic!("expected the episode to end"),
    }
    assert!(matches!(&n[1], Notice::FinalizeDue { after_secs: 30, .. }));
    let session = e.finalize_recording(&"PUMP".to_string(), &"strategy1".to_string(), Some(&data.candle_buffer)).unwrap();
    assert_eq!(session.start_time_ms, 600);
    assert_eq!(session.anomaly_ended, Some(1_200));
    assert_eq!(session.last_price_candles.len(), 2);
}

#[test]
fn other_symbol_is_ignored_and_any_book_is_kept() {
    let mut data = SymbolData::new("PUMP".to_string());
    let mut s = strategies(false);
    let mut e = CsvExporter::new(30);
    let n = handle_market_event(ticker("OTHER", 1, Some(1), 0), &mut data, &mut s, &mut e, 0);
    assert!(n.is_empty());
    assert_eq!(data.current_last_price, None);
    let book = ProcessedOrderbook { bids: vec![], asks: vec![], timestamp_ms: 0 };
    handle_market_event(MarketEvent::OrderbookUpdate { symbol: "PUMP".to_string(), orderbook: book }, &mut data, &mut s, &mut e, 0);
    assert!(data.orderbook.is_some());
    let huge = pump_detector::orderbook::OrderbookLevel { price: u64::MAX, quantity: u64::MAX };
    let big = ProcessedOrderbook { bids: vec![huge], asks: vec![huge], timestamp_ms: 9 };
    handle_market_event(MarketEvent::OrderbookUpdate { symbol: "PUMP".to_string(), orderbook: big }, &mut data, &mut s, &mut e, 0);
    let ob = data.orderbook.as_ref().unwrap();
    assert_eq!(ob.timestamp_ms, 9);
    assert_eq!(ob.calculate_mid_price(), Some(u64::MAX));
    assert_eq!(ob.calculate_depth_in_band(1_000_000), u128::MAX);
    assert_eq!(ob.spread_exceeds(u64::MAX), Some(false));
}

#[test]
fn history_is_pruned_after_two_minutes() {
    let mut d = SymbolData::new("H".to_string());
    d.update_mark_price(10, 0);
    d.update_last_price(11, 0);
    d.update_last_price(12, 60_000);
    d.update_last_price(13, 120_001);
    assert_eq!(d.price_history.len(), 2);
    assert_eq!(d.price_history[0].timestamp_ms, 60_000);
    assert_eq!(d.get_price_at(60, 120_001), Some(12));
    assert_eq!(d.get_price_at(200, 120_001), None);
    assert_eq!(d.get_baseline_prices(70, 120_001), Some((12, 10)));
}

#[test]
fn book_update_leaves_prices_and_candles() {
    let mut data = SymbolData::new("PUMP".to_string());
    let mut s = strategies(false);
    let mut e = CsvExporter::new(30);
    handle_market_event(ticker("PUMP", 1_000_000_000, Some(990_000_000), 0), &mut data, &mut s, &mut e, 0);
    handle_market_event(ticker("PUMP", 1_000_000_000, None, 700), &mut data, &mut s, &mut e, 700);
    let before = (data.current_last_price, data.current_mark_price, data.price_history.len(), data.candle_buffer.get_all_completed_candles());
    let book = ProcessedOrderbook { bids: vec![], asks: vec![], timestamp_ms: 5 };
    let n = handle_market_event(MarketEvent::OrderbookUpdate { symbol: "PUMP".to_string(), orderbook: book }, &mut data, &mut s, &mut e, 800);
    assert!(n.is_empty());
    let after = (data.current_last_price, data.current_mark_price, data.price_history.len(), data.candle_buffer.get_all_completed_candles());
    assert_eq!(before, after);
}
