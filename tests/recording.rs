use pump_detector::candle::{Candle, CandleBuffer};
use pump_detector::recording::CsvExporter;

fn flat(ts: u64, p: u64) -> Candle {
    Candle { timestamp_ms: ts, open: p, high: p, low: p, close: p, volume: 0 }
}

fn buffer_with(n: u64) -> CandleBuffer {
    let mut b = CandleBuffer::new(500);
    for i in 0..n {
        b.add_price_update(Some(100 + i), Some(200 + i), i * 500);
    }
    b
}

#[test]
fn start_twice_keeps_one_session() {
    let mut e = CsvExporter::new(5);
    let sym = "X_USDT".to_string();
    let st = "strategy1".to_string();
    assert!(e.start_recording(&sym, &st, (vec![flat(0, 1)], vec![flat(0, 2)]), 100));
    assert!(!e.start_recording(&sym, &st, (vec![flat(0, 9), flat(500, 9)], vec![]), 200));
    assert!(e.is_recording(&sym, &st));
    let s = e.finalize_recording(&sym, &st, None).expect("one session");
    assert_eq!(s.start_time_ms, 100);
    assert_eq!(s.last_price_candles, vec![flat(0, 1)]);
    assert_eq!(s.mark_price_candles, vec![flat(0, 2)]);
}

#[test]
fn finalize_twice_is_a_noop() {
    let mut e = CsvExporter::new(5);
    let sym = "X_USDT".to_string();
    let st = "strategy4".to_string();
    e.start_recording(&sym, &st, (vec![], vec![]), 0);
    assert!(e.mark_anomaly_ended(&sym, &st, 10));
    assert!(e.finalize_recording(&sym, &st, None).is_some());
    assert!(e.finalize_recording(&sym, &st, None).is_none());
    assert!(!e.is_recording(&sym, &st));
    assert!(!e.mark_anomaly_ended(&sym, &st, 20));
}

#[test]
fn finalize_appends_only_newer_candles() {
    let b = buffer_with(6);
    let mut e = CsvExporter::new(5);
    let sym = "S".to_string();
    let st = "strategy1".to_string();
    let pre = b.get_pre_buffer_candles(1);
    assert_eq!(pre.0.len(), 2);
    e.start_recording(&sym, &st, pre, 0);
    let b = buffer_with(9);
    let s = e.finalize_recording(&sym, &st, Some(&b)).unwrap();
    let ts: Vec<u64> = s.last_price_candles.iter().map(|c| c.timestamp_ms).collect();
    assert_eq!(ts, vec![1_500, 2_000, 2_500, 3_000, 3_500]);
    assert_eq!(s.mark_price_candles.last().unwrap(), &flat(3_500, 207));
}

#[test]
fn empty_session_takes_the_whole_ring() {
    let b = buffer_with(4);
    let mut e = CsvExporter::new(5);
    let sym = "S".to_string();
    let st = "strategy2".to_string();
    e.start_recording(&sym, &st, (vec![], vec![]), 0);
    let s = e.finalize_recording(&sym, &st, Some(&b)).unwrap();
    assert_eq!(s.last_price_candles.len(), 3);
}

#[test]
fn update_recording_extends_open_sessions_of_the_symbol() {
    let mut e = CsvExporter::new(5);
    let a = "A".to_string();
    let other = "B".to_string();
    let st = "strategy1".to_string();
    let b = buffer_with(3);
    e.start_recording(&a, &st, b.get_all_completed_candles(), 0);
    e.start_recording(&other, &st, (vec![], vec![]), 0);
    let b = buffer_with(5);
    e.update_recording(&a, &b);
    e.update_recording(&a, &b);
    let s = e.finalize_recording(&a, &st, None).unwrap();
    assert_eq!(s.last_price_candles.len(), 4);
    let s = e.finalize_recording(&other, &st, None).unwrap();
    assert!(s.last_price_candles.is_empty());
    assert_eq!(e.post_anomaly_recording_secs(), 5);
}

#[test]
fn freed_slots_are_reused_without_mixing_sessions() {
    let mut e = CsvExporter::new(1);
    let a = "A".to_string();
    let b = "B".to_string();
    let st = "strategy3".to_string();
    assert!(e.start_recording(&a, &st, (vec![flat(0, 1)], vec![]), 1));
    assert!(e.start_recording(&b, &st, (vec![flat(0, 2)], vec![]), 2));
    assert!(e.finalize_recording(&a, &st, None).is_some());
    assert!(e.start_recording(&a, &st, (vec![flat(0, 3)], vec![]), 3));
    let sa = e.finalize_recording(&a, &st, None).unwrap();
    let sb = e.finalize_recording(&b, &st, None).unwrap();
    assert_eq!((sa.start_time_ms, sa.last_price_candles[0].close), (3, 3));
    assert_eq!((sb.start_time_ms, sb.last_price_candles[0].close), (2, 2));
}
