use pump_detector::candle::{Candle, CandleBuffer};

fn flat(ts: u64, p: u64) -> Candle {
    Candle { timestamp_ms: ts, open: p, high: p, low: p, close: p, volume: 0 }
}

#[test]
fn gap_is_forward_filled_with_flat_candles() {
    let mut b = CandleBuffer::new(500);
    b.add_price_update(Some(100), Some(90), 1_000);
    b.add_price_update(Some(110), None, 1_200);
    b.add_price_update(Some(120), Some(95), 2_700);
    let (last, mark) = b.get_all_completed_candles();
    assert_eq!(last.len(), 3);
    assert_eq!(last[0], Candle { timestamp_ms: 1_000, open: 100, high: 110, low: 100, close: 110, volume: 0 });
    assert_eq!(last[1], flat(1_500, 110));
    assert_eq!(last[2], flat(2_000, 110));
    assert_eq!(mark.len(), 3);
    assert_eq!(mark[0], flat(1_000, 90));
    assert_eq!(mark[1], flat(1_500, 90));
    assert_eq!(mark[2], flat(2_000, 90));
}

#[test]
fn same_window_updates_keep_open() {
    let mut b = CandleBuffer::new(500);
    b.add_price_update(Some(100), None, 10_000);
    b.add_price_update(Some(130), None, 10_100);
    b.add_price_update(Some(80), None, 10_200);
    b.add_price_update(Some(90), None, 10_499);
    b.add_price_update(Some(91), None, 10_500);
    let (last, mark) = b.get_all_completed_candles();
    assert_eq!(last, vec![Candle { timestamp_ms: 10_000, open: 100, high: 130, low: 80, close: 90, volume: 0 }]);
    assert!(mark.is_empty());
}

#[test]
fn adjacent_window_adds_no_fill() {
    let mut b = CandleBuffer::new(500);
    b.add_price_update(Some(5), Some(6), 0);
    b.add_price_update(Some(7), Some(8), 500);
    let (last, _) = b.get_all_completed_candles();
    assert_eq!(last, vec![flat(0, 5)]);
}

#[test]
fn completed_series_stay_contiguous_and_bounded() {
    let mut b = CandleBuffer::new(500);
    let times = [3u64, 10, 700, 2_900, 2_950, 3_100, 9_999, 10_000, 30_123, 30_400, 31_001];
    for (i, t) in times.iter().enumerate() {
        let p = 1_000 + i as u64;
        if i % 3 == 0 {
            b.add_price_update(Some(p), None, *t);
        } else {
            b.add_price_update(Some(p), Some(p + 1), *t);
        }
    }
    let (last, mark) = b.get_all_completed_candles();
    for series in [&last, &mark] {
        assert!(series.len() <= 40);
        for w in series.windows(2) {
            assert_eq!(w[1].timestamp_ms, w[0].timestamp_ms + 500);
        }
    }
    assert_eq!(last.len(), 40);
    assert_eq!(last.last().unwrap().timestamp_ms, 30_500);
}

#[test]
fn mark_only_window_is_filled_for_last_series() {
    let mut b = CandleBuffer::new(500);
    b.add_price_update(Some(100), Some(50), 0);
    b.add_price_update(None, Some(55), 600);
    b.add_price_update(Some(120), Some(60), 1_100);
    let (last, mark) = b.get_all_completed_candles();
    assert_eq!(last, vec![flat(0, 100), flat(500, 100)]);
    assert_eq!(mark, vec![flat(0, 50), flat(500, 55)]);
}

#[test]
fn recent_and_pre_buffer_take_the_newest_windows() {
    let mut b = CandleBuffer::new(500);
    for i in 0..10u64 {
        b.add_price_update(Some(100 + i), Some(200 + i), i * 500);
    }
    let (last, mark) = b.get_recent_candles(2);
    assert_eq!(last.len(), 4);
    assert_eq!(last[0].timestamp_ms, 2_500);
    assert_eq!(last[3].timestamp_ms, 4_000);
    assert_eq!(mark[3], flat(4_000, 208));
    let (pl, pm) = b.get_pre_buffer_candles(2);
    assert_eq!(pl, last);
    assert_eq!(pm, mark);
    let (none, _) = b.get_recent_candles(0);
    assert!(none.is_empty());
    let (neg, _) = b.get_recent_candles(-5);
    assert!(neg.is_empty());
    let (all, _) = b.get_recent_candles(100);
    assert_eq!(all.len(), 9);
}

#[test]
fn candle_update_tracks_extremes() {
    let mut c = Candle::from_single_price(0, 10);
    c.update_price(12);
    c.update_price(7);
    c.update_price(9);
    assert_eq!(c, Candle { timestamp_ms: 0, open: 10, high: 12, low: 7, close: 9, volume: 0 });
}
