use pump_detector::episode::{Episode, EpisodeTracker};

#[test]
fn true_true_false_sequence() {
    let mut t = EpisodeTracker::new(30);
    let sym = "AAA_USDT".to_string();
    let (closed, started) = t.check_condition_at(&sym, true, 103_000_000, 103, 100, 1_000);
    assert!(closed.is_none());
    assert!(started);
    let (closed, started) = t.check_condition_at(&sym, true, 103_000_000, 104, 101, 2_000);
    assert!(closed.is_none());
    assert!(!started);
    let (closed, started) = t.check_condition_at(&sym, false, 100_000_000, 100, 100, 3_000);
    assert!(!started);
    let e = closed.expect("closed episode");
    assert_eq!(e.peak_ratio, 103_000_000);
    // Equal ratio does not replace the peak.
    assert_eq!(e.peak_last_price, 103);
    assert_eq!(e.start_time_ms, 1_000);
    assert_eq!(e.last_cooldown_end, Some(33_000));
}

#[test]
fn peak_takes_larger_ratio() {
    let mut t = EpisodeTracker::new(0);
    let sym = "B".to_string();
    t.check_condition_at(&sym, true, 5, 1, 1, 0);
    t.check_condition_at(&sym, true, 7, 2, 2, 1);
    t.check_condition_at(&sym, true, 6, 3, 3, 2);
    let (closed, _) = t.check_condition_at(&sym, false, 0, 0, 0, 3);
    let e = closed.unwrap();
    assert_eq!((e.peak_ratio, e.peak_last_price, e.peak_mark_price), (7, 2, 2));
}

#[test]
fn cooldown_suppresses_then_allows() {
    let mut t = EpisodeTracker::new(10);
    let sym = "C".to_string();
    assert!(t.check_condition_at(&sym, true, 1, 1, 1, 0).1);
    assert!(t.check_condition_at(&sym, false, 1, 1, 1, 5_000).0.is_some());
    assert!(!t.check_condition_at(&sym, true, 1, 1, 1, 14_999).1);
    assert!(t.check_condition_at(&sym, true, 1, 1, 1, 15_000).1);
}

#[test]
fn symbols_are_tracked_apart() {
    let mut t = EpisodeTracker::new(10);
    let a = "A".to_string();
    let b = "B".to_string();
    assert!(t.check_condition_at(&a, true, 1, 1, 1, 0).1);
    assert!(t.check_condition_at(&b, true, 1, 1, 1, 0).1);
    assert!(t.check_condition_at(&a, false, 1, 1, 1, 1).0.is_some());
    assert!(t.check_condition_at(&b, false, 1, 1, 1, 1).0.is_some());
    // Idle and not met: nothing happens.
    assert_eq!(t.check_condition_at(&a, false, 1, 1, 1, 2).0.map(|e| e.symbol), None);
}

#[test]
fn update_peak_only_on_strict_improvement() {
    let mut e = Episode::new("S".to_string(), 10, 1, 1, 0);
    e.update_peak(10, 2, 2);
    assert_eq!(e.peak_last_price, 1);
    e.update_peak(11, 3, 3);
    assert_eq!((e.peak_ratio, e.peak_last_price, e.peak_mark_price), (11, 3, 3));
}

#[test]
fn wall_clock_condition_starts_an_episode() {
    let mut t = EpisodeTracker::new(5);
    let sym = "W".to_string();
    let (closed, started) = t.check_condition(&sym, true, 9, 9, 9);
    assert!(closed.is_none() && started);
    let (closed, started) = t.check_condition(&sym, false, 9, 9, 9);
    assert!(!started);
    let e = closed.unwrap();
    assert!(e.start_time_ms > 1_600_000_000_000);
    assert!(e.last_cooldown_end.unwrap() >= e.start_time_ms + 5_000);
}

#[test]
fn cooldown_end_saturates() {
    let mut t = EpisodeTracker::new(u64::MAX);
    let sym = "S".to_string();
    assert!(t.check_condition_at(&sym, true, 1, 1, 1, 0).1);
    let e = t.check_condition_at(&sym, false, 1, 1, 1, 5).0.unwrap();
    assert_eq!(e.last_cooldown_end, Some(u64::MAX));
    assert!(!t.check_condition_at(&sym, true, 1, 1, 1, u64::MAX - 1).1);
    assert!(t.check_condition_at(&sym, true, 1, 1, 1, u64::MAX).1);
}
