use pump_detector::candle::Candle;
use pump_detector::decimal::parse_price;
use pump_detector::dispatch::MarketEvent;
use pump_detector::episode::Episode;
use pump_detector::feed::{
    next_reconnect_delay_secs, ApiError, ContractDetail, ContractDetailResponse, FeedError, MarkPriceData,
    MexcWebSocketClient, OrderbookData, TickerData,
};
use pump_detector::orderbook::{OrderbookLevel, ProcessedOrderbook};
use pump_detector::text::{candle_row, chart_file_names, chart_rows, episode_log_line, fixed_point_text};

#[test]
fn parses_decimal_prices() {
    assert_eq!(parse_price("12.5"), Some(1_250_000_000));
    assert_eq!(parse_price("10"), Some(1_000_000_000));
    assert_eq!(parse_price("0.00000001"), Some(1));
    assert_eq!(parse_price("0.000000019"), Some(1));
    assert_eq!(parse_price("99.495"), Some(9_949_500_000));
    assert_eq!(parse_price(""), None);
    assert_eq!(parse_price("."), None);
    assert_eq!(parse_price("1."), None);
    assert_eq!(parse_price(".5"), None);
    assert_eq!(parse_price("-1"), None);
    assert_eq!(parse_price("1e-7"), None);
    assert_eq!(parse_price("1.2.3"), None);
    assert_eq!(parse_price("abc"), None);
    assert_eq!(parse_price("184467440737"), Some(18_446_744_073_700_000_000));
    assert_eq!(parse_price("184467440738"), None);
}

#[test]
fn renders_fixed_point() {
    assert_eq!(fixed_point_text(12_345, 2), "123.45");
    assert_eq!(fixed_point_text(5, 8), "0.00000005");
    assert_eq!(fixed_point_text(0, 4), "0.0000");
    assert_eq!(fixed_point_text(907, 0), "907");
}

#[test]
fn chart_rows_and_names() {
    let c = Candle { timestamp_ms: 1_500, open: 150_000_000, high: 200_000_000, low: 100_000_000, close: 123_456_789, volume: 0 };
    assert_eq!(candle_row(&c), vec!["1500", "1.50000000", "2.00000000", "1.00000000", "1.23456789", "0.00000000"]);
    let rows = chart_rows(&vec![c, c]);
    assert_eq!(rows.len(), 3);
    assert_eq!(rows[0], vec!["timestamp_ms", "open", "high", "low", "close", "volume"]);
    let (a, b) = chart_file_names(&"BTC_USDT".to_string(), &"strategy1".to_string(), 1_700_000_000_123).unwrap();
    assert_eq!(a, "BTC_USDT_strategy1_20231114_221320_lastprice.csv");
    assert_eq!(b, "BTC_USDT_strategy1_20231114_221320_fairprice.csv");
}

#[test]
fn episode_line_format() {
    let e = Episode {
        symbol: "ETH_USDT".to_string(),
        start_time_ms: 1_700_000_000_000,
        peak_ratio: 103_456_789,
        peak_last_price: 1_030_000_000,
        peak_mark_price: 1_000_000_000,
        last_cooldown_end: None,
    };
    let line = episode_log_line(&e, 1_700_000_042_500).unwrap();
    assert_eq!(
        line,
        "2023-11-14T22:14:02Z | ETH_USDT | START=22:13:20 | END=22:14:02 | DURATION=42s | PEAK_RATIO=1.0346 | PEAK_LAST=10.30000000 | PEAK_MARK=10.00000000\n"
    );
}

#[test]
fn depth_in_band_example() {
    let u = 100_000_000u64;
    let lvl = |p: u64, q: u64| Some(OrderbookLevel { price: p * u, quantity: q * u });
    let ob = ProcessedOrderbook::from_raw(&vec![lvl(100, 2), lvl(99, 5)], &vec![lvl(101, 3), lvl(102, 1)], 10, 0);
    assert_eq!(ob.calculate_mid_price(), Some(10_050_000_000));
    let depth = ob.calculate_depth_in_band(1_000_000);
    assert_eq!(depth, 503 * (u as u128) * (u as u128));
    assert_eq!(ob.calculate_spread_pct(), Some(995_024));
    assert_eq!(ob.spread_exceeds(995_024), Some(true));
    assert_eq!(ob.spread_exceeds(995_025), Some(false));
}

#[test]
fn book_levels_are_cut_and_filtered() {
    let l = |p: u64| Some(OrderbookLevel { price: p, quantity: 1 });
    let ob = ProcessedOrderbook::from_raw(&vec![l(5), None, l(3), l(2)], &vec![], 3, 7);
    assert_eq!(ob.bids, vec![OrderbookLevel { price: 5, quantity: 1 }, OrderbookLevel { price: 3, quantity: 1 }]);
    assert_eq!(ob.calculate_mid_price(), None);
    assert_eq!(ob.calculate_depth_in_band(1), 0);
    let big = OrderbookLevel { price: 20_000_000 * 100_000_000, quantity: 50_000_000 * 100_000_000 };
    let ob = ProcessedOrderbook::from_raw(&vec![Some(big)], &vec![Some(big)], 5, 0);
    assert_eq!(ob.bids, vec![big]);
}

#[test]
fn feed_messages_become_events() {
    let c = MexcWebSocketClient::new("wss://example".to_string(), vec!["A".to_string()], 2);
    let t = TickerData {
        symbol: "A".to_string(),
        last_price: "1.5".to_string(),
        fair_price: Some("bad".to_string()),
        bid1: None,
        ask1: None,
        timestamp: 42,
    };
    match c.ticker_event(&t, 7).unwrap() {
        MarketEvent::TickerUpdate { symbol, last_price, mark_price, timestamp_ms } => {
            assert_eq!((symbol.as_str(), last_price, mark_price, timestamp_ms), ("A", 150_000_000, None, 42));
        }
        _ => panic!("expected a ticker event"),
    }
    let bad = TickerData { last_price: "x".to_string(), ..t.clone() };
    assert_eq!(c.ticker_event(&bad, 7).err(), Some(FeedError::BadPrice));
    let m = MarkPriceData { symbol: "A".to_string(), fair_price: "2".to_string(), timestamp: -1 };
    match c.mark_price_event(&m, 7).unwrap() {
        MarketEvent::MarkPriceUpdate { mark_price, timestamp_ms, .. } => assert_eq!((mark_price, timestamp_ms), (200_000_000, 7)),
        _ => panic!("expected a mark price event"),
    }
    let m = MarkPriceData { fair_price: "".to_string(), ..m };
    assert_eq!(c.mark_price_event(&m, 7).err(), Some(FeedError::BadPrice));
    let book = OrderbookData {
        symbol: None,
        asks: vec![vec!["2".to_string(), "1".to_string()]],
        bids: vec![vec!["1".to_string()], vec!["1".to_string(), "3".to_string()], vec!["0.5".to_string(), "1".to_string()], vec!["0.1".to_string(), "1".to_string()]],
        timestamp: 5,
    };
    assert_eq!(c.orderbook_event(&book, 7).err(), Some(FeedError::MissingSymbol));
    let book = OrderbookData { symbol: Some("A".to_string()), ..book };
    match c.orderbook_event(&book, 7).unwrap() {
        MarketEvent::OrderbookUpdate { symbol, orderbook } => {
            assert_eq!(symbol, "A");
            assert_eq!(orderbook.bids, vec![OrderbookLevel { price: 100_000_000, quantity: 300_000_000 }]);
            assert_eq!(orderbook.asks.len(), 1);
            assert_eq!(orderbook.timestamp_ms, 5);
        }
        _ => panic!("expected a book event"),
    }
}

#[test]
fn active_contracts_and_refusal() {
    let c = |s: &str, state: i32| ContractDetail { symbol: s.to_string(), display_name: s.to_string(), state };
    let ok = ContractDetailResponse { success: true, code: 0, data: vec![c("A", 0), c("B", 1), c("C", 0)] };
    assert_eq!(ok.active_symbols().unwrap(), vec!["A".to_string(), "C".to_string()]);
    let no = ContractDetailResponse { success: false, code: 510, data: vec![c("A", 0)] };
    assert_eq!(no.active_symbols().err(), Some(ApiError::Rejected { code: 510 }));
}

#[test]
fn reconnect_delay_doubles_up_to_a_minute() {
    assert_eq!(next_reconnect_delay_secs(1), 2);
    assert_eq!(next_reconnect_delay_secs(30), 60);
    assert_eq!(next_reconnect_delay_secs(31), 60);
    assert_eq!(next_reconnect_delay_secs(60), 60);
}

#[test]
fn out_of_range_instants_have_no_text() {
    assert!(chart_file_names(&"A".to_string(), &"strategy1".to_string(), u64::MAX).is_none());
    let e = Episode {
        symbol: "A".to_string(),
        start_time_ms: u64::MAX,
        peak_ratio: 1,
        peak_last_price: 1,
        peak_mark_price: 1,
        last_cooldown_end: None,
    };
    assert!(episode_log_line(&e, 0).is_none());
}
