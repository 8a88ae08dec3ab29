//! Feed messages as plain values, and their conversion into market events.
use crate::decimal::{parse_price, price_ticks};
use crate::dispatch::MarketEvent;
use crate::orderbook::{OrderbookLevel, ProcessedOrderbook, side_from_raw};
use crate::text::MAX_RENDERABLE_MS;
use vstd::prelude::*;

verus! {

#[derive(Clone, Debug)]
pub struct TickerData {
    pub symbol: String,
    pub last_price: String,
    pub fair_price: Option<String>,
    pub bid1: Option<String>,
    pub ask1: Option<String>,
    pub timestamp: i64,
}

#[derive(Clone, Debug)]
pub struct MarkPriceData {
    pub symbol: String,
    pub fair_price: String,
    pub timestamp: i64,
}

#[derive(Clone, Debug)]
pub struct OrderbookData {
    pub symbol: Option<String>,
    pub asks: Vec<Vec<String>>,
    pub bids: Vec<Vec<String>>,
    pub timestamp: i64,
}

#[derive(Clone, Debug)]
pub struct ContractDetail {
    pub symbol: String,
    pub display_name: String,
    pub state: i32,
}

#[derive(Clone, Debug)]
pub struct ContractDetailResponse {
    pub success: bool,
    pub code: i32,
    pub data: Vec<ContractDetail>,
}

/// Why a feed message could not become an event.
#[derive(Clone, Copy, Debug, PartialEq, Eq, Structural)]
pub enum FeedError {
    /// A required price is not decimal text that fits in ticks.
    BadPrice,
    /// A book message without its symbol.
    MissingSymbol,
}

/// The contract catalogue refused the request.
#[derive(Clone, Copy, Debug, PartialEq, Eq, Structural)]
pub enum ApiError {
    Rejected { code: i32 },
}

/// Longest wait between reconnection attempts, in seconds.
pub const MAX_RECONNECT_DELAY_SECS: u64 = 60;

/// The wait before the next reconnection attempt: double the last one, at
/// most `MAX_RECONNECT_DELAY_SECS`.
pub fn next_reconnect_delay_secs(current: u64) -> (r: u64)
    ensures
        r == if 2 * current > MAX_RECONNECT_DELAY_SECS {
            MAX_RECONNECT_DELAY_SECS as int
        } else {
            2 * current
        },
{
    if current > MAX_RECONNECT_DELAY_SECS / 2 {
        MAX_RECONNECT_DELAY_SECS
    } else {
        2 * current
    }
}

/// A message timestamp when it is a usable instant, else `now`.
pub open spec fn event_time_spec(ts: i64, now: u64) -> u64 {
    if 0 <= ts && ts <= MAX_RENDERABLE_MS {
        ts as u64
    } else {
        now
    }
}

pub fn event_time(ts: i64, now_ms: u64) -> (r: u64)
    ensures
        r == event_time_spec(ts, now_ms),
{
    if 0 <= ts && ts <= MAX_RENDERABLE_MS as i64 {
        ts as u64
    } else {
        now_ms
    }
}

/// A raw `[price, quantity, ...]` level, when both numbers read.
pub open spec fn level_of(v: Vec<String>) -> Option<OrderbookLevel> {
    if v@.len() >= 2 && price_ticks(v@[0]@) is Some && price_ticks(v@[1]@) is Some {
        Some(OrderbookLevel { price: price_ticks(v@[0]@)->0, quantity: price_ticks(v@[1]@)->0 })
    } else {
        None
    }
}

pub open spec fn raw_levels(raw: Seq<Vec<String>>) -> Seq<Option<OrderbookLevel>> {
    raw.map_values(|v: Vec<String>| level_of(v))
}

fn read_level(v: &Vec<String>) -> (r: Option<OrderbookLevel>)
    ensures
        r == level_of(*v),
{
    if v.len() < 2 {
        return None;
    }
    let price = match parse_price(v[0].as_str()) {
        Some(p) => p,
        None => return None,
    };
    let quantity = match parse_price(v[1].as_str()) {
        Some(q) => q,
        None => return None,
    };
    Some(OrderbookLevel { price, quantity })
}

fn read_levels(raw: &Vec<Vec<String>>) -> (r: Vec<Option<OrderbookLevel>>)
    ensures
        r@ == raw_levels(raw@),
{
    let mut out: Vec<Option<OrderbookLevel>> = Vec::new();
    let mut i: usize = 0;
    while i < raw.len()
        invariant
            i <= raw@.len(),
            out@ == raw_levels(raw@.subrange(0, i as int)),
        decreases raw@.len() - i,
    {
        out.push(read_level(&raw[i]));
        i = i + 1;
        assert(out@ =~= raw_levels(raw@.subrange(0, i as int)));
    }
    assert(raw@.subrange(0, raw@.len() as int) =~= raw@);
    out
}

/// The symbols of the contracts in state 0 (open for trading), in order.
pub open spec fn active_symbols_spec(data: Seq<ContractDetail>) -> Seq<Seq<char>>
    decreases data.len(),
{
    if data.len() == 0 {
        Seq::empty()
    } else {
        let rest = active_symbols_spec(data.drop_last());
        if data.last().state == 0 {
            rest.push(data.last().symbol@)
        } else {
            rest
        }
    }
}

pub open spec fn names_view(v: Vec<String>) -> Seq<Seq<char>> {
    v@.map_values(|s: String| s@)
}

impl ContractDetailResponse {
    /// The tradable symbols, or the catalogue's refusal.
    pub fn active_symbols(&self) -> (r: Result<Vec<String>, ApiError>)
        ensures
            !self.success ==> r == Err::<Vec<String>, ApiError>(ApiError::Rejected { code: self.code }),
            self.success ==> (r matches Ok(v) && names_view(v) == active_symbols_spec(self.data@)),
    {
        if !self.success {
            return Err(ApiError::Rejected { code: self.code });
        }
        let mut out: Vec<String> = Vec::new();
        let mut i: usize = 0;
        while i < self.data.len()
            invariant
                i <= self.data@.len(),
                names_view(out) == active_symbols_spec(self.data@.subrange(0, i as int)),
            decreases self.data@.len() - i,
        {
            proof {
                assert(self.data@.subrange(0, i + 1).drop_last() =~= self.data@.subrange(0, i as int));
            }
            let c = &self.data[i];
            if c.state == 0 {
                out.push(c.symbol.clone());
            }
            i = i + 1;
            assert(names_view(out) =~= active_symbols_spec(self.data@.subrange(0, i as int)));
        }
        assert(self.data@.subrange(0, self.data@.len() as int) =~= self.data@);
        Ok(out)
    }
}

/// Where the feed connects, which symbols it follows and how deep a book
/// it asks for.
#[derive(Clone, Debug)]
pub struct MexcWebSocketClient {
    pub ws_url: String,
    pub symbols: Vec<String>,
    pub max_levels: usize,
}

impl MexcWebSocketClient {
    pub fn new(ws_url: String, symbols: Vec<String>, max_levels: usize) -> (c: MexcWebSocketClient)
        ensures
            c.ws_url == ws_url,
            c.symbols == symbols,
            c.max_levels == max_levels,
    {
        MexcWebSocketClient { ws_url, symbols, max_levels }
    }

    /// A ticker message as an event: the last price must read; a fair price
    /// that does not read is treated as absent.
    pub fn ticker_event(&self, t: &TickerData, now_ms: u64) -> (r: Result<MarketEvent, FeedError>)
        ensures
            price_ticks(t.last_price@) is None ==> r == Err::<MarketEvent, FeedError>(FeedError::BadPrice),
            price_ticks(t.last_price@) matches Some(last) ==> (r matches Ok(
                MarketEvent::TickerUpdate { symbol, last_price, mark_price, timestamp_ms },
            ) && symbol == t.symbol && last_price == last && timestamp_ms == event_time_spec(
                t.timestamp,
                now_ms,
            ) && mark_price == match t.fair_price {
                Some(f) => price_ticks(f@),
                None => None,
            }),
    {
        let last = match parse_price(t.last_price.as_str()) {
            Some(p) => p,
            None => return Err(FeedError::BadPrice),
        };
        let mark = match &t.fair_price {
            Some(f) => parse_price(f.as_str()),
            None => None,
        };
        Ok(
            MarketEvent::TickerUpdate {
                symbol: t.symbol.clone(),
                last_price: last,
                mark_price: mark,
                timestamp_ms: event_time(t.timestamp, now_ms),
            },
        )
    }

    /// A fair-price message as an event.
    pub fn mark_price_event(&self, d: &MarkPriceData, now_ms: u64) -> (r: Result<MarketEvent, FeedError>)
        ensures
            price_ticks(d.fair_price@) is None ==> r == Err::<MarketEvent, FeedError>(FeedError::BadPrice),
            price_ticks(d.fair_price@) matches Some(mark) ==> (r matches Ok(
                MarketEvent::MarkPriceUpdate { symbol, mark_price, timestamp_ms },
            ) && symbol == d.symbol && mark_price == mark && timestamp_ms == event_time_spec(
                d.timestamp,
                now_ms,
            )),
    {
        let mark = match parse_price(d.fair_price.as_str()) {
            Some(p) => p,
            None => return Err(FeedError::BadPrice),
        };
        Ok(
            MarketEvent::MarkPriceUpdate {
                symbol: d.symbol.clone(),
                mark_price: mark,
                timestamp_ms: event_time(d.timestamp, now_ms),
            },
        )
    }

    /// A depth message as an event, its book cut to `max_levels` raw
    /// levels per side; levels that do not read are dropped.
    pub fn orderbook_event(&self, d: &OrderbookData, now_ms: u64) -> (r: Result<MarketEvent, FeedError>)
        ensures
            d.symbol is None ==> r == Err::<MarketEvent, FeedError>(FeedError::MissingSymbol),
            d.symbol matches Some(sym) ==> (r matches Ok(MarketEvent::OrderbookUpdate { symbol, orderbook })
                && symbol == sym && orderbook.bids@ == side_from_raw(
                raw_levels(d.bids@),
                self.max_levels,
            ) && orderbook.asks@ == side_from_raw(raw_levels(d.asks@), self.max_levels)
                && orderbook.timestamp_ms == event_time_spec(d.timestamp, now_ms)),
    {
        let symbol = match &d.symbol {
            Some(s) => s.clone(),
            None => return Err(FeedError::MissingSymbol),
        };
        let bids = read_levels(&d.bids);
        let asks = read_levels(&d.asks);
        let orderbook = ProcessedOrderbook::from_raw(
            &bids,
            &asks,
            self.max_levels,
            event_time(d.timestamp, now_ms),
        );
        Ok(MarketEvent::OrderbookUpdate { symbol, orderbook })
    }
}

} // verus!
