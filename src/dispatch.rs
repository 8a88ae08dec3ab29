//! Market events and the dispatch step: apply one event to its symbol's
//! state, run the strategies on the result, and drive recordings.
use crate::detection::{
    CheckOutcome, Detector, Strategy1, Strategy2, Strategy3, Strategy4, Strategy5, checked,
};
use crate::episode::Episode;
use crate::market::{SymbolData, last_price_applied, mark_price_applied};
use crate::orderbook::ProcessedOrderbook;
use crate::candle::{Candle, keep_last, windows_in};
use crate::recording::{CsvExporter, mark_effect, start_effect, update_effect};
use crate::text::{MAX_RENDERABLE_MS, episode_line, episode_log_line};
use vstd::prelude::*;

verus! {

/// One normalized event from the exchange feed. Prices are in ticks and
/// timestamps in milliseconds since the Unix epoch.
#[derive(Clone, Debug)]
pub enum MarketEvent {
    TickerUpdate { symbol: String, last_price: u64, mark_price: Option<u64>, timestamp_ms: u64 },
    MarkPriceUpdate { symbol: String, mark_price: u64, timestamp_ms: u64 },
    OrderbookUpdate { symbol: String, orderbook: ProcessedOrderbook },
}

impl MarketEvent {
    pub open spec fn symbol_view(&self) -> Seq<char> {
        match self {
            MarketEvent::TickerUpdate { symbol, .. } => symbol@,
            MarketEvent::MarkPriceUpdate { symbol, .. } => symbol@,
            MarketEvent::OrderbookUpdate { symbol, .. } => symbol@,
        }
    }

    pub fn symbol(&self) -> (r: &String)
        ensures
            r@ == self.symbol_view(),
    {
        match self {
            MarketEvent::TickerUpdate { symbol, .. } => symbol,
            MarketEvent::MarkPriceUpdate { symbol, .. } => symbol,
            MarketEvent::OrderbookUpdate { symbol, .. } => symbol,
        }
    }
}

/// Something the caller has to act on after a dispatch step.
#[derive(Clone, Debug)]
pub enum Notice {
    /// An episode started.
    Started { strategy: String, symbol: String },
    /// An episode closed at `end_ms`; `log_line` is its audit line.
    Ended { strategy: String, episode: Episode, end_ms: u64, log_line: Option<String> },
    /// The recording for (`symbol`, `strategy`) is to be finalized after
    /// `after_secs` seconds.
    FinalizeDue { symbol: String, strategy: String, after_secs: i64 },
}

/// The five strategies, each with its own episode tracker.
pub struct Strategies {
    pub strategy1: Strategy1,
    pub strategy2: Strategy2,
    pub strategy3: Strategy3,
    pub strategy4: Strategy4,
    pub strategy5: Strategy5,
}

impl Strategies {
    /// Every tracker keeps one entry per symbol.
    pub open spec fn wf(&self) -> bool {
        &&& self.strategy1.detector.tracker.wf()
        &&& self.strategy2.detector.tracker.wf()
        &&& self.strategy3.detector.tracker.wf()
        &&& self.strategy4.detector.tracker.wf()
        &&& self.strategy5.detector.tracker.wf()
    }
}

/// Whether `event` is applied to the state of `symbol`: it names that
/// symbol.
pub open spec fn applies(event: MarketEvent, symbol: Seq<char>) -> bool {
    event.symbol_view() == symbol
}

/// The pre-buffer a recording of `det` starts with: the last completed
/// candles of each series covering `det.pre_buffer_secs`.
pub open spec fn pre_buffer_of(det: Detector, d: SymbolData) -> (Seq<Candle>, Seq<Candle>) {
    let n = windows_in(det.pre_buffer_secs, d.candle_buffer@.window_ms) as nat;
    (keep_last(d.candle_buffer@.last.completed, n), keep_last(d.candle_buffer@.mark.completed, n))
}

/// What one check does to the recordings: with chart recording on, a
/// started episode starts a capture seeded from the pre-buffer and a closed
/// one marks its capture ended; otherwise nothing changes.
pub open spec fn recording_step(
    before: CsvExporter,
    after: CsvExporter,
    det: Detector,
    d: SymbolData,
    now: u64,
    r: CheckOutcome,
) -> bool {
    if det.record_charts && r.started {
        start_effect(
            before,
            after,
            d.symbol@,
            det.name@,
            pre_buffer_of(det, d).0,
            pre_buffer_of(det, d).1,
            now,
            before.session(d.symbol@, det.name@) is None,
        )
    } else if det.record_charts && r.closed is Some {
        mark_effect(before, after, d.symbol@, det.name@, now, before.session(d.symbol@, det.name@) is Some)
    } else {
        &&& after.wf()
        &&& after.post_secs() == before.post_secs()
        &&& forall|s: Seq<char>, t: Seq<char>| #[trigger] after.session(s, t) == before.session(s, t)
    }
}

pub open spec fn is_started(n: Notice, strategy: Seq<char>, symbol: Seq<char>) -> bool {
    n matches Notice::Started { strategy: a, symbol: b } && a@ == strategy && b@ == symbol
}

pub open spec fn is_ended(n: Notice, strategy: Seq<char>, e: Episode, now: u64) -> bool {
    n matches Notice::Ended { strategy: a, episode, end_ms, log_line } && a@ == strategy && episode == e
        && end_ms == now && (log_line matches Some(l) ==> l@ == episode_line(e, now)) && (now
        <= MAX_RENDERABLE_MS && e.start_time_ms <= MAX_RENDERABLE_MS ==> log_line is Some)
}

pub open spec fn is_finalize_due(n: Notice, symbol: Seq<char>, strategy: Seq<char>, after: i64) -> bool {
    n matches Notice::FinalizeDue { symbol: a, strategy: b, after_secs } && a@ == symbol && b@ == strategy
        && after_secs == after
}

/// The notices one check adds: `Started` for a started episode; `Ended`
/// (with its audit line) for a closed one, followed by `FinalizeDue` when
/// its capture was marked ended.
pub open spec fn notices_step(
    added: Seq<Notice>,
    det: Detector,
    d: SymbolData,
    now: u64,
    r: CheckOutcome,
    before: CsvExporter,
) -> bool {
    if r.started {
        added.len() == 1 && is_started(added[0], det.name@, d.symbol@)
    } else {
        match r.closed {
            Some(e) => {
                let marked = det.record_charts && before.session(d.symbol@, det.name@) is Some;
                &&& added.len() == if marked {
                    2int
                } else {
                    1int
                }
                &&& is_ended(added[0], det.name@, e, now)
                &&& marked ==> is_finalize_due(added[1], d.symbol@, det.name@, before.post_secs())
            },
            None => added.len() == 0,
        }
    }
}

/// One strategy's check with its side effects: some outcome `o` follows
/// the strategy's contract, the recordings change as `recording_step` says
/// and `added` holds the notices `notices_step` says.
#[verifier::opaque]
pub open spec fn detector_step(
    det_before: Detector,
    det_after: Detector,
    d: SymbolData,
    now: u64,
    e_before: CsvExporter,
    e_after: CsvExporter,
    added: Seq<Notice>,
) -> bool {
    exists|o: CheckOutcome|
        #[trigger] checked(det_before, det_after, d, now, o) && recording_step(e_before, e_after, det_before, d, now, o)
            && notices_step(added, det_before, d, now, o, e_before)
}

/// The ghost record of one dispatch step: the recording table after each
/// stage and the notices each strategy added.
pub ghost struct DispatchTrace {
    pub tables: Seq<CsvExporter>,
    pub added: Seq<Seq<Notice>>,
}

/// A price update: recordings take the new candles, then strategies 1 to 5
/// run in order on the updated state.
pub open spec fn price_pipeline(
    b: Strategies,
    a: Strategies,
    d: SymbolData,
    now: u64,
    e0: CsvExporter,
    e5: CsvExporter,
    notes: Seq<Notice>,
    t: DispatchTrace,
) -> bool {
    &&& t.tables.len() == 5 && t.added.len() == 5
    &&& update_effect(e0, t.tables[0], d.symbol@, d.candle_buffer@)
    &&& detector_step(b.strategy1.detector, a.strategy1.detector, d, now, t.tables[0], t.tables[1], t.added[0])
    &&& detector_step(b.strategy2.detector, a.strategy2.detector, d, now, t.tables[1], t.tables[2], t.added[1])
    &&& detector_step(b.strategy3.detector, a.strategy3.detector, d, now, t.tables[2], t.tables[3], t.added[2])
    &&& detector_step(b.strategy4.detector, a.strategy4.detector, d, now, t.tables[3], t.tables[4], t.added[3])
    &&& detector_step(b.strategy5.detector, a.strategy5.detector, d, now, t.tables[4], e5, t.added[4])
    &&& notes == t.added[0] + t.added[1] + t.added[2] + t.added[3] + t.added[4]
}

/// A book update: strategies 4 and 5 run in order; the others are untouched.
pub open spec fn book_pipeline(
    b: Strategies,
    a: Strategies,
    d: SymbolData,
    now: u64,
    e0: CsvExporter,
    e2: CsvExporter,
    notes: Seq<Notice>,
    t: DispatchTrace,
) -> bool {
    &&& t.tables.len() == 1 && t.added.len() == 2
    &&& a.strategy1 == b.strategy1 && a.strategy2 == b.strategy2 && a.strategy3 == b.strategy3
    &&& detector_step(b.strategy4.detector, a.strategy4.detector, d, now, e0, t.tables[0], t.added[0])
    &&& detector_step(b.strategy5.detector, a.strategy5.detector, d, now, t.tables[0], e2, t.added[1])
    &&& notes == t.added[0] + t.added[1]
}

/// An exact copy of an episode.
fn copy_episode(e: &Episode) -> (r: Episode)
    ensures
        r == *e,
{
    Episode {
        symbol: e.symbol.clone(),
        start_time_ms: e.start_time_ms,
        peak_ratio: e.peak_ratio,
        peak_last_price: e.peak_last_price,
        peak_mark_price: e.peak_mark_price,
        last_cooldown_end: e.last_cooldown_end,
    }
}

/// Runs one strategy on `data` and performs its recording side effects:
/// a capture starts when an episode starts, and is marked ended (with a
/// finalize due) when it closes. The notices are appended to `notices`.
pub fn run_detector(
    det: &mut Detector,
    data: &SymbolData,
    exporter: &mut CsvExporter,
    now_ms: u64,
    notices: &mut Vec<Notice>,
)
    requires
        data.wf(),
        old(exporter).wf(),
        old(det).tracker.wf(),
    ensures
        final(exporter).wf(),
        final(exporter).post_secs() == old(exporter).post_secs(),
        final(det).tracker.wf(),
        final(notices)@.len() >= old(notices)@.len(),
        final(notices)@.subrange(0, old(notices)@.len() as int) == old(notices)@,
        detector_step(
            *old(det),
            *final(det),
            *data,
            now_ms,
            *old(exporter),
            *final(exporter),
            final(notices)@.subrange(old(notices)@.len() as int, final(notices)@.len() as int),
        ),
{
    let ghost n0 = notices@;
    let ghost e0 = *exporter;
    let ghost det0 = *det;
    let outcome = det.check_at(data, now_ms);
    proof {
        assert(outcome.started ==> outcome.closed is None);
    }
    if outcome.started {
        notices.push(Notice::Started { strategy: det.name.clone(), symbol: data.symbol.clone() });
        if det.record_charts {
            let pre = data.candle_buffer.get_pre_buffer_candles(det.pre_buffer_secs);
            let _ = exporter.start_recording(&data.symbol, &det.name, pre, now_ms);
        }
    }
    match &outcome.closed {
        Some(e) => {
            let line = episode_log_line(e, now_ms);
            notices.push(
                Notice::Ended { strategy: det.name.clone(), episode: copy_episode(e), end_ms: now_ms, log_line: line },
            );
            if det.record_charts {
                if exporter.mark_anomaly_ended(&data.symbol, &det.name, now_ms) {
                    notices.push(
                        Notice::FinalizeDue {
                            symbol: data.symbol.clone(),
                            strategy: det.name.clone(),
                            after_secs: exporter.post_anomaly_recording_secs(),
                        },
                    );
                }
            }
        },
        None => {},
    }
    proof {
        let added = notices@.subrange(n0.len() as int, notices@.len() as int);
        assert(notices@.subrange(0, n0.len() as int) =~= n0);
        assert(checked(det0, *det, *data, now_ms, outcome));
        assert(recording_step(e0, *exporter, det0, *data, now_ms, outcome));
        assert(notices_step(added, det0, *data, now_ms, outcome, e0));
        reveal(detector_step);
    }
}

fn run_price_stages(
    data: &SymbolData,
    strategies: &mut Strategies,
    exporter: &mut CsvExporter,
    now_ms: u64,
    notices: &mut Vec<Notice>,
)
    requires
        data.wf(),
        old(exporter).wf(),
        old(strategies).wf(),
        old(notices)@.len() == 0,
    ensures
        final(strategies).wf(),
        final(exporter).wf(),
        final(exporter).post_secs() == old(exporter).post_secs(),
        exists|t: DispatchTrace|
            #[trigger] price_pipeline(
                *old(strategies),
                *final(strategies),
                *data,
                now_ms,
                *old(exporter),
                *final(exporter),
                final(notices)@,
                t,
            ),
{
    let ghost s0 = *strategies;
    let ghost x0 = *exporter;
    exporter.update_recording(&data.symbol, &data.candle_buffer);
    let ghost x1 = *exporter;
    run_detector(&mut strategies.strategy1.detector, data, exporter, now_ms, notices);
    let ghost (x2, m1) = (*exporter, notices@);
    run_detector(&mut strategies.strategy2.detector, data, exporter, now_ms, notices);
    let ghost (x3, m2) = (*exporter, notices@);
    run_detector(&mut strategies.strategy3.detector, data, exporter, now_ms, notices);
    let ghost (x4, m3) = (*exporter, notices@);
    run_detector(&mut strategies.strategy4.detector, data, exporter, now_ms, notices);
    let ghost (x5, m4) = (*exporter, notices@);
    run_detector(&mut strategies.strategy5.detector, data, exporter, now_ms, notices);
    proof {
        let m5 = notices@;
        let t = DispatchTrace {
            tables: seq![x1, x2, x3, x4, x5],
            added: seq![
                m1,
                m2.subrange(m1.len() as int, m2.len() as int),
                m3.subrange(m2.len() as int, m3.len() as int),
                m4.subrange(m3.len() as int, m4.len() as int),
                m5.subrange(m4.len() as int, m5.len() as int),
            ],
        };
        assert(m1 =~= m1.subrange(0, 0) + m1);
        assert(m1.subrange(0, m1.len() as int) =~= m1);
        assert(m2 =~= m1 + t.added[1]);
        assert(m3 =~= m2 + t.added[2]);
        assert(m4 =~= m3 + t.added[3]);
        assert(m5 =~= m4 + t.added[4]);
        assert(m5 =~= t.added[0] + t.added[1] + t.added[2] + t.added[3] + t.added[4]);
        assert(price_pipeline(s0, *strategies, *data, now_ms, x0, *exporter, notices@, t));
    }
}

fn run_book_stages(
    data: &SymbolData,
    strategies: &mut Strategies,
    exporter: &mut CsvExporter,
    now_ms: u64,
    notices: &mut Vec<Notice>,
)
    requires
        data.wf(),
        old(exporter).wf(),
        old(strategies).wf(),
        old(notices)@.len() == 0,
    ensures
        final(strategies).wf(),
        final(exporter).wf(),
        final(exporter).post_secs() == old(exporter).post_secs(),
        exists|t: DispatchTrace|
            #[trigger] book_pipeline(
                *old(strategies),
                *final(strategies),
                *data,
                now_ms,
                *old(exporter),
                *final(exporter),
                final(notices)@,
                t,
            ),
{
    let ghost s0 = *strategies;
    let ghost x0 = *exporter;
    run_detector(&mut strategies.strategy4.detector, data, exporter, now_ms, notices);
    let ghost (x1, m1) = (*exporter, notices@);
    run_detector(&mut strategies.strategy5.detector, data, exporter, now_ms, notices);
    proof {
        let m2 = notices@;
        let t = DispatchTrace { tables: seq![x1], added: seq![m1, m2.subrange(m1.len() as int, m2.len() as int)] };
        assert(m1.subrange(0, m1.len() as int) =~= m1);
        assert(m2 =~= t.added[0] + t.added[1]);
        assert(book_pipeline(s0, *strategies, *data, now_ms, x0, *exporter, notices@, t));
    }
}

/// Applies `event` to `data`, the state of the symbol it names, and runs
/// the strategies: all five after a price update (recordings of the symbol
/// that are still live first take the candles completed since), the two
/// that read the order book after a book update. An event for another
/// symbol is ignored. Returns what the caller must act on.
pub fn handle_market_event(
    event: MarketEvent,
    data: &mut SymbolData,
    strategies: &mut Strategies,
    exporter: &mut CsvExporter,
    now_ms: u64,
) -> (r: Vec<Notice>)
    requires
        old(data).wf(),
        old(exporter).wf(),
        old(strategies).wf(),
    ensures
        final(strategies).wf(),
        final(data).wf(),
        final(exporter).wf(),
        final(exporter).post_secs() == old(exporter).post_secs(),
        final(data).symbol == old(data).symbol,
        !applies(event, old(data).symbol@) ==> {
            &&& r@.len() == 0
            &&& *final(data) == *old(data)
            &&& *final(strategies) == *old(strategies)
            &&& *final(exporter) == *old(exporter)
        },
        applies(event, old(data).symbol@) ==> match event {
            MarketEvent::TickerUpdate { last_price, mark_price, timestamp_ms, .. } => {
                &&& final(data).current_last_price == Some(last_price)
                &&& mark_price is Some ==> final(data).current_mark_price == mark_price
                &&& mark_price is None ==> final(data).current_mark_price == old(data).current_mark_price
                &&& mark_price is None ==> last_price_applied(*old(data), *final(data), last_price, timestamp_ms)
                &&& mark_price matches Some(m) ==> exists|mid: SymbolData|
                    #[trigger] last_price_applied(*old(data), mid, last_price, timestamp_ms)
                        && mark_price_applied(mid, *final(data), m, timestamp_ms)
                &&& exists|t: DispatchTrace|
                    #[trigger] price_pipeline(
                        *old(strategies),
                        *final(strategies),
                        *final(data),
                        now_ms,
                        *old(exporter),
                        *final(exporter),
                        r@,
                        t,
                    )
            },
            MarketEvent::MarkPriceUpdate { mark_price, timestamp_ms, .. } => {
                &&& final(data).current_mark_price == Some(mark_price)
                &&& final(data).current_last_price == old(data).current_last_price
                &&& mark_price_applied(*old(data), *final(data), mark_price, timestamp_ms)
                &&& exists|t: DispatchTrace|
                    #[trigger] price_pipeline(
                        *old(strategies),
                        *final(strategies),
                        *final(data),
                        now_ms,
                        *old(exporter),
                        *final(exporter),
                        r@,
                        t,
                    )
            },
            MarketEvent::OrderbookUpdate { orderbook, .. } => {
                &&& final(data).orderbook == Some(orderbook)
                &&& final(data).current_last_price == old(data).current_last_price
                &&& final(data).current_mark_price == old(data).current_mark_price
                &&& final(data).last_update == old(data).last_update
                &&& final(data).price_history@ == old(data).price_history@
                &&& final(data).candle_buffer == old(data).candle_buffer
                &&& exists|t: DispatchTrace|
                    #[trigger] book_pipeline(
                        *old(strategies),
                        *final(strategies),
                        *final(data),
                        now_ms,
                        *old(exporter),
                        *final(exporter),
                        r@,
                        t,
                    )
            },
        },
{
    let mut notices: Vec<Notice> = Vec::new();
    if *event.symbol() != data.symbol {
        return notices;
    }
    let prices = match event {
        MarketEvent::TickerUpdate { last_price, mark_price, timestamp_ms, .. } => {
            data.update_last_price(last_price, timestamp_ms);
            let ghost mid = *data;
            if let Some(mark) = mark_price {
                data.update_mark_price(mark, timestamp_ms);
                assert(last_price_applied(*old(data), mid, last_price, timestamp_ms));
            }
            true
        },
        MarketEvent::MarkPriceUpdate { mark_price, timestamp_ms, .. } => {
            data.update_mark_price(mark_price, timestamp_ms);
            true
        },
        MarketEvent::OrderbookUpdate { orderbook, .. } => {
            data.update_orderbook(orderbook);
            false
        },
    };
    if prices {
        run_price_stages(data, strategies, exporter, now_ms, &mut notices);
    } else {
        run_book_stages(data, strategies, exporter, now_ms, &mut notices);
    }
    notices
}

} // verus!
