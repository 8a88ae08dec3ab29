//! Fixed-width OHLC candles and the downsampler that turns an irregular
//! stream of price updates into two contiguous candle series.
use std::collections::VecDeque;
use vstd::prelude::*;

verus! {

broadcast use vstd::std_specs::vecdeque::group_vec_dequeue_axioms;

/// Width of one candle window, in milliseconds.
pub const CANDLE_WINDOW_MS: u64 = 500;

/// Completed candles retained per series (20 seconds of 500 ms windows).
pub const RING_CAPACITY: usize = 40;

/// One OHLCV bar. Prices are fixed-point ticks (`PRICE_SCALE` per unit); volume is
/// always zero because the feed carries none.
#[derive(Clone, Copy, Debug, PartialEq, Eq, Structural)]
pub struct Candle {
    pub timestamp_ms: u64,
    pub open: u64,
    pub high: u64,
    pub low: u64,
    pub close: u64,
    pub volume: u64,
}

impl Candle {
    /// A candle opened from a single price sample.
    pub open spec fn flat(timestamp_ms: u64, price: u64) -> Candle {
        Candle {
            timestamp_ms,
            open: price,
            high: price,
            low: price,
            close: price,
            volume: 0,
        }
    }

    /// The candle after one more sample in its own window.
    pub open spec fn updated(self, price: u64) -> Candle {
        Candle {
            timestamp_ms: self.timestamp_ms,
            open: self.open,
            high: if price > self.high { price } else { self.high },
            low: if price < self.low { price } else { self.low },
            close: price,
            volume: self.volume,
        }
    }

    pub fn from_single_price(timestamp_ms: u64, price: u64) -> (c: Candle)
        ensures
            c == Candle::flat(timestamp_ms, price),
    {
        Candle { timestamp_ms, open: price, high: price, low: price, close: price, volume: 0 }
    }

    pub fn update_price(&mut self, price: u64)
        ensures
            *final(self) == old(self).updated(price),
    {
        if price > self.high {
            self.high = price;
        }
        if price < self.low {
            self.low = price;
        }
        self.close = price;
    }
}

/// The last `cap` elements of `s` (all of `s` when it is shorter).
pub open spec fn keep_last<T>(s: Seq<T>, cap: nat) -> Seq<T> {
    if s.len() > cap {
        s.subrange(s.len() - cap, s.len() as int)
    } else {
        s
    }
}

/// Consecutive candles start exactly one window apart.
pub open spec fn contiguous(s: Seq<Candle>, w: int) -> bool {
    forall|i: int| 0 < i < s.len() ==> #[trigger] s[i].timestamp_ms == s[i - 1].timestamp_ms + w
}

/// `n` flat candles at `price`, the first starting at `start`, one per window.
pub open spec fn flats(price: u64, start: int, w: int, n: nat) -> Seq<Candle> {
    Seq::new(n, |i: int| Candle::flat((start + i * w) as u64, price))
}

/// One price series of the downsampler, as a mathematical value.
pub ghost struct SeriesView {
    pub current: Option<Candle>,
    pub completed: Seq<Candle>,
    pub known: Option<u64>,
}

/// The downsampler as a mathematical value.
pub ghost struct CandleBufferView {
    pub window_ms: u64,
    pub current_start: Option<u64>,
    pub last: SeriesView,
    pub mark: SeriesView,
}

/// Candles archived for one series when the window that opened at `start`
/// closes and the window at `new_start` opens: the open candle (or, when the
/// series saw no sample in that window, a flat one at the last known price),
/// then one forward-filled flat candle for each skipped window. A series that
/// never saw a price archives nothing.
pub open spec fn closing_run(s: SeriesView, start: u64, new_start: u64, w: u64) -> Seq<Candle> {
    match s.known {
        None => Seq::empty(),
        Some(p) => seq![
            match s.current {
                Some(c) => c,
                None => Candle::flat(start, p),
            },
        ] + flats(p, start + w, w as int, ((new_start - start) / (w as int) - 1) as nat),
    }
}

pub open spec fn advanced(s: SeriesView, start: u64, new_start: u64, w: u64) -> SeriesView {
    SeriesView {
        current: None,
        completed: keep_last(s.completed + closing_run(s, start, new_start, w), RING_CAPACITY as nat),
        known: s.known,
    }
}

pub open spec fn with_price(s: SeriesView, start: u64, price: Option<u64>) -> SeriesView {
    match price {
        None => s,
        Some(p) => SeriesView {
            current: Some(
                match s.current {
                    Some(c) => c.updated(p),
                    None => Candle::flat(start, p),
                },
            ),
            completed: s.completed,
            known: Some(p),
        },
    }
}

pub open spec fn window_of(ts: u64, w: u64) -> u64 {
    ((ts / w) * w) as u64
}

/// The downsampler after `observe(last, mark, ts)`. An observation that falls
/// in or before the open window is folded into the open window.
pub open spec fn observed(v: CandleBufferView, last: Option<u64>, mark: Option<u64>, ts: u64) -> CandleBufferView {
    let ws = window_of(ts, v.window_ms);
    match v.current_start {
        None => CandleBufferView {
            window_ms: v.window_ms,
            current_start: Some(ws),
            last: with_price(v.last, ws, last),
            mark: with_price(v.mark, ws, mark),
        },
        Some(s) => if ws > s {
            CandleBufferView {
                window_ms: v.window_ms,
                current_start: Some(ws),
                last: with_price(advanced(v.last, s, ws, v.window_ms), ws, last),
                mark: with_price(advanced(v.mark, s, ws, v.window_ms), ws, mark),
            }
        } else {
            CandleBufferView {
                window_ms: v.window_ms,
                current_start: Some(s),
                last: with_price(v.last, s, last),
                mark: with_price(v.mark, s, mark),
            }
        },
    }
}

/// A candle of a `w`-millisecond series: no volume, open and close within
/// low and high, and a start on a window boundary.
pub open spec fn candle_ok(c: Candle, w: u64) -> bool {
    &&& c.volume == 0
    &&& c.low <= c.open <= c.high
    &&& c.low <= c.close <= c.high
    &&& (c.timestamp_ms as int) % (w as int) == 0
}

pub open spec fn all_ok(s: Seq<Candle>, w: u64) -> bool {
    forall|i: int| 0 <= i < s.len() ==> candle_ok(#[trigger] s[i], w)
}

/// Well-formedness of one series against the open window.
pub open spec fn series_wf(s: SeriesView, start: Option<u64>, w: u64) -> bool {
    &&& s.completed.len() <= RING_CAPACITY
    &&& all_ok(s.completed, w)
    &&& (s.current is Some ==> candle_ok(s.current->0, w))
    &&& contiguous(s.completed, w as int)
    &&& (s.current is Some ==> {
        &&& start is Some
        &&& s.known == Some(s.current->0.close)
        &&& s.current->0.timestamp_ms == start->0
    })
    &&& (s.completed.len() > 0 ==> {
        &&& start is Some
        &&& s.known is Some
        &&& s.completed.last().timestamp_ms + w == start->0
    })
    &&& (s.known is Some ==> start is Some)
}

/// Number of windows covering `seconds`, rounded up (none for a
/// non-positive span).
pub open spec fn windows_in(seconds: i64, w: u64) -> int {
    if seconds <= 0 {
        0
    } else {
        (seconds * 1000 + w - 1) / (w as int)
    }
}

/// Well-formedness of the whole downsampler.
pub open spec fn buffer_wf(v: CandleBufferView) -> bool {
    &&& v.window_ms > 0
    &&& (v.current_start is Some ==> v.current_start->0 % v.window_ms == 0)
    &&& series_wf(v.last, v.current_start, v.window_ms)
    &&& series_wf(v.mark, v.current_start, v.window_ms)
}

proof fn lemma_contiguous_concat(s: Seq<Candle>, t: Seq<Candle>, w: int)
    requires
        contiguous(s, w),
        contiguous(t, w),
        s.len() > 0 && t.len() > 0 ==> t[0].timestamp_ms == s.last().timestamp_ms + w,
    ensures
        contiguous(s + t, w),
{
    let u = s + t;
    assert forall|i: int| 0 < i < u.len() implies #[trigger] u[i].timestamp_ms == u[i
        - 1].timestamp_ms + w by {
        if i < s.len() {
        } else if i == s.len() {
        } else {
            assert(t[i - s.len()].timestamp_ms == t[i - s.len() - 1].timestamp_ms + w);
        }
    }
}

proof fn lemma_contiguous_keep_last(s: Seq<Candle>, cap: nat, w: int)
    requires
        contiguous(s, w),
    ensures
        contiguous(keep_last(s, cap), w),
        keep_last(s, cap).len() <= cap || keep_last(s, cap) == s,
        s.len() > 0 && cap > 0 ==> keep_last(s, cap).last() == s.last(),
{
    if s.len() > cap {
        let k = keep_last(s, cap);
        assert forall|i: int| 0 < i < k.len() implies #[trigger] k[i].timestamp_ms == k[i
            - 1].timestamp_ms + w by {
            assert(s[s.len() - cap + i].timestamp_ms == s[s.len() - cap + i - 1].timestamp_ms + w);
        }
    }
}

proof fn lemma_keep_last_push<T>(s: Seq<T>, c: T, cap: nat)
    requires
        cap > 0,
    ensures
        keep_last(keep_last(s, cap).push(c), cap) == keep_last(s.push(c), cap),
{
    let k = keep_last(s, cap);
    if s.len() > cap {
        assert(keep_last(k.push(c), cap) =~= keep_last(s.push(c), cap));
    } else {
        assert(k == s);
    }
}

proof fn lemma_flat_ts(start: int, w: int, n: nat, i: int)
    requires
        0 <= start,
        0 <= w,
        0 <= i < n,
        start + n * w <= u64::MAX,
    ensures
        0 <= start + i * w,
        start + i * w + w <= start + n * w,
{
    assert(i * w + w <= n * w) by (nonlinear_arith)
        requires
            0 <= i < n,
            0 <= w,
    ;
    assert(0 <= i * w) by (nonlinear_arith)
        requires
            0 <= i,
            0 <= w,
    ;
}

proof fn lemma_flats_contiguous(p: u64, start: int, w: int, n: nat)
    requires
        0 <= start,
        0 <= w,
        start + n * w <= u64::MAX,
    ensures
        contiguous(flats(p, start, w, n), w),
        forall|i: int|
            0 <= i < n ==> #[trigger] flats(p, start, w, n)[i].timestamp_ms == start + i * w,
{
    let f = flats(p, start, w, n);
    assert forall|i: int| 0 <= i < n implies #[trigger] f[i].timestamp_ms == start + i * w by {
        lemma_flat_ts(start, w, n, i);
    }
    assert forall|i: int| 0 < i < f.len() implies #[trigger] f[i].timestamp_ms == f[i
        - 1].timestamp_ms + w by {
        assert(f[i].timestamp_ms == start + i * w);
        assert(f[i - 1].timestamp_ms == start + (i - 1) * w);
        assert((i - 1) * w + w == i * w) by (nonlinear_arith);
    }
}

/// Accumulates price updates into fixed-width candles, one series for the
/// last traded price and one for the mark price.
#[derive(Clone, Debug)]
pub struct CandleBuffer {
    window_ms: u64,
    current_window_start: Option<u64>,
    current_last_price_candle: Option<Candle>,
    current_mark_price_candle: Option<Candle>,
    completed_last_price_candles: VecDeque<Candle>,
    completed_mark_price_candles: VecDeque<Candle>,
    last_known_last_price: Option<u64>,
    last_known_mark_price: Option<u64>,
}

impl View for CandleBuffer {
    type V = CandleBufferView;

    closed spec fn view(&self) -> CandleBufferView {
        CandleBufferView {
            window_ms: self.window_ms,
            current_start: self.current_window_start,
            last: SeriesView {
                current: self.current_last_price_candle,
                completed: self.completed_last_price_candles@,
                known: self.last_known_last_price,
            },
            mark: SeriesView {
                current: self.current_mark_price_candle,
                completed: self.completed_mark_price_candles@,
                known: self.last_known_mark_price,
            },
        }
    }
}

/// Pushes `c` onto a ring, evicting the oldest candle beyond capacity.
fn archive(ring: &mut VecDeque<Candle>, c: Candle)
    requires
        old(ring)@.len() <= RING_CAPACITY,
    ensures
        final(ring)@ == keep_last(old(ring)@.push(c), RING_CAPACITY as nat),
{
    ring.push_back(c);
    if ring.len() > RING_CAPACITY {
        let _ = ring.pop_front();
        assert(ring@ =~= keep_last(old(ring)@.push(c), RING_CAPACITY as nat));
    }
}

proof fn lemma_window_facts(start: u64, new_start: u64, w: u64)
    requires
        w > 0,
        start < new_start,
        start % w == 0,
        new_start % w == 0,
    ensures
        (new_start - start) / (w as int) >= 1,
        ((new_start - start) / (w as int)) * w == new_start - start,
{
    let d = (new_start - start) as int;
    assert(start == w * (start as int / w as int)) by {
        vstd::arithmetic::div_mod::lemma_fundamental_div_mod(start as int, w as int);
    }
    assert(new_start == w * (new_start as int / w as int)) by {
        vstd::arithmetic::div_mod::lemma_fundamental_div_mod(new_start as int, w as int);
    }
    let a = new_start as int / w as int;
    let b = start as int / w as int;
    assert(d == w * (a - b)) by (nonlinear_arith)
        requires
            d == new_start - start,
            start == w * b,
            new_start == w * a,
    ;
    assert(a - b >= 1) by (nonlinear_arith)
        requires
            d == w * (a - b),
            d > 0,
            w > 0,
    ;
    assert(d / (w as int) == a - b) by {
        vstd::arithmetic::div_mod::lemma_div_multiples_vanish(a - b, w as int);
    }
}

proof fn lemma_window_start(ts: u64, w: u64)
    requires
        w > 0,
    ensures
        (ts / w) * w <= ts,
        ((ts / w) * w) % (w as int) == 0,
{
    vstd::arithmetic::div_mod::lemma_fundamental_div_mod(ts as int, w as int);
    vstd::arithmetic::div_mod::lemma_mod_multiples_basic(ts as int / w as int, w as int);
    assert((ts / w) * w <= ts) by (nonlinear_arith)
        requires
            ts == w * (ts / w) + ts % w,
            ts % w >= 0,
    ;
}

/// Archives one series when the window at `start` closes and the window at
/// `new_start` opens.
fn close_series(
    ring: &mut VecDeque<Candle>,
    current: Option<Candle>,
    known: Option<u64>,
    start: u64,
    new_start: u64,
    w: u64,
)
    requires
        w > 0,
        start < new_start,
        start % w == 0,
        new_start % w == 0,
        series_wf(SeriesView { current, completed: old(ring)@, known }, Some(start), w),
    ensures
        final(ring)@ == advanced(
            SeriesView { current, completed: old(ring)@, known },
            start,
            new_start,
            w,
        ).completed,
        series_wf(
            advanced(SeriesView { current, completed: old(ring)@, known }, start, new_start, w),
            Some(new_start),
            w,
        ),
{
    let ghost sv = SeriesView { current, completed: old(ring)@, known };
    let ghost ring0 = old(ring)@;
    proof {
        lemma_window_facts(start, new_start, w);
    }
    match known {
        None => {
            assert(ring0.len() == 0);
            assert(ring@ =~= advanced(sv, start, new_start, w).completed);
        },
        Some(p) => {
            let first = match current {
                Some(c) => c,
                None => Candle::from_single_price(start, p),
            };
            archive(ring, first);
            let gaps: u64 = (new_start - start) / w;
            let mut i: u64 = 1;
            proof {
                assert(ring0.push(first) =~= ring0 + seq![first] + flats(p, start + w, w as int, 0));
            }
            while i < gaps
                invariant
                    1 <= i <= gaps,
                    gaps == (new_start - start) / (w as int),
                    gaps * w == new_start - start,
                    w > 0,
                    ring@ == keep_last(
                        ring0 + seq![first] + flats(p, start + w, w as int, (i - 1) as nat),
                        RING_CAPACITY as nat,
                    ),
                decreases gaps - i,
            {
                proof {
                    assert(i * w < gaps * w) by (nonlinear_arith)
                        requires
                            i < gaps,
                            w > 0,
                    ;
                    assert((i - 1) * w + w == i * w) by (nonlinear_arith);
                    assert(ring@.len() <= RING_CAPACITY);
                }
                let ts = start + i * w;
                archive(ring, Candle::from_single_price(ts, p));
                proof {
                    let base = ring0 + seq![first] + flats(p, start + w, w as int, (i - 1) as nat);
                    lemma_keep_last_push(base, Candle::flat(ts, p), RING_CAPACITY as nat);
                    assert(base.push(Candle::flat(ts, p)) =~= ring0 + seq![first] + flats(
                        p,
                        start + w,
                        w as int,
                        i as nat,
                    ));
                }
                i = i + 1;
            }
            proof {
                let run = closing_run(sv, start, new_start, w);
                let f = flats(p, start + w, w as int, (gaps - 1) as nat);
                assert(run == seq![first] + f);
                assert(ring0 + seq![first] + f =~= ring0 + run);
                assert(gaps * w == (gaps - 1) * w + w) by (nonlinear_arith);
                lemma_flats_contiguous(p, start + w, w as int, (gaps - 1) as nat);
                lemma_contiguous_concat(seq![first], f, w as int);
                lemma_contiguous_concat(ring0, run, w as int);
                lemma_contiguous_keep_last(ring0 + run, RING_CAPACITY as nat, w as int);
                assert(candle_ok(first, w));
                lemma_run_ok(ring0, first, p, start as int, w, (gaps - 1) as nat);
                if gaps > 1 {
                    assert(f[(gaps - 2) as int].timestamp_ms == start + w + (gaps - 2) * w);
                    assert((gaps - 2) * w + w + w == gaps * w) by (nonlinear_arith)
                        requires
                            gaps >= 2,
                    ;
                    assert(run.last() == f[(gaps - 2) as int]);
                } else {
                    assert(run.last() == first);
                }
                assert((ring0 + run).last() == run.last());
            }
        },
    }
}

impl CandleBuffer {
    pub open spec fn wf(&self) -> bool {
        buffer_wf(self@)
    }

    pub fn new(window_ms: u64) -> (b: CandleBuffer)
        requires
            window_ms > 0,
        ensures
            b.wf(),
            b@.window_ms == window_ms,
            b@.current_start is None,
            b@.last == (SeriesView { current: None, completed: Seq::empty(), known: None }),
            b@.mark == (SeriesView { current: None, completed: Seq::empty(), known: None }),
    {
        CandleBuffer {
            window_ms,
            current_window_start: None,
            current_last_price_candle: None,
            current_mark_price_candle: None,
            completed_last_price_candles: VecDeque::new(),
            completed_mark_price_candles: VecDeque::new(),
            last_known_last_price: None,
            last_known_mark_price: None,
        }
    }

    /// The last `ceil(seconds * 1000 / window)` completed candles of each
    /// series, oldest first.
    pub fn get_recent_candles(&self, seconds: i64) -> (r: (Vec<Candle>, Vec<Candle>))
        requires
            self.wf(),
        ensures
            r.0@ == keep_last(self@.last.completed, windows_in(seconds, self@.window_ms) as nat),
            r.1@ == keep_last(self@.mark.completed, windows_in(seconds, self@.window_ms) as nat),
            contiguous(r.0@, self@.window_ms as int),
            contiguous(r.1@, self@.window_ms as int),
    {
        let n = window_count(seconds, self.window_ms);
        let r = (
            ring_tail(&self.completed_last_price_candles, n),
            ring_tail(&self.completed_mark_price_candles, n),
        );
        proof {
            lemma_contiguous_keep_last(self@.last.completed, n as nat, self@.window_ms as int);
            lemma_contiguous_keep_last(self@.mark.completed, n as nat, self@.window_ms as int);
        }
        r
    }

    /// Every retained completed candle of each series, oldest first.
    pub fn get_all_completed_candles(&self) -> (r: (Vec<Candle>, Vec<Candle>))
        requires
            self.wf(),
        ensures
            r.0@ == self@.last.completed,
            r.1@ == self@.mark.completed,
            contiguous(r.0@, self@.window_ms as int),
            contiguous(r.1@, self@.window_ms as int),
    {
        let r = (
            ring_tail(&self.completed_last_price_candles, RING_CAPACITY as u128),
            ring_tail(&self.completed_mark_price_candles, RING_CAPACITY as u128),
        );
        assert(r.0@ == self@.last.completed);
        assert(r.1@ == self@.mark.completed);
        r
    }

    /// The candles that seed a recording: the last
    /// `ceil(seconds * 1000 / window)` of everything retained.
    pub fn get_pre_buffer_candles(&self, seconds: i64) -> (r: (Vec<Candle>, Vec<Candle>))
        requires
            self.wf(),
        ensures
            r.0@ == keep_last(self@.last.completed, windows_in(seconds, self@.window_ms) as nat),
            r.1@ == keep_last(self@.mark.completed, windows_in(seconds, self@.window_ms) as nat),
            contiguous(r.0@, self@.window_ms as int),
            contiguous(r.1@, self@.window_ms as int),
    {
        let n = window_count(seconds, self.window_ms);
        let all = self.get_all_completed_candles();
        let r = (keep_last_vec(all.0, n), keep_last_vec(all.1, n));
        proof {
            lemma_contiguous_keep_last(self@.last.completed, n as nat, self@.window_ms as int);
            lemma_contiguous_keep_last(self@.mark.completed, n as nat, self@.window_ms as int);
        }
        r
    }

    /// Closes the open window at `cur` and opens the one at `window_start`.
    fn advance_to(&mut self, cur: u64, window_start: u64)
        requires
            old(self).wf(),
            old(self)@.current_start == Some(cur),
            cur < window_start,
            window_start % old(self)@.window_ms == 0,
        ensures
            final(self)@ == (CandleBufferView {
                window_ms: old(self)@.window_ms,
                current_start: Some(cur),
                last: advanced(old(self)@.last, cur, window_start, old(self)@.window_ms),
                mark: advanced(old(self)@.mark, cur, window_start, old(self)@.window_ms),
            }),
            series_wf(final(self)@.last, Some(window_start), old(self)@.window_ms),
            series_wf(final(self)@.mark, Some(window_start), old(self)@.window_ms),
    {
        let w = self.window_ms;
        close_series(
            &mut self.completed_last_price_candles,
            self.current_last_price_candle,
            self.last_known_last_price,
            cur,
            window_start,
            w,
        );
        close_series(
            &mut self.completed_mark_price_candles,
            self.current_mark_price_candle,
            self.last_known_mark_price,
            cur,
            window_start,
            w,
        );
        self.current_last_price_candle = None;
        self.current_mark_price_candle = None;
    }

    /// Records one observation of either or both prices at `timestamp_ms`.
    pub fn add_price_update(&mut self, last_price: Option<u64>, mark_price: Option<u64>, timestamp_ms: u64)
        requires
            old(self).wf(),
        ensures
            final(self).wf(),
            final(self)@ == observed(old(self)@, last_price, mark_price, timestamp_ms),
    {
        let w = self.window_ms;
        proof {
            lemma_window_start(timestamp_ms, w);
        }
        let window_start = (timestamp_ms / w) * w;
        let ghost v0 = self@;
        let start = match self.current_window_start {
            None => window_start,
            Some(cur) => {
                if window_start > cur {
                    self.advance_to(cur, window_start);
                    window_start
                } else {
                    cur
                }
            },
        };
        self.current_window_start = Some(start);
        proof {
            assert(series_wf(self@.last, Some(start), w));
            assert(series_wf(self@.mark, Some(start), w));
        }
        let ghost v1 = self@;
        record_price(&mut self.current_last_price_candle, &mut self.last_known_last_price, start, last_price);
        record_price(&mut self.current_mark_price_candle, &mut self.last_known_mark_price, start, mark_price);
        proof {
            lemma_with_price_wf(v1.last, start, last_price, w);
            lemma_with_price_wf(v1.mark, start, mark_price, w);
            assert(self@.last == with_price(v1.last, start, last_price));
            assert(self@.mark == with_price(v1.mark, start, mark_price));
        }
    }
}

proof fn lemma_with_price_wf(s: SeriesView, start: u64, price: Option<u64>, w: u64)
    requires
        series_wf(s, Some(start), w),
        w > 0,
        start % w == 0,
    ensures
        series_wf(with_price(s, start, price), Some(start), w),
{
}

proof fn lemma_run_ok(ring0: Seq<Candle>, first: Candle, p: u64, start: int, w: u64, n: nat)
    requires
        w > 0,
        0 <= start,
        start % (w as int) == 0,
        start + w + n * w <= u64::MAX,
        all_ok(ring0, w),
        candle_ok(first, w),
    ensures
        all_ok(keep_last(ring0 + (seq![first] + flats(p, start + w, w as int, n)), RING_CAPACITY as nat), w),
{
    assert((start + w) % (w as int) == 0) by {
        vstd::arithmetic::div_mod::lemma_fundamental_div_mod(start, w as int);
        let q = start / (w as int);
        assert(start + w == (q + 1) * w) by (nonlinear_arith)
            requires
                start == w * q + 0,
        ;
        vstd::arithmetic::div_mod::lemma_mod_multiples_basic(q + 1, w as int);
    }
    let f = flats(p, start + w, w as int, n);
    lemma_flats_ok(p, start + w, w, n);
    let all = ring0 + (seq![first] + f);
    assert forall|k: int| 0 <= k < all.len() implies candle_ok(#[trigger] all[k], w) by {
        if k < ring0.len() {
            assert(all[k] == ring0[k]);
        } else if k == ring0.len() {
            assert(all[k] == first);
        } else {
            assert(all[k] == f[k - ring0.len() - 1]);
        }
    }
    lemma_ok_keep_last(all, RING_CAPACITY as nat, w);
}

proof fn lemma_ok_keep_last(s: Seq<Candle>, cap: nat, w: u64)
    requires
        all_ok(s, w),
    ensures
        all_ok(keep_last(s, cap), w),
{
    if s.len() > cap {
        let k = keep_last(s, cap);
        assert forall|i: int| 0 <= i < k.len() implies candle_ok(#[trigger] k[i], w) by {
            assert(k[i] == s[s.len() - cap + i]);
        }
    }
}

proof fn lemma_flats_ok(p: u64, start: int, w: u64, n: nat)
    requires
        w > 0,
        0 <= start,
        start % (w as int) == 0,
        start + n * w <= u64::MAX,
    ensures
        all_ok(flats(p, start, w as int, n), w),
{
    let f = flats(p, start, w as int, n);
    assert forall|i: int| 0 <= i < f.len() implies candle_ok(#[trigger] f[i], w) by {
        lemma_flat_ts(start, w as int, n, i);
        vstd::arithmetic::div_mod::lemma_fundamental_div_mod(start, w as int);
        let q = start / (w as int);
        assert(start + i * w == (q + i) * w) by (nonlinear_arith)
            requires
                start == w * q + 0,
        ;
        vstd::arithmetic::div_mod::lemma_mod_multiples_basic(q + i, w as int);
    }
}

/// The last `count` candles of a ring, oldest first.
fn ring_tail(ring: &VecDeque<Candle>, count: u128) -> (r: Vec<Candle>)
    ensures
        r@ == keep_last(ring@, count as nat),
{
    let len = ring.len();
    let skip: usize = if (len as u128) > count {
        len - count as usize
    } else {
        0
    };
    let mut out: Vec<Candle> = Vec::new();
    let mut i: usize = skip;
    while i < len
        invariant
            skip <= i <= len,
            len == ring@.len(),
            out@ == ring@.subrange(skip as int, i as int),
        decreases len - i,
    {
        out.push(ring[i]);
        i = i + 1;
        assert(out@ =~= ring@.subrange(skip as int, i as int));
    }
    assert(out@ =~= keep_last(ring@, count as nat));
    out
}

/// The last `count` candles of `v`.
fn keep_last_vec(v: Vec<Candle>, count: u128) -> (r: Vec<Candle>)
    ensures
        r@ == keep_last(v@, count as nat),
{
    let len = v.len();
    if (len as u128) <= count {
        return v;
    }
    let skip = len - count as usize;
    let mut out: Vec<Candle> = Vec::new();
    let mut i: usize = skip;
    while i < len
        invariant
            skip <= i <= len,
            len == v@.len(),
            out@ == v@.subrange(skip as int, i as int),
        decreases len - i,
    {
        out.push(v[i]);
        i = i + 1;
        assert(out@ =~= v@.subrange(skip as int, i as int));
    }
    out
}

fn window_count(seconds: i64, w: u64) -> (n: u128)
    requires
        w > 0,
    ensures
        n == windows_in(seconds, w),
{
    if seconds <= 0 {
        0
    } else {
        (seconds as u128 * 1000 + (w as u128) - 1) / (w as u128)
    }
}

/// Every completed series of a well-formed downsampler holds exactly one
/// candle per window, with no window skipped. With `new` and
/// `add_price_update` keeping the downsampler well formed, this holds after
/// any sequence of observations.
pub proof fn completed_windows_are_contiguous(b: CandleBuffer)
    requires
        b.wf(),
    ensures
        contiguous(b@.last.completed, b@.window_ms as int),
        contiguous(b@.mark.completed, b@.window_ms as int),
        b@.last.completed.len() > 0 ==> b@.last.completed.last().timestamp_ms + b@.window_ms
            == b@.current_start->0,
        b@.mark.completed.len() > 0 ==> b@.mark.completed.last().timestamp_ms + b@.window_ms
            == b@.current_start->0,
{
}

/// When an observation skips windows, each skipped window of a series that
/// has seen a price is archived as a flat candle (open, high, low and close
/// all equal) at the price last known when the gap began.
pub proof fn forward_filled_candles_are_flat(
    v: CandleBufferView,
    last: Option<u64>,
    mark: Option<u64>,
    ts: u64,
)
    requires
        buffer_wf(v),
        v.current_start is Some,
        window_of(ts, v.window_ms) > v.current_start->0,
    ensures
        ({
            let s = v.current_start->0;
            let ws = window_of(ts, v.window_ms);
            let w = v.window_ms as int;
            let n = (ws - s) / w - 1;
            &&& observed(v, last, mark, ts).last.completed == keep_last(
                v.last.completed + closing_run(v.last, s, ws, v.window_ms),
                RING_CAPACITY as nat,
            )
            &&& observed(v, last, mark, ts).mark.completed == keep_last(
                v.mark.completed + closing_run(v.mark, s, ws, v.window_ms),
                RING_CAPACITY as nat,
            )
            &&& v.last.known is Some ==> forall|k: int|
                1 <= k <= n ==> #[trigger] closing_run(v.last, s, ws, v.window_ms)[k]
                    == Candle::flat((s + k * w) as u64, v.last.known->0)
            &&& v.mark.known is Some ==> forall|k: int|
                1 <= k <= n ==> #[trigger] closing_run(v.mark, s, ws, v.window_ms)[k]
                    == Candle::flat((s + k * w) as u64, v.mark.known->0)
        }),
{
    let s = v.current_start->0;
    let ws = window_of(ts, v.window_ms);
    let w = v.window_ms as int;
    let n = (ws - s) / w - 1;
    if v.last.known is Some {
        assert forall|k: int| 1 <= k <= n implies #[trigger] closing_run(v.last, s, ws, v.window_ms)[k]
            == Candle::flat((s + k * w) as u64, v.last.known->0) by {
            assert((k - 1) * w + w == k * w) by (nonlinear_arith);
        }
    }
    if v.mark.known is Some {
        assert forall|k: int| 1 <= k <= n implies #[trigger] closing_run(v.mark, s, ws, v.window_ms)[k]
            == Candle::flat((s + k * w) as u64, v.mark.known->0) by {
            assert((k - 1) * w + w == k * w) by (nonlinear_arith);
        }
    }
}

/// Folds one optional sample into the open candle of a series.
fn record_price(current: &mut Option<Candle>, known: &mut Option<u64>, start: u64, price: Option<u64>)
    requires
        *old(current) is Some ==> old(current)->0.timestamp_ms == start,
    ensures
        ({
            let s = SeriesView { current: *old(current), completed: Seq::empty(), known: *old(known) };
            &&& *final(current) == with_price(s, start, price).current
            &&& *final(known) == with_price(s, start, price).known
        }),
{
    if let Some(p) = price {
        *known = Some(p);
        match *current {
            Some(c) => {
                let mut c = c;
                c.update_price(p);
                *current = Some(c);
            },
            None => {
                *current = Some(Candle::from_single_price(start, p));
            },
        }
    }
}

} // verus!
