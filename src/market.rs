//! Per-symbol state: latest prices, a rolling price history, the latest
//! order book and the candle downsampler.
use crate::candle::{CandleBuffer, CANDLE_WINDOW_MS, observed};
use crate::orderbook::ProcessedOrderbook;
use std::collections::VecDeque;
use vstd::prelude::*;

verus! {

broadcast use vstd::std_specs::vecdeque::group_vec_dequeue_axioms;

/// How long price history is retained, in milliseconds.
pub const HISTORY_RETENTION_MS: u64 = 120_000;

#[derive(Clone, Copy, Debug, PartialEq, Eq, Structural)]
pub struct PriceSnapshot {
    pub last_price: u64,
    pub mark_price: u64,
    pub timestamp_ms: u64,
}

/// Timestamps never decrease along the history.
pub open spec fn history_sorted(h: Seq<PriceSnapshot>) -> bool {
    forall|i: int, j: int| 0 <= i <= j < h.len() ==> #[trigger] h[i].timestamp_ms <= #[trigger] h[j].timestamp_ms
}

/// Whether a snapshot taken at `ts` is still within retention at `now`.
pub open spec fn retained(ts: u64, now: u64) -> bool {
    ts + HISTORY_RETENTION_MS >= now
}

/// `pruned` is `full` with the snapshots that fell out of retention at
/// `now` removed from the front.
pub open spec fn pruned_history(full: Seq<PriceSnapshot>, pruned: Seq<PriceSnapshot>, now: u64) -> bool {
    exists|k: int|
        0 <= k <= full.len() && pruned == full.subrange(k, full.len() as int) && (forall|i: int|
            0 <= i < k ==> !retained(#[trigger] full[i].timestamp_ms, now)) && (forall|i: int|
            k <= i < full.len() ==> retained(#[trigger] full[i].timestamp_ms, now))
}

/// The last price of the most recent snapshot taken at or before `target`.
pub open spec fn price_at_spec(h: Seq<PriceSnapshot>, target: int) -> Option<u64>
    decreases h.len(),
{
    if h.len() == 0 {
        None
    } else if h.last().timestamp_ms <= target {
        Some(h.last().last_price)
    } else {
        price_at_spec(h.drop_last(), target)
    }
}

/// Sums of last and mark prices, and the count, over the snapshots taken at
/// or after `cutoff`.
pub open spec fn baseline_sums(h: Seq<PriceSnapshot>, cutoff: int) -> (int, int, int)
    decreases h.len(),
{
    if h.len() == 0 {
        (0, 0, 0)
    } else {
        let r = baseline_sums(h.drop_last(), cutoff);
        let s = h.last();
        if s.timestamp_ms >= cutoff {
            (r.0 + s.last_price, r.1 + s.mark_price, r.2 + 1)
        } else {
            r
        }
    }
}

/// Mean last and mark price (each rounded down) over the trailing window,
/// absent when no snapshot falls in it.
pub open spec fn baseline_spec(h: Seq<PriceSnapshot>, cutoff: int) -> Option<(u64, u64)> {
    let r = baseline_sums(h, cutoff);
    if r.2 == 0 {
        None
    } else {
        Some(((r.0 / r.2) as u64, (r.1 / r.2) as u64))
    }
}

/// `after` is `before` with a new last price observed at `ts`: the price is
/// current, the history takes a snapshot (pruned to retention) and the
/// downsampler observes it with the current mark price.
pub open spec fn last_price_applied(before: SymbolData, after: SymbolData, price: u64, ts: u64) -> bool {
    &&& after.current_last_price == Some(price)
    &&& after.current_mark_price == before.current_mark_price
    &&& after.last_update == if ts > before.last_update {
        ts
    } else {
        before.last_update
    }
    &&& SymbolData::history_after(
        before.price_history@,
        after.price_history@,
        Some(price),
        before.current_mark_price,
        after.last_update,
    )
    &&& after.candle_buffer@ == observed(before.candle_buffer@, Some(price), before.current_mark_price, ts)
    &&& after.symbol == before.symbol
    &&& after.orderbook == before.orderbook
}

/// `after` is `before` with a new mark price observed at `ts`.
pub open spec fn mark_price_applied(before: SymbolData, after: SymbolData, price: u64, ts: u64) -> bool {
    &&& after.current_mark_price == Some(price)
    &&& after.current_last_price == before.current_last_price
    &&& after.last_update == if ts > before.last_update {
        ts
    } else {
        before.last_update
    }
    &&& SymbolData::history_after(
        before.price_history@,
        after.price_history@,
        before.current_last_price,
        Some(price),
        after.last_update,
    )
    &&& after.candle_buffer@ == observed(before.candle_buffer@, before.current_last_price, Some(price), ts)
    &&& after.symbol == before.symbol
    &&& after.orderbook == before.orderbook
}

#[derive(Clone, Debug)]
pub struct SymbolData {
    pub symbol: String,
    pub current_last_price: Option<u64>,
    pub current_mark_price: Option<u64>,
    pub orderbook: Option<ProcessedOrderbook>,
    /// Latest price-update time seen (never moves backwards).
    pub last_update: u64,
    /// Snapshots of both prices, oldest first.
    pub price_history: VecDeque<PriceSnapshot>,
    pub candle_buffer: CandleBuffer,
}

impl SymbolData {
    pub open spec fn wf(&self) -> bool {
        &&& self.candle_buffer.wf()
        &&& self.candle_buffer@.window_ms == CANDLE_WINDOW_MS
        &&& history_sorted(self.price_history@)
        &&& forall|i: int|
            0 <= i < self.price_history@.len() ==> #[trigger] self.price_history@[i].timestamp_ms
                <= self.last_update
    }

    pub fn new(symbol: String) -> (d: SymbolData)
        ensures
            d.wf(),
            d.symbol == symbol,
            d.current_last_price is None,
            d.current_mark_price is None,
            d.orderbook is None,
            d.last_update == 0,
            d.price_history@ == Seq::<PriceSnapshot>::empty(),
            d.candle_buffer@.current_start is None,
            d.candle_buffer@.last.completed.len() == 0,
            d.candle_buffer@.mark.completed.len() == 0,
    {
        SymbolData {
            symbol,
            current_last_price: None,
            current_mark_price: None,
            orderbook: None,
            last_update: 0,
            price_history: VecDeque::new(),
            candle_buffer: CandleBuffer::new(CANDLE_WINDOW_MS),
        }
    }

    /// The history after one snapshot of both prices at `last_update` is
    /// appended (when both are known) and stale snapshots are pruned.
    pub open spec fn history_after(
        h: Seq<PriceSnapshot>,
        h2: Seq<PriceSnapshot>,
        last: Option<u64>,
        mark: Option<u64>,
        now: u64,
    ) -> bool {
        match (last, mark) {
            (Some(l), Some(m)) => pruned_history(
                h.push(PriceSnapshot { last_price: l, mark_price: m, timestamp_ms: now }),
                h2,
                now,
            ),
            _ => h2 == h,
        }
    }

    fn add_to_history(&mut self)
        requires
            history_sorted(old(self).price_history@),
            forall|i: int|
                0 <= i < old(self).price_history@.len() ==> #[trigger] old(self).price_history@[i].timestamp_ms <= old(self).last_update,
        ensures
            Self::history_after(
                old(self).price_history@,
                final(self).price_history@,
                old(self).current_last_price,
                old(self).current_mark_price,
                old(self).last_update,
            ),
            history_sorted(final(self).price_history@),
            forall|i: int|
                0 <= i < final(self).price_history@.len() ==> #[trigger] final(self).price_history@[i].timestamp_ms <= final(self).last_update,
            final(self).symbol == old(self).symbol,
            final(self).current_last_price == old(self).current_last_price,
            final(self).current_mark_price == old(self).current_mark_price,
            final(self).orderbook == old(self).orderbook,
            final(self).last_update == old(self).last_update,
            final(self).candle_buffer == old(self).candle_buffer,
    {
        match (self.current_last_price, self.current_mark_price) {
            (Some(l), Some(m)) => {
                let now = self.last_update;
                let snap = PriceSnapshot { last_price: l, mark_price: m, timestamp_ms: now };
                self.price_history.push_back(snap);
                let ghost full = self.price_history@;
                let ghost mut k: int = 0;
                assert(history_sorted(full));
                while self.price_history.len() > 0 && now - self.price_history[0].timestamp_ms
                    > HISTORY_RETENTION_MS
                    invariant
                        0 <= k <= full.len(),
                        self.price_history@ == full.subrange(k, full.len() as int),
                        forall|i: int| 0 <= i < k ==> !retained(#[trigger] full[i].timestamp_ms, now),
                        history_sorted(full),
                        full.len() > 0,
                        full.last().timestamp_ms == now,
                        forall|i: int| 0 <= i < full.len() ==> #[trigger] full[i].timestamp_ms <= now,
                        self.symbol == old(self).symbol,
                        self.current_last_price == old(self).current_last_price,
                        self.current_mark_price == old(self).current_mark_price,
                        self.orderbook == old(self).orderbook,
                        self.last_update == now,
                        self.candle_buffer == old(self).candle_buffer,
                    decreases self.price_history@.len(),
                {
                    let _ = self.price_history.pop_front();
                    proof {
                        k = k + 1;
                    }
                }
                proof {
                    assert forall|i: int| k <= i < full.len() implies retained(
                        #[trigger] full[i].timestamp_ms,
                        now,
                    ) by {
                        if self.price_history@.len() > 0 {
                            assert(full[k].timestamp_ms <= full[i].timestamp_ms);
                        }
                    }
                    assert(pruned_history(full, self.price_history@, now));
                    assert forall|i: int, j: int|
                        0 <= i <= j < self.price_history@.len() implies #[trigger] self.price_history@[i].timestamp_ms
                        <= #[trigger] self.price_history@[j].timestamp_ms by {
                        assert(full[k + i].timestamp_ms <= full[k + j].timestamp_ms);
                    }
                    assert forall|i: int| 0 <= i < self.price_history@.len() implies #[trigger] self.price_history@[i].timestamp_ms
                        <= self.last_update by {
                        assert(full[k + i].timestamp_ms <= now);
                    }
                }
            },
            _ => {},
        }
    }

    /// Records a new last traded price observed at `timestamp_ms`.
    pub fn update_last_price(&mut self, price: u64, timestamp_ms: u64)
        requires
            old(self).wf(),
        ensures
            final(self).wf(),
            last_price_applied(*old(self), *final(self), price, timestamp_ms),
    {
        self.current_last_price = Some(price);
        if timestamp_ms > self.last_update {
            self.last_update = timestamp_ms;
        }
        self.add_to_history();
        let mark = self.current_mark_price;
        self.candle_buffer.add_price_update(Some(price), mark, timestamp_ms);
    }

    /// Records a new mark (fair) price observed at `timestamp_ms`.
    pub fn update_mark_price(&mut self, price: u64, timestamp_ms: u64)
        requires
            old(self).wf(),
        ensures
            final(self).wf(),
            mark_price_applied(*old(self), *final(self), price, timestamp_ms),
    {
        self.current_mark_price = Some(price);
        if timestamp_ms > self.last_update {
            self.last_update = timestamp_ms;
        }
        self.add_to_history();
        let last = self.current_last_price;
        self.candle_buffer.add_price_update(last, Some(price), timestamp_ms);
    }

    /// Replaces the order-book snapshot.
    pub fn update_orderbook(&mut self, orderbook: ProcessedOrderbook)
        requires
            old(self).wf(),
        ensures
            final(self).wf(),
            final(self).orderbook == Some(orderbook),
            final(self).symbol == old(self).symbol,
            final(self).current_last_price == old(self).current_last_price,
            final(self).current_mark_price == old(self).current_mark_price,
            final(self).last_update == old(self).last_update,
            final(self).price_history@ == old(self).price_history@,
            final(self).candle_buffer == old(self).candle_buffer,
    {
        self.orderbook = Some(orderbook);
    }

    /// Last price of the most recent snapshot taken at least `seconds_ago`
    /// seconds before `now_ms`.
    pub fn get_price_at(&self, seconds_ago: u64, now_ms: u64) -> (r: Option<u64>)
        ensures
            r == price_at_spec(self.price_history@, now_ms - seconds_ago * 1000),
    {
        let back = (seconds_ago as u128) * 1000;
        let h = &self.price_history;
        if back > now_ms as u128 {
            proof {
                lemma_price_at_none(h@, now_ms - seconds_ago * 1000);
            }
            return None;
        }
        let target = now_ms - back as u64;
        let mut i = h.len();
        assert(h@.subrange(0, i as int) =~= h@);
        while i > 0
            invariant
                i <= h@.len(),
                h@ == self.price_history@,
                target as int == now_ms - seconds_ago * 1000,
                price_at_spec(h@, target as int) == price_at_spec(h@.subrange(0, i as int), target as int),
            decreases i,
        {
            let s = h[i - 1];
            proof {
                assert(h@.subrange(0, i as int).drop_last() =~= h@.subrange(0, i - 1));
            }
            if s.timestamp_ms <= target {
                assert(h@.subrange(0, i as int).last() == s);
                assert(target as int == now_ms - seconds_ago * 1000);
                assert(h@.subrange(0, i as int).len() > 0);
                assert(price_at_spec(h@.subrange(0, i as int), target as int) == Some(s.last_price));
                return Some(s.last_price);
            }
            i = i - 1;
        }
        None
    }

    /// Mean last and mark price (each rounded down) over the snapshots taken
    /// in the last `window_secs` seconds before `now_ms`.
    pub fn get_baseline_prices(&self, window_secs: u64, now_ms: u64) -> (r: Option<(u64, u64)>)
        ensures
            r == baseline_spec(self.price_history@, now_ms - window_secs * 1000),
    {
        let back = (window_secs as u128) * 1000;
        let cutoff: u64 = if back > now_ms as u128 {
            0
        } else {
            now_ms - back as u64
        };
        let h = &self.price_history;
        let mut sum_last: u128 = 0;
        let mut sum_mark: u128 = 0;
        let mut count: u64 = 0;
        let mut i: usize = 0;
        proof {
            lemma_baseline_cutoff(h@, now_ms - window_secs * 1000, cutoff as int);
        }
        while i < h.len()
            invariant
                i <= h@.len(),
                h@ == self.price_history@,
                baseline_sums(h@.subrange(0, i as int), cutoff as int) == (
                    sum_last as int,
                    sum_mark as int,
                    count as int,
                ),
                sum_last <= i * (u64::MAX as int),
                sum_mark <= i * (u64::MAX as int),
                count <= i,
            decreases h@.len() - i,
        {
            let s = h[i];
            proof {
                assert(h@.subrange(0, i + 1).drop_last() =~= h@.subrange(0, i as int));
                assert((i + 1) * (u64::MAX as int) == i * (u64::MAX as int) + u64::MAX) by (nonlinear_arith);
                assert((i + 1) * (u64::MAX as int) <= u64::MAX * (u64::MAX as int) + u64::MAX) by (nonlinear_arith)
                    requires
                        i < u64::MAX,
                ;
            }
            if s.timestamp_ms >= cutoff {
                sum_last = sum_last + s.last_price as u128;
                sum_mark = sum_mark + s.mark_price as u128;
                count = count + 1;
            }
            i = i + 1;
        }
        proof {
            assert(h@.subrange(0, h@.len() as int) =~= h@);
        }
        if count == 0 {
            return None;
        }
        proof {
            lemma_baseline_bounds(h@, cutoff as int);
            lemma_mean_fits(sum_last as int, count as int);
            lemma_mean_fits(sum_mark as int, count as int);
        }
        Some(((sum_last / count as u128) as u64, (sum_mark / count as u128) as u64))
    }
}

proof fn lemma_price_at_none(h: Seq<PriceSnapshot>, target: int)
    requires
        target < 0,
    ensures
        price_at_spec(h, target) is None,
    decreases h.len(),
{
    if h.len() > 0 {
        lemma_price_at_none(h.drop_last(), target);
    }
}

proof fn lemma_baseline_cutoff(h: Seq<PriceSnapshot>, cutoff: int, clamped: int)
    requires
        clamped == if cutoff < 0 {
            0
        } else {
            cutoff
        },
    ensures
        baseline_sums(h, cutoff) == baseline_sums(h, clamped),
    decreases h.len(),
{
    if h.len() > 0 {
        lemma_baseline_cutoff(h.drop_last(), cutoff, clamped);
    }
}

proof fn lemma_baseline_bounds(h: Seq<PriceSnapshot>, cutoff: int)
    ensures
        baseline_sums(h, cutoff).2 >= 0,
        baseline_sums(h, cutoff).0 <= baseline_sums(h, cutoff).2 * (u64::MAX as int),
        baseline_sums(h, cutoff).1 <= baseline_sums(h, cutoff).2 * (u64::MAX as int),
        baseline_sums(h, cutoff).0 >= 0,
        baseline_sums(h, cutoff).1 >= 0,
    decreases h.len(),
{
    if h.len() > 0 {
        lemma_baseline_bounds(h.drop_last(), cutoff);
        let r = baseline_sums(h.drop_last(), cutoff);
        assert((r.2 + 1) * (u64::MAX as int) == r.2 * (u64::MAX as int) + u64::MAX) by (nonlinear_arith);
    }
}

proof fn lemma_mean_fits(sum: int, count: int)
    requires
        count > 0,
        0 <= sum <= count * (u64::MAX as int),
    ensures
        0 <= sum / count <= u64::MAX,
{
    vstd::arithmetic::div_mod::lemma_div_is_ordered(sum, count * (u64::MAX as int), count);
    vstd::arithmetic::div_mod::lemma_div_multiples_vanish(u64::MAX as int, count);
    assert(count * (u64::MAX as int) == (u64::MAX as int) * count) by (nonlinear_arith);
    vstd::arithmetic::div_mod::lemma_div_pos_is_pos(sum, count);
}

} // verus!
