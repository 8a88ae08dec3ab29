//! Episodes and the per-symbol episode/cooldown state machine.
use crate::clock::now_ms;
use vstd::prelude::*;

verus! {

/// One anomaly episode: when it started and its running peak. Ratios are
/// `last / mark` in `PRICE_SCALE` ticks.
#[derive(Clone, Debug)]
pub struct Episode {
    pub symbol: String,
    pub start_time_ms: u64,
    pub peak_ratio: u128,
    pub peak_last_price: u64,
    pub peak_mark_price: u64,
    /// Set when the episode closes: until when a new episode is suppressed.
    pub last_cooldown_end: Option<u64>,
}

impl Episode {
    pub open spec fn opened(symbol: String, ratio: u128, last_price: u64, mark_price: u64, now: u64) -> Episode {
        Episode {
            symbol,
            start_time_ms: now,
            peak_ratio: ratio,
            peak_last_price: last_price,
            peak_mark_price: mark_price,
            last_cooldown_end: None,
        }
    }

    /// The peak replaced only on a strictly higher ratio.
    pub open spec fn with_peak(self, ratio: u128, last_price: u64, mark_price: u64) -> Episode {
        if ratio > self.peak_ratio {
            Episode {
                symbol: self.symbol,
                start_time_ms: self.start_time_ms,
                peak_ratio: ratio,
                peak_last_price: last_price,
                peak_mark_price: mark_price,
                last_cooldown_end: self.last_cooldown_end,
            }
        } else {
            self
        }
    }

    pub fn new(symbol: String, ratio: u128, last_price: u64, mark_price: u64, start_time_ms: u64) -> (e: Episode)
        ensures
            e == Episode::opened(symbol, ratio, last_price, mark_price, start_time_ms),
    {
        Episode {
            symbol,
            start_time_ms,
            peak_ratio: ratio,
            peak_last_price: last_price,
            peak_mark_price: mark_price,
            last_cooldown_end: None,
        }
    }

    pub fn update_peak(&mut self, ratio: u128, last_price: u64, mark_price: u64)
        ensures
            *final(self) == old(self).with_peak(ratio, last_price, mark_price),
    {
        if ratio > self.peak_ratio {
            self.peak_ratio = ratio;
            self.peak_last_price = last_price;
            self.peak_mark_price = mark_price;
        }
    }
}

/// What the tracker holds for one symbol: the open episode, if any, and the
/// end of the cooldown left by the last closed one.
#[derive(Clone, Debug)]
pub struct TrackState {
    pub active: Option<Episode>,
    pub cooldown_until: Option<u64>,
}

pub open spec fn idle() -> TrackState {
    TrackState { active: None, cooldown_until: None }
}

/// `now + cooldown_seconds` in milliseconds, saturating at `u64::MAX`.
pub open spec fn cooldown_end(now: u64, cooldown_seconds: u64) -> u64 {
    if now + cooldown_seconds * 1000 > u64::MAX {
        u64::MAX
    } else {
        (now + cooldown_seconds * 1000) as u64
    }
}

/// One step of the episode state machine: the new state, the episode that
/// closed (if any) and whether an episode started.
pub open spec fn transition(
    st: TrackState,
    symbol: String,
    condition_met: bool,
    ratio: u128,
    last_price: u64,
    mark_price: u64,
    now: u64,
    cooldown_seconds: u64,
) -> (TrackState, Option<Episode>, bool) {
    if condition_met {
        match st.active {
            Some(e) => (
                TrackState {
                    active: Some(e.with_peak(ratio, last_price, mark_price)),
                    cooldown_until: st.cooldown_until,
                },
                None,
                false,
            ),
            None => if st.cooldown_until is Some && now < st.cooldown_until->0 {
                (st, None, false)
            } else {
                (
                    TrackState {
                        active: Some(Episode::opened(symbol, ratio, last_price, mark_price, now)),
                        cooldown_until: st.cooldown_until,
                    },
                    None,
                    true,
                )
            },
        }
    } else {
        match st.active {
            Some(e) => {
                let until = cooldown_end(now, cooldown_seconds);
                (
                    TrackState { active: None, cooldown_until: Some(until) },
                    Some(
                        Episode {
                            symbol: e.symbol,
                            start_time_ms: e.start_time_ms,
                            peak_ratio: e.peak_ratio,
                            peak_last_price: e.peak_last_price,
                            peak_mark_price: e.peak_mark_price,
                            last_cooldown_end: Some(until),
                        },
                    ),
                    false,
                )
            },
            None => (st, None, false),
        }
    }
}

fn step(
    st: TrackState,
    symbol: &String,
    condition_met: bool,
    ratio: u128,
    last_price: u64,
    mark_price: u64,
    now: u64,
    cooldown_seconds: u64,
) -> (r: (TrackState, Option<Episode>, bool))
    ensures
        r == transition(st, *symbol, condition_met, ratio, last_price, mark_price, now, cooldown_seconds),
{
    let TrackState { active, cooldown_until } = st;
    if condition_met {
        match active {
            Some(e) => {
                let mut e = e;
                e.update_peak(ratio, last_price, mark_price);
                (TrackState { active: Some(e), cooldown_until }, None, false)
            },
            None => {
                if let Some(until) = cooldown_until {
                    if now < until {
                        return (TrackState { active: None, cooldown_until }, None, false);
                    }
                }
                let e = Episode::new(symbol.clone(), ratio, last_price, mark_price, now);
                (TrackState { active: Some(e), cooldown_until }, None, true)
            },
        }
    } else {
        match active {
            Some(e) => {
                let add = (cooldown_seconds as u128) * 1000;
                let until: u64 = if (now as u128) + add > u64::MAX as u128 {
                    u64::MAX
                } else {
                    now + add as u64
                };
                let mut e = e;
                e.last_cooldown_end = Some(until);
                (TrackState { active: None, cooldown_until: Some(until) }, Some(e), false)
            },
            None => (TrackState { active: None, cooldown_until }, None, false),
        }
    }
}

#[derive(Clone, Debug)]
pub struct TrackedSymbol {
    pub symbol: String,
    pub state: TrackState,
}

/// Index of the last entry for `sym`.
pub open spec fn find_last(entries: Seq<TrackedSymbol>, sym: Seq<char>) -> Option<int>
    decreases entries.len(),
{
    if entries.len() == 0 {
        None
    } else if entries.last().symbol@ == sym {
        Some(entries.len() - 1)
    } else {
        find_last(entries.drop_last(), sym)
    }
}

pub open spec fn lookup(entries: Seq<TrackedSymbol>, sym: Seq<char>) -> TrackState {
    match find_last(entries, sym) {
        Some(i) => entries[i].state,
        None => idle(),
    }
}

proof fn lemma_find_last_found(entries: Seq<TrackedSymbol>, sym: Seq<char>)
    ensures
        find_last(entries, sym) is Some ==> {
            let i = find_last(entries, sym)->0;
            0 <= i < entries.len() && entries[i].symbol@ == sym
        },
        find_last(entries, sym) is None ==> forall|j: int|
            0 <= j < entries.len() ==> (#[trigger] entries[j]).symbol@ != sym,
    decreases entries.len(),
{
    if entries.len() > 0 {
        lemma_find_last_found(entries.drop_last(), sym);
        if find_last(entries, sym) is None {
            assert forall|j: int| 0 <= j < entries.len() implies (#[trigger] entries[j]).symbol@ != sym by {
                if j < entries.len() - 1 {
                    assert(entries.drop_last()[j] == entries[j]);
                }
            }
        }
    }
}

proof fn lemma_find_last_update(entries: Seq<TrackedSymbol>, i: int, e: TrackedSymbol, sym: Seq<char>)
    requires
        0 <= i < entries.len(),
        entries[i].symbol@ == e.symbol@,
    ensures
        find_last(entries.update(i, e), sym) == find_last(entries, sym),
    decreases entries.len(),
{
    let u = entries.update(i, e);
    if i == entries.len() - 1 {
        assert(u.drop_last() =~= entries.drop_last());
    } else {
        assert(u.drop_last() =~= entries.drop_last().update(i, e));
        lemma_find_last_update(entries.drop_last(), i, e, sym);
    }
}

proof fn lemma_lookup_update(entries: Seq<TrackedSymbol>, i: int, e: TrackedSymbol, sym: Seq<char>)
    requires
        find_last(entries, e.symbol@) == Some(i),
    ensures
        lookup(entries.update(i, e), sym) == if sym == e.symbol@ {
            e.state
        } else {
            lookup(entries, sym)
        },
{
    lemma_find_last_found(entries, e.symbol@);
    lemma_find_last_update(entries, i, e, sym);
    lemma_find_last_found(entries, sym);
}

proof fn lemma_lookup_push(entries: Seq<TrackedSymbol>, e: TrackedSymbol, sym: Seq<char>)
    ensures
        lookup(entries.push(e), sym) == if sym == e.symbol@ {
            e.state
        } else {
            lookup(entries, sym)
        },
{
    assert(entries.push(e).drop_last() =~= entries);
    lemma_find_last_found(entries, sym);
}

/// One condition sample for `symbol` at `now` took the tracker from
/// `before` to `after` and returned `r`.
pub open spec fn fed(
    before: EpisodeTracker,
    after: EpisodeTracker,
    symbol: String,
    condition_met: bool,
    ratio: u128,
    last_price: u64,
    mark_price: u64,
    now: u64,
    r: (Option<Episode>, bool),
) -> bool {
    let t = transition(
        before.state_of(symbol@),
        symbol,
        condition_met,
        ratio,
        last_price,
        mark_price,
        now,
        before.cooldown(),
    );
    &&& after.state_of(symbol@) == t.0
    &&& r == (t.1, t.2)
}

/// Episode state per symbol for one strategy, with a fixed cooldown.
pub struct EpisodeTracker {
    entries: Vec<TrackedSymbol>,
    cooldown_seconds: u64,
}

/// No two entries are for the same symbol.
pub open spec fn symbols_unique(entries: Seq<TrackedSymbol>) -> bool {
    forall|i: int, j: int|
        0 <= i < entries.len() && 0 <= j < entries.len() && i != j ==> #[trigger] entries[i].symbol@
            != #[trigger] entries[j].symbol@
}

impl EpisodeTracker {
    /// One entry per symbol.
    pub closed spec fn wf(&self) -> bool {
        symbols_unique(self.entries@)
    }

    /// The state held for `sym` (idle when nothing was recorded).
    pub closed spec fn state_of(&self, sym: Seq<char>) -> TrackState {
        lookup(self.entries@, sym)
    }

    pub closed spec fn cooldown(&self) -> u64 {
        self.cooldown_seconds
    }

    pub fn new(cooldown_seconds: u64) -> (t: EpisodeTracker)
        ensures
            t.wf(),
            t.cooldown() == cooldown_seconds,
            forall|sym: Seq<char>| #[trigger] t.state_of(sym) == idle(),
    {
        EpisodeTracker { entries: Vec::new(), cooldown_seconds }
    }

    fn find(&self, symbol: &String) -> (r: Option<usize>)
        ensures
            r matches Some(i) ==> find_last(self.entries@, symbol@) == Some(i as int),
            r is None ==> find_last(self.entries@, symbol@) is None,
    {
        let mut i = self.entries.len();
        assert(self.entries@.subrange(0, i as int) =~= self.entries@);
        while i > 0
            invariant
                i <= self.entries@.len(),
                find_last(self.entries@, symbol@) == find_last(self.entries@.subrange(0, i as int), symbol@),
            decreases i,
        {
            proof {
                assert(self.entries@.subrange(0, i as int).drop_last() =~= self.entries@.subrange(0, i - 1));
            }
            if self.entries[i - 1].symbol == *symbol {
                return Some(i - 1);
            }
            i = i - 1;
        }
        proof {
            assert(self.entries@.subrange(0, 0) =~= Seq::<TrackedSymbol>::empty());
        }
        None
    }

    /// Feeds one condition sample for `symbol`, stamped with the wall clock.
    pub fn check_condition(
        &mut self,
        symbol: &String,
        condition_met: bool,
        ratio: u128,
        last_price: u64,
        mark_price: u64,
    ) -> (r: (Option<Episode>, bool))
        requires
            old(self).wf(),
        ensures
            final(self).wf(),
            exists|now: u64| #[trigger] fed(*old(self), *final(self), *symbol, condition_met, ratio, last_price, mark_price, now, r),
            final(self).cooldown() == old(self).cooldown(),
            forall|sym: Seq<char>|
                sym != symbol@ ==> #[trigger] final(self).state_of(sym) == old(self).state_of(sym),
    {
        let now = now_ms();
        let r = self.check_condition_at(symbol, condition_met, ratio, last_price, mark_price, now);
        assert(fed(*old(self), *self, *symbol, condition_met, ratio, last_price, mark_price, now, r));
        r
    }

    /// Feeds one condition sample for `symbol` observed at `now_ms`.
    /// Returns the episode that closed, if any, and whether one started.
    pub fn check_condition_at(
        &mut self,
        symbol: &String,
        condition_met: bool,
        ratio: u128,
        last_price: u64,
        mark_price: u64,
        now_ms: u64,
    ) -> (r: (Option<Episode>, bool))
        requires
            old(self).wf(),
        ensures
            final(self).wf(),
            ({
                let t = transition(
                    old(self).state_of(symbol@),
                    *symbol,
                    condition_met,
                    ratio,
                    last_price,
                    mark_price,
                    now_ms,
                    old(self).cooldown(),
                );
                &&& final(self).state_of(symbol@) == t.0
                &&& r == (t.1, t.2)
            }),
            final(self).cooldown() == old(self).cooldown(),
            forall|sym: Seq<char>|
                sym != symbol@ ==> #[trigger] final(self).state_of(sym) == old(self).state_of(sym),
    {
        proof {
            assert(self.entries@.subrange(0, self.entries@.len() as int) =~= self.entries@);
        }
        match self.find(symbol) {
            Some(i) => {
                let ghost before = self.entries@;
                proof {
                    lemma_find_last_found(before, symbol@);
                }
                let entry = self.entries.remove(i);
                proof {
                    let u = self.entries@;
                    assert forall|a: int, b: int|
                        0 <= a < u.len() && 0 <= b < u.len() && a != b implies #[trigger] u[a].symbol@
                        != #[trigger] u[b].symbol@ by {
                        let a2 = if a < i { a } else { a + 1 };
                        let b2 = if b < i { b } else { b + 1 };
                        assert(u[a] == before[a2] && u[b] == before[b2]);
                    }
                }
                let TrackedSymbol { symbol: key, state } = entry;
                let r = step(
                    state,
                    symbol,
                    condition_met,
                    ratio,
                    last_price,
                    mark_price,
                    now_ms,
                    self.cooldown_seconds,
                );
                let (st, closed, started) = r;
                let ghost e = TrackedSymbol { symbol: key, state: st };
                self.entries.insert(i, TrackedSymbol { symbol: key, state: st });
                proof {
                    lemma_find_last_found(before, symbol@);
                    assert(self.entries@ =~= before.update(i as int, e));
                    let u = self.entries@;
                    assert forall|a: int, b: int|
                        0 <= a < u.len() && 0 <= b < u.len() && a != b implies #[trigger] u[a].symbol@
                        != #[trigger] u[b].symbol@ by {
                        assert(before[a].symbol@ != before[b].symbol@);
                    }
                    assert forall|sym: Seq<char>| #[trigger] lookup(self.entries@, sym) == if sym == symbol@ {
                        e.state
                    } else {
                        lookup(before, sym)
                    } by {
                        lemma_lookup_update(before, i as int, e, sym);
                    }
                }
                (closed, started)
            },
            None => {
                if !condition_met {
                    return (None, false);
                }
                let r = step(
                    TrackState { active: None, cooldown_until: None },
                    symbol,
                    condition_met,
                    ratio,
                    last_price,
                    mark_price,
                    now_ms,
                    self.cooldown_seconds,
                );
                let (st, closed, started) = r;
                let ghost before = self.entries@;
                let key = symbol.clone();
                let ghost e = TrackedSymbol { symbol: key, state: st };
                proof {
                    lemma_find_last_found(before, symbol@);
                }
                self.entries.push(TrackedSymbol { symbol: key, state: st });
                proof {
                    let u = self.entries@;
                    assert forall|a: int, b: int|
                        0 <= a < u.len() && 0 <= b < u.len() && a != b implies #[trigger] u[a].symbol@
                        != #[trigger] u[b].symbol@ by {
                        if a < before.len() && b < before.len() {
                            assert(before[a].symbol@ != before[b].symbol@);
                        } else if a == before.len() {
                            assert(before[b].symbol@ != symbol@);
                        } else {
                            assert(before[a].symbol@ != symbol@);
                        }
                    }
                    assert forall|sym: Seq<char>| #[trigger] lookup(self.entries@, sym) == if sym == symbol@ {
                        e.state
                    } else {
                        lookup(before, sym)
                    } by {
                        lemma_lookup_push(before, self.entries@.last(), sym);
                        assert(self.entries@ == before.push(self.entries@.last()));
                    }
                }
                (closed, started)
            },
        }
    }
}

/// Feeding met, met, not met (the first two with the same ratio) to a
/// symbol with no open episode and no pending cooldown starts an episode on
/// the first step only, and the third step closes it with that ratio as its
/// peak and starts nothing.
pub proof fn met_met_unmet_closes_one_episode(
    symbol: String,
    ratio: u128,
    last1: u64,
    mark1: u64,
    last2: u64,
    mark2: u64,
    last3: u64,
    mark3: u64,
    ratio3: u128,
    t1: u64,
    t2: u64,
    t3: u64,
    cooldown_seconds: u64,
)
    ensures
        ({
            let s1 = transition(idle(), symbol, true, ratio, last1, mark1, t1, cooldown_seconds);
            let s2 = transition(s1.0, symbol, true, ratio, last2, mark2, t2, cooldown_seconds);
            let s3 = transition(s2.0, symbol, false, ratio3, last3, mark3, t3, cooldown_seconds);
            &&& s1.2 && s1.1 is None
            &&& !s2.2 && s2.1 is None
            &&& !s3.2
            &&& s3.1 is Some
            &&& s3.1->0.peak_ratio == ratio
            &&& s3.1->0.peak_last_price == last1
            &&& s3.1->0.start_time_ms == t1
            &&& s3.0.active is None
        }),
{
}

/// Once an episode closes with a cooldown of `C` seconds, a condition that
/// holds again before the cooldown ends starts no episode, and one that
/// holds when it has ended or after does. The cooldown ends `C` seconds
/// after the close (saturating at the largest instant).
pub proof fn cooldown_suppresses_then_allows(
    st: TrackState,
    symbol: String,
    ratio: u128,
    last_price: u64,
    mark_price: u64,
    closed_at: u64,
    cooldown_seconds: u64,
    later: u64,
)
    requires
        st.active is Some,
    ensures
        ({
            let after_close = transition(
                st,
                symbol,
                false,
                ratio,
                last_price,
                mark_price,
                closed_at,
                cooldown_seconds,
            ).0;
            let again = transition(
                after_close,
                symbol,
                true,
                ratio,
                last_price,
                mark_price,
                later,
                cooldown_seconds,
            );
            let end = cooldown_end(closed_at, cooldown_seconds);
            &&& after_close.active is None
            &&& closed_at + cooldown_seconds * 1000 <= u64::MAX ==> end == closed_at + cooldown_seconds * 1000
            &&& (later < end ==> !again.2 && again.0.active is None)
            &&& (later >= end ==> again.2 && again.0.active is Some)
        }),
{
}

/// An open episode after a run of met samples `(ratio, last, mark)`.
pub open spec fn after_met_run(
    st: TrackState,
    symbol: String,
    samples: Seq<(u128, u64, u64)>,
    now: u64,
    cooldown_seconds: u64,
) -> TrackState
    decreases samples.len(),
{
    if samples.len() == 0 {
        st
    } else {
        let s = samples.last();
        transition(
            after_met_run(st, symbol, samples.drop_last(), now, cooldown_seconds),
            symbol,
            true,
            s.0,
            s.1,
            s.2,
            now,
            cooldown_seconds,
        ).0
    }
}

/// The peak `(ratio, last, mark)` after `samples`: the first sample with
/// the largest ratio, unless none exceeds the starting `peak`.
pub open spec fn peak_after(peak: (u128, u64, u64), samples: Seq<(u128, u64, u64)>) -> (u128, u64, u64)
    decreases samples.len(),
{
    if samples.len() == 0 {
        peak
    } else {
        let m = peak_after(peak, samples.drop_last());
        if samples.last().0 > m.0 {
            samples.last()
        } else {
            m
        }
    }
}

/// However many met samples follow, an open episode keeps its start and
/// its peak is the first sample with the largest ratio seen (prices
/// included); the unmet sample that follows closes it with that peak and
/// starts nothing.
pub proof fn peak_is_max_over_met_run(
    st: TrackState,
    symbol: String,
    samples: Seq<(u128, u64, u64)>,
    now: u64,
    close: (u128, u64, u64),
    closed_at: u64,
    cooldown_seconds: u64,
)
    requires
        st.active is Some,
    ensures
        ({
            let e0 = st.active->0;
            let peak = peak_after((e0.peak_ratio, e0.peak_last_price, e0.peak_mark_price), samples);
            let run = after_met_run(st, symbol, samples, now, cooldown_seconds);
            let end = transition(run, symbol, false, close.0, close.1, close.2, closed_at, cooldown_seconds);
            &&& run.active is Some
            &&& (run.active->0.peak_ratio, run.active->0.peak_last_price, run.active->0.peak_mark_price) == peak
            &&& run.active->0.start_time_ms == e0.start_time_ms
            &&& !end.2
            &&& end.1 is Some
            &&& (end.1->0.peak_ratio, end.1->0.peak_last_price, end.1->0.peak_mark_price) == peak
            &&& end.1->0.start_time_ms == e0.start_time_ms
        }),
    decreases samples.len(),
{
    if samples.len() > 0 {
        peak_is_max_over_met_run(st, symbol, samples.drop_last(), now, close, closed_at, cooldown_seconds);
    }
}

} // verus!
