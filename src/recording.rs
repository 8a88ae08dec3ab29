//! The chart-recording lifecycle: one session per (symbol, strategy), seeded
//! from a pre-buffer, extended from the downsampler, and handed out once
//! when it is finalized.
use crate::candle::{Candle, CandleBuffer};
use dashmap::DashMap;
use vstd::prelude::*;

verus! {

#[derive(Clone, Debug)]
pub struct RecordingSession {
    pub symbol: String,
    pub strategy_name: String,
    pub start_time_ms: u64,
    pub anomaly_ended: Option<u64>,
    pub last_price_candles: Vec<Candle>,
    pub mark_price_candles: Vec<Candle>,
}

/// A session as a mathematical value.
pub ghost struct SessionView {
    pub start_time_ms: u64,
    pub anomaly_ended: Option<u64>,
    pub last: Seq<Candle>,
    pub mark: Seq<Candle>,
}

impl RecordingSession {
    pub open spec fn view_of(&self) -> SessionView {
        SessionView {
            start_time_ms: self.start_time_ms,
            anomaly_ended: self.anomaly_ended,
            last: self.last_price_candles@,
            mark: self.mark_price_candles@,
        }
    }

    pub open spec fn has_key(&self, symbol: Seq<char>, strategy: Seq<char>) -> bool {
        self.symbol@ == symbol && self.strategy_name@ == strategy
    }
}

/// The candles of `ring` that start after `after`, in order.
pub open spec fn newer_than(ring: Seq<Candle>, after: u64) -> Seq<Candle>
    decreases ring.len(),
{
    if ring.len() == 0 {
        Seq::empty()
    } else {
        let rest = newer_than(ring.drop_last(), after);
        if ring.last().timestamp_ms > after {
            rest.push(ring.last())
        } else {
            rest
        }
    }
}

/// `have` extended by the candles of `ring` it does not hold yet: every
/// candle when `have` is empty, otherwise those after its newest one.
pub open spec fn extended(have: Seq<Candle>, ring: Seq<Candle>) -> Seq<Candle> {
    if have.len() == 0 {
        ring
    } else {
        have + newer_than(ring, have.last().timestamp_ms)
    }
}

#[verifier::external_type_specification]
#[verifier::external_body]
#[verifier::reject_recursive_types(K)]
#[verifier::reject_recursive_types(V)]
#[verifier::reject_recursive_types(S)]
pub struct ExDashMap<K, V, S>(DashMap<K, V, S>);

/// Sessions keyed by (symbol, strategy name).
pub type SessionTable = DashMap<(String, String), RecordingSession>;

/// The sessions a table holds, by the views of their keys.
pub uninterp spec fn sessions_of(m: DashMap<(String, String), RecordingSession>) -> Map<
    (Seq<char>, Seq<char>),
    RecordingSession,
>;

pub open spec fn key_view(k: (String, String)) -> (Seq<char>, Seq<char>) {
    (k.0@, k.1@)
}

/// Relies on dashmap's `DashMap::new`: a map without entries.
#[verifier::external_body]
fn table_new() -> (r: SessionTable)
    ensures
        sessions_of(r).dom().is_empty(),
{
    DashMap::new()
}

/// Relies on dashmap's `DashMap::contains_key`: whether the key has an entry.
#[verifier::external_body]
fn table_contains(m: &SessionTable, key: &(String, String)) -> (r: bool)
    ensures
        r == sessions_of(*m).contains_key(key_view(*key)),
{
    m.contains_key(key)
}

/// Relies on dashmap's `DashMap::insert`: afterwards the key maps to the
/// value and every other entry is as before.
#[verifier::external_body]
fn table_insert(m: &mut SessionTable, key: (String, String), value: RecordingSession)
    ensures
        sessions_of(*final(m)) == sessions_of(*old(m)).insert(key_view(key), value),
{
    let _ = m.insert(key, value);
}

/// Relies on dashmap's `DashMap::remove`: hands out the value held for the
/// key, if any, and drops its entry.
#[verifier::external_body]
fn table_remove(m: &mut SessionTable, key: &(String, String)) -> (r: Option<RecordingSession>)
    ensures
        sessions_of(*final(m)) == sessions_of(*old(m)).remove(key_view(*key)),
        r == if sessions_of(*old(m)).contains_key(key_view(*key)) {
            Some(sessions_of(*old(m))[key_view(*key)])
        } else {
            None
        },
{
    m.remove(key).map(|(_, v)| v)
}

/// Relies on dashmap's `DashMap::iter`, which visits every entry once: the
/// keys of the table, each once, in no stated order.
#[verifier::external_body]
fn table_keys(m: &SessionTable) -> (r: Vec<(String, String)>)
    ensures
        forall|k: (Seq<char>, Seq<char>)|
            sessions_of(*m).contains_key(k) <==> exists|i: int| 0 <= i < r@.len() && #[trigger] key_view(r@[i]) == k,
        forall|i: int, j: int|
            0 <= i < r@.len() && 0 <= j < r@.len() && i != j ==> key_view(#[trigger] r@[i]) != key_view(#[trigger] r@[j]),
{
    m.iter().map(|e| e.key().clone()).collect()
}

/// The sessions in progress, keyed by symbol and strategy name.
pub struct CsvExporter {
    post_anomaly_recording_secs: i64,
    sessions: SessionTable,
}

fn append_newer(have: &mut Vec<Candle>, ring: &Vec<Candle>)
    ensures
        final(have)@ == extended(old(have)@, ring@),
{
    if have.len() == 0 {
        let mut i: usize = 0;
        while i < ring.len()
            invariant
                i <= ring@.len(),
                have@ == ring@.subrange(0, i as int),
            decreases ring@.len() - i,
        {
            have.push(ring[i]);
            i = i + 1;
            assert(have@ =~= ring@.subrange(0, i as int));
        }
        assert(ring@.subrange(0, ring@.len() as int) =~= ring@);
        return;
    }
    let after = have[have.len() - 1].timestamp_ms;
    let ghost base = have@;
    let mut i: usize = 0;
    while i < ring.len()
        invariant
            i <= ring@.len(),
            base.len() > 0,
            after == base.last().timestamp_ms,
            have@ == base + newer_than(ring@.subrange(0, i as int), after),
        decreases ring@.len() - i,
    {
        proof {
            assert(ring@.subrange(0, i + 1).drop_last() =~= ring@.subrange(0, i as int));
        }
        let c = ring[i];
        if c.timestamp_ms > after {
            have.push(c);
        }
        i = i + 1;
        assert(have@ =~= base + newer_than(ring@.subrange(0, i as int), after));
    }
    assert(ring@.subrange(0, ring@.len() as int) =~= ring@);
}

/// Every session is stored under its own symbol and strategy name.
pub open spec fn keys_match(m: Map<(Seq<char>, Seq<char>), RecordingSession>) -> bool {
    forall|k: (Seq<char>, Seq<char>)| #[trigger] m.contains_key(k) ==> m[k].has_key(k.0, k.1)
}

impl CsvExporter {
    pub closed spec fn session(&self, symbol: Seq<char>, strategy: Seq<char>) -> Option<SessionView> {
        if sessions_of(self.sessions).contains_key((symbol, strategy)) {
            Some(sessions_of(self.sessions)[(symbol, strategy)].view_of())
        } else {
            None
        }
    }

    pub closed spec fn post_secs(&self) -> i64 {
        self.post_anomaly_recording_secs
    }

    pub closed spec fn wf(&self) -> bool {
        keys_match(sessions_of(self.sessions))
    }

    pub fn new(post_anomaly_recording_secs: i64) -> (e: CsvExporter)
        ensures
            e.wf(),
            e.post_secs() == post_anomaly_recording_secs,
            forall|s: Seq<char>, t: Seq<char>| #[trigger] e.session(s, t) is None,
    {
        CsvExporter { post_anomaly_recording_secs, sessions: table_new() }
    }

    /// Seconds a session keeps recording after its anomaly ended.
    pub fn post_anomaly_recording_secs(&self) -> (r: i64)
        ensures
            r == self.post_secs(),
    {
        self.post_anomaly_recording_secs
    }

    pub fn is_recording(&self, symbol: &String, strategy_name: &String) -> (r: bool)
        ensures
            r == self.session(symbol@, strategy_name@) is Some,
    {
        table_contains(&self.sessions, &(symbol.clone(), strategy_name.clone()))
    }

    /// Opens a session seeded with `pre_buffer`, unless one is already open
    /// for the key (then nothing changes). Returns whether one was opened.
    pub fn start_recording(
        &mut self,
        symbol: &String,
        strategy_name: &String,
        pre_buffer: (Vec<Candle>, Vec<Candle>),
        now_ms: u64,
    ) -> (r: bool)
        requires
            old(self).wf(),
        ensures
            start_effect(
                *old(self),
                *final(self),
                symbol@,
                strategy_name@,
                pre_buffer.0@,
                pre_buffer.1@,
                now_ms,
                r,
            ),
    {
        let key = (symbol.clone(), strategy_name.clone());
        if table_contains(&self.sessions, &key) {
            return false;
        }
        let (last, mark) = pre_buffer;
        let session = RecordingSession {
            symbol: symbol.clone(),
            strategy_name: strategy_name.clone(),
            start_time_ms: now_ms,
            anomaly_ended: None,
            last_price_candles: last,
            mark_price_candles: mark,
        };
        table_insert(&mut self.sessions, key, session);
        proof {
            let m = sessions_of(self.sessions);
            assert forall|k: (Seq<char>, Seq<char>)| #[trigger] m.contains_key(k) implies m[k].has_key(k.0, k.1) by {
                if k != (symbol@, strategy_name@) {
                    assert(sessions_of(old(self).sessions).contains_key(k));
                }
            }
        }
        true
    }

    /// Stamps the end of the anomaly on the session for the key. Returns
    /// whether a session was found (and so a finalize is due after the
    /// post-anomaly tail).
    pub fn mark_anomaly_ended(&mut self, symbol: &String, strategy_name: &String, now_ms: u64) -> (r: bool)
        requires
            old(self).wf(),
        ensures
            mark_effect(*old(self), *final(self), symbol@, strategy_name@, now_ms, r),
    {
        let key = (symbol.clone(), strategy_name.clone());
        match table_remove(&mut self.sessions, &key) {
            None => false,
            Some(s) => {
                let mut s = s;
                s.anomaly_ended = Some(now_ms);
                table_insert(&mut self.sessions, key, s);
                proof {
                    let m = sessions_of(self.sessions);
                    let m0 = sessions_of(old(self).sessions);
                    assert forall|k: (Seq<char>, Seq<char>)| #[trigger] m.contains_key(k) implies m[k].has_key(
                        k.0,
                        k.1,
                    ) by {
                        assert(m0.contains_key(k));
                    }
                    assert forall|a: Seq<char>, b: Seq<char>|
                        !(a == symbol@ && b == strategy_name@) implies #[trigger] self.session(a, b) == old(
                        self,
                    ).session(a, b) by {
                        assert(m.contains_key((a, b)) == m0.contains_key((a, b)));
                    }
                }
                true
            },
        }
    }

    /// Appends to every open, not yet ended session of `symbol` the
    /// completed candles of `buffer` that it does not hold yet.
    pub fn update_recording(&mut self, symbol: &String, buffer: &CandleBuffer)
        requires
            old(self).wf(),
            buffer.wf(),
        ensures
            update_effect(*old(self), *final(self), symbol@, buffer@),
    {
        let (last, mark) = buffer.get_all_completed_candles();
        let keys = table_keys(&self.sessions);
        let ghost m0 = sessions_of(self.sessions);
        let ghost mut done: Set<(Seq<char>, Seq<char>)> = Set::empty();
        let mut i: usize = 0;
        while i < keys.len()
            invariant
                i <= keys@.len(),
                self.post_anomaly_recording_secs == old(self).post_anomaly_recording_secs,
                last@ == buffer@.last.completed,
                mark@ == buffer@.mark.completed,
                keys_match(m0),
                m0 == sessions_of(old(self).sessions),
                forall|k: (Seq<char>, Seq<char>)|
                    m0.contains_key(k) <==> exists|j: int| 0 <= j < keys@.len() && #[trigger] key_view(keys@[j]) == k,
                forall|a: int, b: int|
                    0 <= a < keys@.len() && 0 <= b < keys@.len() && a != b ==> key_view(#[trigger] keys@[a])
                        != key_view(#[trigger] keys@[b]),
                done == Set::new(|k: (Seq<char>, Seq<char>)| exists|j: int| 0 <= j < i && #[trigger] key_view(keys@[j]) == k),
                forall|k: (Seq<char>, Seq<char>)| #[trigger] sessions_of(self.sessions).contains_key(k) == m0.contains_key(k),
                forall|k: (Seq<char>, Seq<char>)|
                    #[trigger] sessions_of(self.sessions).contains_key(k) ==> {
                        let v = m0[k];
                        let w = sessions_of(self.sessions)[k];
                        &&& w.has_key(k.0, k.1)
                        &&& w.start_time_ms == v.start_time_ms
                        &&& w.anomaly_ended == v.anomaly_ended
                        &&& if done.contains(k) && k.0 == symbol@ && v.anomaly_ended is None {
                            &&& w.last_price_candles@ == extended(v.last_price_candles@, last@)
                            &&& w.mark_price_candles@ == extended(v.mark_price_candles@, mark@)
                        } else {
                            &&& w.last_price_candles@ == v.last_price_candles@
                            &&& w.mark_price_candles@ == v.mark_price_candles@
                        }
                    },
            decreases keys@.len() - i,
        {
            let key = &keys[i];
            let ghost kv = key_view(*key);
            proof {
                assert(m0.contains_key(kv));
                assert(!done.contains(kv)) by {
                    if done.contains(kv) {
                        let j = choose|j: int| 0 <= j < i && #[trigger] key_view(keys@[j]) == kv;
                        assert(key_view(keys@[j]) == key_view(keys@[i as int]));
                    }
                }
            }
            if key.0 == *symbol {
                let ghost before = sessions_of(self.sessions);
                match table_remove(&mut self.sessions, key) {
                    Some(s) => {
                        let mut s = s;
                        if s.anomaly_ended.is_none() {
                            append_newer(&mut s.last_price_candles, &last);
                            append_newer(&mut s.mark_price_candles, &mark);
                        }
                        let k2 = (key.0.clone(), key.1.clone());
                        assert(key_view(k2) == kv);
                        table_insert(&mut self.sessions, k2, s);
                    },
                    None => {},
                }
                proof {
                    let m = sessions_of(self.sessions);
                    assert forall|k: (Seq<char>, Seq<char>)| k != kv implies #[trigger] m.contains_key(k)
                        == before.contains_key(k) && (m.contains_key(k) ==> m[k] == before[k]) by {}
                }
            }
            proof {
                done = done.insert(kv);
                assert(done =~= Set::new(
                    |k: (Seq<char>, Seq<char>)| exists|j: int| 0 <= j < i + 1 && #[trigger] key_view(keys@[j]) == k,
                )) by {
                    assert forall|k: (Seq<char>, Seq<char>)| done.contains(k) implies exists|j: int|
                        0 <= j < i + 1 && #[trigger] key_view(keys@[j]) == k by {
                        if k == kv {
                            assert(key_view(keys@[i as int]) == k);
                        }
                    }
                }
            }
            i = i + 1;
        }
        proof {
            let m = sessions_of(self.sessions);
            assert forall|k: (Seq<char>, Seq<char>)| m0.contains_key(k) implies done.contains(k) by {
                let j = choose|j: int| 0 <= j < keys@.len() && #[trigger] key_view(keys@[j]) == k;
                assert(key_view(keys@[j]) == k);
            }
            assert forall|k: (Seq<char>, Seq<char>)| #[trigger] m.contains_key(k) implies m[k].has_key(k.0, k.1) by {}
        }
    }

    /// Removes the session for the key and hands it out with the candles of
    /// `buffer` (the symbol's downsampler, when known) that it does not hold
    /// yet. Nothing changes when no session is open for the key, so a second
    /// finalize of the same session is a no-op.
    pub fn finalize_recording(
        &mut self,
        symbol: &String,
        strategy_name: &String,
        buffer: Option<&CandleBuffer>,
    ) -> (r: Option<RecordingSession>)
        requires
            old(self).wf(),
            buffer matches Some(b) ==> b.wf(),
        ensures
            finalize_effect(*old(self), *final(self), symbol@, strategy_name@, r is Some),
            r matches Some(f) ==> {
                let v = old(self).session(symbol@, strategy_name@)->0;
                &&& f.symbol@ == symbol@
                &&& f.strategy_name@ == strategy_name@
                &&& f.start_time_ms == v.start_time_ms
                &&& f.anomaly_ended == v.anomaly_ended
                &&& f.last_price_candles@ == match buffer {
                    Some(b) => extended(v.last, b@.last.completed),
                    None => v.last,
                }
                &&& f.mark_price_candles@ == match buffer {
                    Some(b) => extended(v.mark, b@.mark.completed),
                    None => v.mark,
                }
            },
    {
        let key = (symbol.clone(), strategy_name.clone());
        let removed = table_remove(&mut self.sessions, &key);
        proof {
            let m = sessions_of(self.sessions);
            let m0 = sessions_of(old(self).sessions);
            assert forall|k: (Seq<char>, Seq<char>)| #[trigger] m.contains_key(k) implies m[k].has_key(k.0, k.1) by {
                assert(m0.contains_key(k));
            }
            assert forall|a: Seq<char>, b: Seq<char>|
                !(a == symbol@ && b == strategy_name@) implies #[trigger] self.session(a, b) == old(self).session(
                a,
                b,
            ) by {
                assert(m.contains_key((a, b)) == m0.contains_key((a, b)));
            }
        }
        match removed {
            None => None,
            Some(s) => {
                let mut s = s;
                if let Some(b) = buffer {
                    let (last, mark) = b.get_all_completed_candles();
                    append_newer(&mut s.last_price_candles, &last);
                    append_newer(&mut s.mark_price_candles, &mark);
                }
                Some(s)
            },
        }
    }
}

/// The effect of `start_recording(symbol, strategy, (last, mark), now)`
/// returning `r` on the session table.
pub open spec fn start_effect(
    before: CsvExporter,
    after: CsvExporter,
    symbol: Seq<char>,
    strategy: Seq<char>,
    last: Seq<Candle>,
    mark: Seq<Candle>,
    now: u64,
    r: bool,
) -> bool {
    &&& after.wf()
    &&& after.post_secs() == before.post_secs()
    &&& r == before.session(symbol, strategy) is None
    &&& !r ==> forall|s: Seq<char>, t: Seq<char>| #[trigger] after.session(s, t) == before.session(s, t)
    &&& r ==> after.session(symbol, strategy) == Some(
        SessionView { start_time_ms: now, anomaly_ended: None, last, mark },
    )
    &&& r ==> forall|s: Seq<char>, t: Seq<char>|
        !(s == symbol && t == strategy) ==> #[trigger] after.session(s, t) == before.session(s, t)
}

/// The effect of `mark_anomaly_ended(symbol, strategy, now)` returning
/// `found`: the session for the key, if any, is stamped ended at `now`.
pub open spec fn mark_effect(
    before: CsvExporter,
    after: CsvExporter,
    symbol: Seq<char>,
    strategy: Seq<char>,
    now: u64,
    found: bool,
) -> bool {
    &&& after.wf()
    &&& after.post_secs() == before.post_secs()
    &&& found == before.session(symbol, strategy) is Some
    &&& found ==> after.session(symbol, strategy) == Some(
        SessionView { anomaly_ended: Some(now), ..before.session(symbol, strategy)->0 },
    )
    &&& forall|s: Seq<char>, t: Seq<char>|
        !(s == symbol && t == strategy) ==> #[trigger] after.session(s, t) == before.session(s, t)
    &&& !found ==> forall|s: Seq<char>, t: Seq<char>| #[trigger] after.session(s, t) == before.session(s, t)
}

/// The effect of `update_recording(symbol, buffer)`: every live session of
/// the symbol takes the completed candles it does not hold yet.
pub open spec fn update_effect(
    before: CsvExporter,
    after: CsvExporter,
    symbol: Seq<char>,
    b: crate::candle::CandleBufferView,
) -> bool {
    &&& after.wf()
    &&& after.post_secs() == before.post_secs()
    &&& forall|s: Seq<char>, t: Seq<char>| #[trigger] after.session(s, t) == match before.session(s, t) {
        Some(v) => if s == symbol && v.anomaly_ended is None {
            Some(SessionView { last: extended(v.last, b.last.completed), mark: extended(v.mark, b.mark.completed), ..v })
        } else {
            Some(v)
        },
        None => None,
    }
}

/// The effect of `finalize_recording(symbol, strategy, _)` on the session
/// table: `found` tells whether a session was handed out.
pub open spec fn finalize_effect(
    before: CsvExporter,
    after: CsvExporter,
    symbol: Seq<char>,
    strategy: Seq<char>,
    found: bool,
) -> bool {
    &&& after.wf()
    &&& after.post_secs() == before.post_secs()
    &&& found == before.session(symbol, strategy) is Some
    &&& after.session(symbol, strategy) is None
    &&& forall|s: Seq<char>, t: Seq<char>|
        !(s == symbol && t == strategy) ==> #[trigger] after.session(s, t) == before.session(s, t)
}

/// Two starts for the same key before it is finalized leave exactly one
/// session, the one the first start opened: the second reports that it
/// opened nothing and changes nothing.
pub proof fn start_recording_is_idempotent(
    e0: CsvExporter,
    e1: CsvExporter,
    e2: CsvExporter,
    symbol: Seq<char>,
    strategy: Seq<char>,
    last1: Seq<Candle>,
    mark1: Seq<Candle>,
    now1: u64,
    r1: bool,
    last2: Seq<Candle>,
    mark2: Seq<Candle>,
    now2: u64,
    r2: bool,
)
    requires
        start_effect(e0, e1, symbol, strategy, last1, mark1, now1, r1),
        start_effect(e1, e2, symbol, strategy, last2, mark2, now2, r2),
    ensures
        !r2,
        e2.session(symbol, strategy) is Some,
        e2.session(symbol, strategy) == e1.session(symbol, strategy),
        r1 ==> e2.session(symbol, strategy) == Some(
            SessionView { start_time_ms: now1, anomaly_ended: None, last: last1, mark: mark1 },
        ),
        forall|s: Seq<char>, t: Seq<char>| #[trigger] e2.session(s, t) == e1.session(s, t),
{
    assert(e2.session(symbol, strategy) == e1.session(symbol, strategy));
}

/// Finalizing the same key twice is safe: the second call finds no session,
/// hands nothing out and changes nothing.
pub proof fn finalize_twice_is_noop(
    e0: CsvExporter,
    e1: CsvExporter,
    e2: CsvExporter,
    symbol: Seq<char>,
    strategy: Seq<char>,
    found1: bool,
    found2: bool,
)
    requires
        finalize_effect(e0, e1, symbol, strategy, found1),
        finalize_effect(e1, e2, symbol, strategy, found2),
    ensures
        !found2,
        forall|s: Seq<char>, t: Seq<char>| #[trigger] e2.session(s, t) == e1.session(s, t),
{
    assert forall|s: Seq<char>, t: Seq<char>| #[trigger] e2.session(s, t) == e1.session(s, t) by {
        if s == symbol && t == strategy {
        }
    }
}

} // verus!
