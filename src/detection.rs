//! The detection rules. Every strategy is one rule set: a subset of four
//! stages (spread, spike, baseline pump, thick book), each with its own
//! thresholds, evaluated in that order against one symbol snapshot.
use crate::config::{
    OrderbookConfig, Strategy1Config, Strategy2Config, Strategy3Config, Strategy4Config,
    Strategy5Config,
};
use crate::clock::now_ms;
use crate::dispatch::{Notice, detector_step, run_detector};
use crate::recording::CsvExporter;
use crate::episode::{Episode, EpisodeTracker, idle, transition};
use crate::market::{SymbolData, baseline_spec, price_at_spec};
use crate::orderbook::{
    PRICE_SCALE, ProcessedOrderbook, ask_depth, bid_depth, lemma_depth_nonneg, spread_exceeds_spec,
};
use vstd::prelude::*;

verus! {

/// The outcome of evaluating a rule set on one snapshot.
#[derive(Clone, Copy, Debug, PartialEq, Eq, Structural)]
pub enum Verdict {
    /// Supporting data is missing: the episode tracker is left untouched.
    Deferred,
    Met,
    NotMet,
}

/// `last / mark >= ratio_min`, exactly.
pub open spec fn ratio_reaches(last: u64, mark: u64, ratio_min: u64) -> bool {
    last * PRICE_SCALE >= ratio_min * mark
}

/// `last - mark >= min_abs_diff`, exactly.
pub open spec fn diff_reaches(last: u64, mark: u64, min_abs_diff: u64) -> bool {
    last >= mark + min_abs_diff
}

/// `last / mark` in ticks, rounded down.
pub open spec fn ratio_of(last: u64, mark: u64) -> u128 {
    ((last * PRICE_SCALE) / (mark as int)) as u128
}

#[derive(Clone, Copy, Debug, PartialEq, Eq, Structural)]
pub struct SpreadRule {
    pub ratio_min: u64,
    pub min_abs_diff: u64,
}

#[derive(Clone, Copy, Debug, PartialEq, Eq, Structural)]
pub struct SpikeRule {
    pub ratio_min: u64,
    pub lookback_secs: u64,
    pub spike_ratio_min: u64,
}

#[derive(Clone, Copy, Debug, PartialEq, Eq, Structural)]
pub struct BaselineRule {
    pub ratio_min: u64,
    pub window_secs: u64,
    pub pump_min: u64,
    pub stability_max: u64,
}

#[derive(Clone, Copy, Debug, PartialEq, Eq, Structural)]
pub struct BookRule {
    pub ratio_min: u64,
    pub min_abs_diff: u64,
    pub depth_band_pct: u64,
    /// Minimum notional depth, in price ticks.
    pub min_depth: u64,
    pub max_spread_pct: u64,
}

#[derive(Clone, Copy, Debug, PartialEq, Eq, Structural)]
pub struct RuleSet {
    pub spread: Option<SpreadRule>,
    pub spike: Option<SpikeRule>,
    pub baseline: Option<BaselineRule>,
    pub book: Option<BookRule>,
}

pub open spec fn spread_verdict(r: SpreadRule, last: u64, mark: u64) -> Verdict {
    if ratio_reaches(last, mark, r.ratio_min) && diff_reaches(last, mark, r.min_abs_diff) {
        Verdict::Met
    } else {
        Verdict::NotMet
    }
}

pub open spec fn spike_verdict(r: SpikeRule, d: SymbolData, last: u64, mark: u64, now: u64) -> Verdict {
    if !ratio_reaches(last, mark, r.ratio_min) {
        Verdict::NotMet
    } else {
        match price_at_spec(d.price_history@, now - r.lookback_secs * 1000) {
            None => Verdict::Deferred,
            Some(old) => if last * PRICE_SCALE >= r.spike_ratio_min * old {
                Verdict::Met
            } else {
                Verdict::NotMet
            },
        }
    }
}

/// `|mark / base_mark - 1| <= stability_max`, exactly (never for a zero base).
pub open spec fn mark_stable(mark: u64, base_mark: u64, stability_max: u64) -> bool {
    base_mark > 0 && (if mark >= base_mark {
        mark - base_mark
    } else {
        base_mark - mark
    }) * PRICE_SCALE <= stability_max * base_mark
}

pub open spec fn baseline_verdict(r: BaselineRule, d: SymbolData, last: u64, mark: u64, now: u64) -> Verdict {
    if !ratio_reaches(last, mark, r.ratio_min) {
        Verdict::NotMet
    } else {
        match baseline_spec(d.price_history@, now - r.window_secs * 1000) {
            None => Verdict::Deferred,
            Some((bl, bm)) => if last * PRICE_SCALE >= r.pump_min * bl && mark_stable(
                mark,
                bm,
                r.stability_max,
            ) {
                Verdict::Met
            } else {
                Verdict::NotMet
            },
        }
    }
}

pub open spec fn book_verdict(r: BookRule, d: SymbolData, last: u64, mark: u64) -> Verdict {
    if !(ratio_reaches(last, mark, r.ratio_min) && diff_reaches(last, mark, r.min_abs_diff)) {
        Verdict::NotMet
    } else {
        match d.orderbook {
            None => Verdict::Deferred,
            Some(ob) => match ob.best() {
                None => Verdict::Deferred,
                Some((bb, ba)) => if bb + ba == 0 {
                    Verdict::Deferred
                } else if spread_exceeds_spec(bb, ba, r.max_spread_pct) {
                    Verdict::NotMet
                } else if bid_depth(ob.bids@, bb, ba, r.depth_band_pct) + ask_depth(
                    ob.asks@,
                    bb,
                    ba,
                    r.depth_band_pct,
                ) >= r.min_depth * PRICE_SCALE {
                    Verdict::Met
                } else {
                    Verdict::NotMet
                },
            },
        }
    }
}

/// Runs `rest` only when the stage before it was met.
pub open spec fn then_verdict(first: Verdict, rest: Verdict) -> Verdict {
    match first {
        Verdict::Met => rest,
        other => other,
    }
}

pub open spec fn rules_verdict(rules: RuleSet, d: SymbolData, last: u64, mark: u64, now: u64) -> Verdict {
    let v1 = match rules.spread {
        Some(r) => spread_verdict(r, last, mark),
        None => Verdict::Met,
    };
    let v2 = match rules.spike {
        Some(r) => spike_verdict(r, d, last, mark, now),
        None => Verdict::Met,
    };
    let v3 = match rules.baseline {
        Some(r) => baseline_verdict(r, d, last, mark, now),
        None => Verdict::Met,
    };
    let v4 = match rules.book {
        Some(r) => book_verdict(r, d, last, mark),
        None => Verdict::Met,
    };
    then_verdict(v1, then_verdict(v2, then_verdict(v3, v4)))
}

/// The full verdict of a strategy: a disabled strategy, a snapshot without
/// both prices (or with a zero mark price) and a last price under
/// `min_price` are misses; otherwise the rule set decides, and defers only
/// when its supporting data (history, order book) is missing.
pub open spec fn strategy_verdict(
    enabled: bool,
    min_price: u64,
    rules: RuleSet,
    d: SymbolData,
    now: u64,
) -> Verdict {
    if !enabled {
        Verdict::NotMet
    } else {
        match (d.current_last_price, d.current_mark_price) {
            (Some(last), Some(mark)) => if mark == 0 || last < min_price {
                Verdict::NotMet
            } else {
                rules_verdict(rules, d, last, mark, now)
            },
            _ => Verdict::NotMet,
        }
    }
}

/// The last price a check hands the tracker (zero when absent).
pub open spec fn sample_last(d: SymbolData) -> u64 {
    match d.current_last_price {
        Some(p) => p,
        None => 0,
    }
}

/// The mark price a check hands the tracker (zero when absent).
pub open spec fn sample_mark(d: SymbolData) -> u64 {
    match d.current_mark_price {
        Some(p) => p,
        None => 0,
    }
}

/// The ratio a check hands the tracker (zero without a usable mark price).
pub open spec fn sample_ratio(d: SymbolData) -> u128 {
    if sample_mark(d) == 0 {
        0
    } else {
        ratio_of(sample_last(d), sample_mark(d))
    }
}

fn ratio_at_least(last: u64, mark: u64, ratio_min: u64) -> (r: bool)
    ensures
        r == ratio_reaches(last, mark, ratio_min),
{
    proof {
        assert(ratio_min * mark <= u64::MAX * u64::MAX) by (nonlinear_arith);
    }
    (last as u128) * 100_000_000 >= (ratio_min as u128) * (mark as u128)
}

fn diff_at_least(last: u64, mark: u64, min_abs_diff: u64) -> (r: bool)
    ensures
        r == diff_reaches(last, mark, min_abs_diff),
{
    last >= mark && last - mark >= min_abs_diff
}

impl SpreadRule {
    pub fn evaluate(&self, last: u64, mark: u64) -> (v: Verdict)
        ensures
            v == spread_verdict(*self, last, mark),
    {
        if ratio_at_least(last, mark, self.ratio_min) && diff_at_least(last, mark, self.min_abs_diff) {
            Verdict::Met
        } else {
            Verdict::NotMet
        }
    }
}

impl SpikeRule {
    pub fn evaluate(&self, d: &SymbolData, last: u64, mark: u64, now_ms: u64) -> (v: Verdict)
        ensures
            v == spike_verdict(*self, *d, last, mark, now_ms),
    {
        if !ratio_at_least(last, mark, self.ratio_min) {
            return Verdict::NotMet;
        }
        match d.get_price_at(self.lookback_secs, now_ms) {
            None => Verdict::Deferred,
            Some(old) => {
                if ratio_at_least(last, old, self.spike_ratio_min) {
                    Verdict::Met
                } else {
                    Verdict::NotMet
                }
            },
        }
    }
}

fn stable(mark: u64, base_mark: u64, stability_max: u64) -> (r: bool)
    ensures
        r == mark_stable(mark, base_mark, stability_max),
{
    if base_mark == 0 {
        return false;
    }
    let dev: u64 = if mark >= base_mark {
        mark - base_mark
    } else {
        base_mark - mark
    };
    proof {
        assert(stability_max * base_mark <= u64::MAX * u64::MAX) by (nonlinear_arith);
    }
    (dev as u128) * 100_000_000 <= (stability_max as u128) * (base_mark as u128)
}

impl BaselineRule {
    pub fn evaluate(&self, d: &SymbolData, last: u64, mark: u64, now_ms: u64) -> (v: Verdict)
        ensures
            v == baseline_verdict(*self, *d, last, mark, now_ms),
    {
        if !ratio_at_least(last, mark, self.ratio_min) {
            return Verdict::NotMet;
        }
        match d.get_baseline_prices(self.window_secs, now_ms) {
            None => Verdict::Deferred,
            Some((bl, bm)) => {
                if ratio_at_least(last, bl, self.pump_min) && stable(mark, bm, self.stability_max) {
                    Verdict::Met
                } else {
                    Verdict::NotMet
                }
            },
        }
    }
}

fn book_stage(r: &BookRule, ob: &ProcessedOrderbook) -> (v: Verdict)
    ensures
        v == match ob.best() {
            None => Verdict::Deferred,
            Some((bb, ba)) => if bb + ba == 0 {
                Verdict::Deferred
            } else if spread_exceeds_spec(bb, ba, r.max_spread_pct) {
                Verdict::NotMet
            } else if bid_depth(ob.bids@, bb, ba, r.depth_band_pct) + ask_depth(
                ob.asks@,
                bb,
                ba,
                r.depth_band_pct,
            ) >= r.min_depth * PRICE_SCALE {
                Verdict::Met
            } else {
                Verdict::NotMet
            },
        },
{
    match ob.spread_exceeds(r.max_spread_pct) {
        None => Verdict::Deferred,
        Some(true) => Verdict::NotMet,
        Some(false) => {
            let depth = ob.calculate_depth_in_band(r.depth_band_pct);
            proof {
                let (bb, ba) = ob.best()->0;
                lemma_depth_nonneg(ob.bids@, bb, ba, r.depth_band_pct);
                lemma_depth_nonneg(ob.asks@, bb, ba, r.depth_band_pct);
            }
            if depth >= (r.min_depth as u128) * 100_000_000 {
                Verdict::Met
            } else {
                Verdict::NotMet
            }
        },
    }
}

impl BookRule {
    pub fn evaluate(&self, d: &SymbolData, last: u64, mark: u64) -> (v: Verdict)
        requires
            d.wf(),
        ensures
            v == book_verdict(*self, *d, last, mark),
    {
        if !(ratio_at_least(last, mark, self.ratio_min) && diff_at_least(last, mark, self.min_abs_diff)) {
            return Verdict::NotMet;
        }
        match &d.orderbook {
            None => Verdict::Deferred,
            Some(ob) => book_stage(self, ob),
        }
    }
}

impl RuleSet {
    /// Evaluates the stages in order, stopping at the first that is not met.
    pub fn evaluate(&self, d: &SymbolData, last: u64, mark: u64, now_ms: u64) -> (v: Verdict)
        requires
            d.wf(),
        ensures
            v == rules_verdict(*self, *d, last, mark, now_ms),
    {
        if let Some(r) = self.spread {
            let v = r.evaluate(last, mark);
            if v != Verdict::Met {
                return v;
            }
        }
        if let Some(r) = self.spike {
            let v = r.evaluate(d, last, mark, now_ms);
            if v != Verdict::Met {
                return v;
            }
        }
        if let Some(r) = self.baseline {
            let v = r.evaluate(d, last, mark, now_ms);
            if v != Verdict::Met {
                return v;
            }
        }
        if let Some(r) = self.book {
            return r.evaluate(d, last, mark);
        }
        Verdict::Met
    }
}

/// What one strategy check did: its verdict, the episode that closed and
/// whether one started.
#[derive(Clone, Debug)]
pub struct CheckOutcome {
    pub verdict: Verdict,
    pub closed: Option<Episode>,
    pub started: bool,
}

/// One strategy: its rule set, gating thresholds, episode tracker and chart
/// recording settings.
pub struct Detector {
    pub name: String,
    pub enabled: bool,
    pub min_price: u64,
    pub rules: RuleSet,
    pub tracker: EpisodeTracker,
    pub record_charts: bool,
    pub pre_buffer_secs: i64,
}

/// What one check does to a detector: the verdict follows the rule set;
/// a deferred check leaves the tracker alone, any other feeds it the verdict.
pub open spec fn checked(before: Detector, after: Detector, d: SymbolData, now: u64, r: CheckOutcome) -> bool {
    &&& r.verdict == strategy_verdict(before.enabled, before.min_price, before.rules, d, now)
    &&& after.name == before.name
    &&& after.enabled == before.enabled
    &&& after.min_price == before.min_price
    &&& after.rules == before.rules
    &&& after.record_charts == before.record_charts
    &&& after.pre_buffer_secs == before.pre_buffer_secs
    &&& after.tracker.cooldown() == before.tracker.cooldown()
    &&& after.tracker.wf()
    &&& r.verdict == Verdict::Deferred ==> {
        &&& r.closed is None
        &&& !r.started
        &&& forall|sym: Seq<char>| #[trigger] after.tracker.state_of(sym) == before.tracker.state_of(sym)
    }
    &&& r.verdict != Verdict::Deferred ==> {
        let t = transition(
            before.tracker.state_of(d.symbol@),
            d.symbol,
            r.verdict == Verdict::Met,
            sample_ratio(d),
            sample_last(d),
            sample_mark(d),
            now,
            before.tracker.cooldown(),
        );
        &&& after.tracker.state_of(d.symbol@) == t.0
        &&& r.closed == t.1
        &&& r.started == t.2
        &&& forall|sym: Seq<char>|
            sym != d.symbol@ ==> #[trigger] after.tracker.state_of(sym) == before.tracker.state_of(sym)
    }
}

/// A detector as built: trackers idle, settings as given.
pub open spec fn fresh(
    det: Detector,
    name: Seq<char>,
    enabled: bool,
    min_price: u64,
    rules: RuleSet,
    cooldown_seconds: u64,
    record_charts: bool,
    pre_buffer_secs: i64,
) -> bool {
    &&& det.name@ == name
    &&& det.enabled == enabled
    &&& det.min_price == min_price
    &&& det.rules == rules
    &&& det.tracker.cooldown() == cooldown_seconds
    &&& det.tracker.wf()
    &&& forall|sym: Seq<char>| #[trigger] det.tracker.state_of(sym) == idle()
    &&& det.record_charts == record_charts
    &&& det.pre_buffer_secs == pre_buffer_secs
}

impl Detector {
    pub fn new(
        name: String,
        enabled: bool,
        min_price: u64,
        rules: RuleSet,
        cooldown_seconds: u64,
        record_charts: bool,
        pre_buffer_secs: i64,
    ) -> (det: Detector)
        ensures
            fresh(det, name@, enabled, min_price, rules, cooldown_seconds, record_charts, pre_buffer_secs),
    {
        Detector {
            name,
            enabled,
            min_price,
            rules,
            tracker: EpisodeTracker::new(cooldown_seconds),
            record_charts,
            pre_buffer_secs,
        }
    }

    /// Evaluates the strategy on `d` at `now_ms` and feeds the tracker unless
    /// the verdict is deferred.
    pub fn check_at(&mut self, d: &SymbolData, now_ms: u64) -> (r: CheckOutcome)
        requires
            d.wf(),
            old(self).tracker.wf(),
        ensures
            checked(*old(self), *final(self), *d, now_ms, r),
    {
        let last = match d.current_last_price {
            Some(p) => p,
            None => 0,
        };
        let mark = match d.current_mark_price {
            Some(p) => p,
            None => 0,
        };
        let usable = self.enabled && d.current_last_price.is_some() && d.current_mark_price.is_some()
            && mark != 0 && last >= self.min_price;
        let verdict = if usable {
            self.rules.evaluate(d, last, mark, now_ms)
        } else {
            Verdict::NotMet
        };
        if verdict == Verdict::Deferred {
            return CheckOutcome { verdict: Verdict::Deferred, closed: None, started: false };
        }
        let ratio: u128 = if mark == 0 {
            0
        } else {
            (last as u128) * 100_000_000 / (mark as u128)
        };
        let (closed, started) = self.tracker.check_condition_at(
            &d.symbol,
            verdict == Verdict::Met,
            ratio,
            last,
            mark,
            now_ms,
        );
        CheckOutcome { verdict, closed, started }
    }
}

pub open spec fn spread_rule_of(c: Strategy1Config) -> SpreadRule {
    SpreadRule { ratio_min: c.spread_ratio_min, min_abs_diff: c.min_abs_diff }
}

pub open spec fn spike_rule_of(c: Strategy2Config) -> SpikeRule {
    SpikeRule {
        ratio_min: c.spread_ratio_min,
        lookback_secs: c.spike_lookback_secs,
        spike_ratio_min: c.spike_ratio_min,
    }
}

pub open spec fn baseline_rule_of(c: Strategy3Config) -> BaselineRule {
    BaselineRule {
        ratio_min: c.spread_ratio_min,
        window_secs: c.baseline_window_secs,
        pump_min: c.pump_vs_baseline_min,
        stability_max: c.mark_stability_max,
    }
}

pub open spec fn book_rule_of(c: Strategy4Config, ob: OrderbookConfig) -> BookRule {
    BookRule {
        ratio_min: c.spread_ratio_min,
        min_abs_diff: c.min_abs_diff,
        depth_band_pct: ob.depth_band_pct,
        min_depth: ob.min_thick_depth_usdt,
        max_spread_pct: ob.max_spread_pct,
    }
}

/// The rule set of strategy 5: every stage, each with its own strategy's
/// thresholds.
pub open spec fn all_rules_of(
    c1: Strategy1Config,
    c2: Strategy2Config,
    c3: Strategy3Config,
    c4: Strategy4Config,
    ob: OrderbookConfig,
) -> RuleSet {
    RuleSet {
        spread: Some(spread_rule_of(c1)),
        spike: Some(spike_rule_of(c2)),
        baseline: Some(baseline_rule_of(c3)),
        book: Some(book_rule_of(c4, ob)),
    }
}

/// Strategy 1: the basic spread between last and mark price.
pub struct Strategy1 {
    pub detector: Detector,
}

/// Strategy 2: a spread together with a price spike over a lookback.
pub struct Strategy2 {
    pub detector: Detector,
}

/// Strategy 3: a spread together with a pump over the trailing baseline and
/// a stable mark price.
pub struct Strategy3 {
    pub detector: Detector,
}

/// Strategy 4: a spread together with a thick order book near the mid.
pub struct Strategy4 {
    pub detector: Detector,
}

/// Strategy 5: all four conditions at once, each with its own strategy's
/// thresholds.
pub struct Strategy5 {
    pub detector: Detector,
}

fn spike_rule(c: &Strategy2Config) -> (r: SpikeRule)
    ensures
        r == spike_rule_of(*c),
{
    SpikeRule {
        ratio_min: c.spread_ratio_min,
        lookback_secs: c.spike_lookback_secs,
        spike_ratio_min: c.spike_ratio_min,
    }
}

fn baseline_rule(c: &Strategy3Config) -> (r: BaselineRule)
    ensures
        r == baseline_rule_of(*c),
{
    BaselineRule {
        ratio_min: c.spread_ratio_min,
        window_secs: c.baseline_window_secs,
        pump_min: c.pump_vs_baseline_min,
        stability_max: c.mark_stability_max,
    }
}

fn book_rule(c: &Strategy4Config, ob: &OrderbookConfig) -> (r: BookRule)
    ensures
        r == book_rule_of(*c, *ob),
{
    BookRule {
        ratio_min: c.spread_ratio_min,
        min_abs_diff: c.min_abs_diff,
        depth_band_pct: ob.depth_band_pct,
        min_depth: ob.min_thick_depth_usdt,
        max_spread_pct: ob.max_spread_pct,
    }
}

impl Strategy1 {
    pub fn new(
        config: Strategy1Config,
        cooldown_seconds: u64,
        record_charts: bool,
        pre_buffer_secs: i64,
    ) -> (s: Strategy1)
        ensures
            fresh(
                s.detector,
                "strategy1"@,
                config.enabled,
                config.min_price,
                (RuleSet { spread: Some(spread_rule_of(config)), spike: None, baseline: None, book: None }),
                cooldown_seconds,
                record_charts,
                pre_buffer_secs,
            ),
    {
        let rules = RuleSet {
            spread: Some(SpreadRule { ratio_min: config.spread_ratio_min, min_abs_diff: config.min_abs_diff }),
            spike: None,
            baseline: None,
            book: None,
        };
        let name = "strategy1".to_string();
        Strategy1 {
            detector: Detector::new(
                name,
                config.enabled,
                config.min_price,
                rules,
                cooldown_seconds,
                record_charts,
                pre_buffer_secs,
            ),
        }
    }

    /// Evaluates the strategy on `data` as of `now_ms` and performs its side
    /// effects: with chart recording on, a started episode starts a capture
    /// in `exporter` seeded from the pre-buffer and a closed one marks its
    /// capture ended. Returns the notices for the caller (episode started,
    /// episode ended with its audit line, finalize due).
    pub fn check_at(&mut self, data: &SymbolData, exporter: &mut CsvExporter, now_ms: u64) -> (r: Vec<Notice>)
        requires
            data.wf(),
            old(exporter).wf(),
            old(self).detector.tracker.wf(),
        ensures
            final(exporter).wf(),
            final(exporter).post_secs() == old(exporter).post_secs(),
            final(self).detector.tracker.wf(),
            detector_step(old(self).detector, final(self).detector, *data, now_ms, *old(exporter), *final(exporter), r@),
    {
        let mut notices: Vec<Notice> = Vec::new();
        run_detector(&mut self.detector, data, exporter, now_ms, &mut notices);
        assert(notices@.subrange(0, notices@.len() as int) =~= notices@);
        notices
    }

    /// `check_at` as of the wall clock.
    pub fn check(&mut self, data: &SymbolData, exporter: &mut CsvExporter) -> (r: Vec<Notice>)
        requires
            data.wf(),
            old(exporter).wf(),
            old(self).detector.tracker.wf(),
        ensures
            final(exporter).wf(),
            final(self).detector.tracker.wf(),
            exists|now: u64|
                #[trigger] detector_step(
                    old(self).detector,
                    final(self).detector,
                    *data,
                    now,
                    *old(exporter),
                    *final(exporter),
                    r@,
                ),
    {
        let now = now_ms();
        self.check_at(data, exporter, now)
    }
}

impl Strategy2 {
    pub fn new(
        config: Strategy2Config,
        cooldown_seconds: u64,
        record_charts: bool,
        pre_buffer_secs: i64,
    ) -> (s: Strategy2)
        ensures
            fresh(
                s.detector,
                "strategy2"@,
                config.enabled,
                config.min_price,
                (RuleSet { spread: None, spike: Some(spike_rule_of(config)), baseline: None, book: None }),
                cooldown_seconds,
                record_charts,
                pre_buffer_secs,
            ),
    {
        let rules = RuleSet { spread: None, spike: Some(spike_rule(&config)), baseline: None, book: None };
        let name = "strategy2".to_string();
        Strategy2 {
            detector: Detector::new(
                name,
                config.enabled,
                config.min_price,
                rules,
                cooldown_seconds,
                record_charts,
                pre_buffer_secs,
            ),
        }
    }

    /// Evaluates the strategy on `data` as of `now_ms` and performs its side
    /// effects: with chart recording on, a started episode starts a capture
    /// in `exporter` seeded from the pre-buffer and a closed one marks its
    /// capture ended. Returns the notices for the caller (episode started,
    /// episode ended with its audit line, finalize due).
    pub fn check_at(&mut self, data: &SymbolData, exporter: &mut CsvExporter, now_ms: u64) -> (r: Vec<Notice>)
        requires
            data.wf(),
            old(exporter).wf(),
            old(self).detector.tracker.wf(),
        ensures
            final(exporter).wf(),
            final(exporter).post_secs() == old(exporter).post_secs(),
            final(self).detector.tracker.wf(),
            detector_step(old(self).detector, final(self).detector, *data, now_ms, *old(exporter), *final(exporter), r@),
    {
        let mut notices: Vec<Notice> = Vec::new();
        run_detector(&mut self.detector, data, exporter, now_ms, &mut notices);
        assert(notices@.subrange(0, notices@.len() as int) =~= notices@);
        notices
    }

    /// `check_at` as of the wall clock.
    pub fn check(&mut self, data: &SymbolData, exporter: &mut CsvExporter) -> (r: Vec<Notice>)
        requires
            data.wf(),
            old(exporter).wf(),
            old(self).detector.tracker.wf(),
        ensures
            final(exporter).wf(),
            final(self).detector.tracker.wf(),
            exists|now: u64|
                #[trigger] detector_step(
                    old(self).detector,
                    final(self).detector,
                    *data,
                    now,
                    *old(exporter),
                    *final(exporter),
                    r@,
                ),
    {
        let now = now_ms();
        self.check_at(data, exporter, now)
    }
}

impl Strategy3 {
    pub fn new(
        config: Strategy3Config,
        cooldown_seconds: u64,
        record_charts: bool,
        pre_buffer_secs: i64,
    ) -> (s: Strategy3)
        ensures
            fresh(
                s.detector,
                "strategy3"@,
                config.enabled,
                config.min_price,
                (RuleSet { spread: None, spike: None, baseline: Some(baseline_rule_of(config)), book: None }),
                cooldown_seconds,
                record_charts,
                pre_buffer_secs,
            ),
    {
        let rules = RuleSet { spread: None, spike: None, baseline: Some(baseline_rule(&config)), book: None };
        let name = "strategy3".to_string();
        Strategy3 {
            detector: Detector::new(
                name,
                config.enabled,
                config.min_price,
                rules,
                cooldown_seconds,
                record_charts,
                pre_buffer_secs,
            ),
        }
    }

    /// Evaluates the strategy on `data` as of `now_ms` and performs its side
    /// effects: with chart recording on, a started episode starts a capture
    /// in `exporter` seeded from the pre-buffer and a closed one marks its
    /// capture ended. Returns the notices for the caller (episode started,
    /// episode ended with its audit line, finalize due).
    pub fn check_at(&mut self, data: &SymbolData, exporter: &mut CsvExporter, now_ms: u64) -> (r: Vec<Notice>)
        requires
            data.wf(),
            old(exporter).wf(),
            old(self).detector.tracker.wf(),
        ensures
            final(exporter).wf(),
            final(exporter).post_secs() == old(exporter).post_secs(),
            final(self).detector.tracker.wf(),
            detector_step(old(self).detector, final(self).detector, *data, now_ms, *old(exporter), *final(exporter), r@),
    {
        let mut notices: Vec<Notice> = Vec::new();
        run_detector(&mut self.detector, data, exporter, now_ms, &mut notices);
        assert(notices@.subrange(0, notices@.len() as int) =~= notices@);
        notices
    }

    /// `check_at` as of the wall clock.
    pub fn check(&mut self, data: &SymbolData, exporter: &mut CsvExporter) -> (r: Vec<Notice>)
        requires
            data.wf(),
            old(exporter).wf(),
            old(self).detector.tracker.wf(),
        ensures
            final(exporter).wf(),
            final(self).detector.tracker.wf(),
            exists|now: u64|
                #[trigger] detector_step(
                    old(self).detector,
                    final(self).detector,
                    *data,
                    now,
                    *old(exporter),
                    *final(exporter),
                    r@,
                ),
    {
        let now = now_ms();
        self.check_at(data, exporter, now)
    }
}

impl Strategy4 {
    pub fn new(
        config: Strategy4Config,
        orderbook_config: OrderbookConfig,
        cooldown_seconds: u64,
        record_charts: bool,
        pre_buffer_secs: i64,
    ) -> (s: Strategy4)
        ensures
            fresh(
                s.detector,
                "strategy4"@,
                config.enabled,
                config.min_price,
                (RuleSet {
                    spread: None,
                    spike: None,
                    baseline: None,
                    book: Some(book_rule_of(config, orderbook_config)),
                }),
                cooldown_seconds,
                record_charts,
                pre_buffer_secs,
            ),
    {
        let rules = RuleSet {
            spread: None,
            spike: None,
            baseline: None,
            book: Some(book_rule(&config, &orderbook_config)),
        };
        let name = "strategy4".to_string();
        Strategy4 {
            detector: Detector::new(
                name,
                config.enabled,
                config.min_price,
                rules,
                cooldown_seconds,
                record_charts,
                pre_buffer_secs,
            ),
        }
    }

    /// Evaluates the strategy on `data` as of `now_ms` and performs its side
    /// effects: with chart recording on, a started episode starts a capture
    /// in `exporter` seeded from the pre-buffer and a closed one marks its
    /// capture ended. Returns the notices for the caller (episode started,
    /// episode ended with its audit line, finalize due).
    pub fn check_at(&mut self, data: &SymbolData, exporter: &mut CsvExporter, now_ms: u64) -> (r: Vec<Notice>)
        requires
            data.wf(),
            old(exporter).wf(),
            old(self).detector.tracker.wf(),
        ensures
            final(exporter).wf(),
            final(exporter).post_secs() == old(exporter).post_secs(),
            final(self).detector.tracker.wf(),
            detector_step(old(self).detector, final(self).detector, *data, now_ms, *old(exporter), *final(exporter), r@),
    {
        let mut notices: Vec<Notice> = Vec::new();
        run_detector(&mut self.detector, data, exporter, now_ms, &mut notices);
        assert(notices@.subrange(0, notices@.len() as int) =~= notices@);
        notices
    }

    /// `check_at` as of the wall clock.
    pub fn check(&mut self, data: &SymbolData, exporter: &mut CsvExporter) -> (r: Vec<Notice>)
        requires
            data.wf(),
            old(exporter).wf(),
            old(self).detector.tracker.wf(),
        ensures
            final(exporter).wf(),
            final(self).detector.tracker.wf(),
            exists|now: u64|
                #[trigger] detector_step(
                    old(self).detector,
                    final(self).detector,
                    *data,
                    now,
                    *old(exporter),
                    *final(exporter),
                    r@,
                ),
    {
        let now = now_ms();
        self.check_at(data, exporter, now)
    }
}

impl Strategy5 {
    pub fn new(
        config: Strategy5Config,
        strategy1_config: Strategy1Config,
        strategy2_config: Strategy2Config,
        strategy3_config: Strategy3Config,
        strategy4_config: Strategy4Config,
        orderbook_config: OrderbookConfig,
        cooldown_seconds: u64,
        record_charts: bool,
        pre_buffer_secs: i64,
    ) -> (s: Strategy5)
        ensures
            fresh(
                s.detector,
                "strategy5"@,
                config.enabled,
                config.min_price,
                all_rules_of(strategy1_config, strategy2_config, strategy3_config, strategy4_config, orderbook_config),
                cooldown_seconds,
                record_charts,
                pre_buffer_secs,
            ),
    {
        let rules = RuleSet {
            spread: Some(SpreadRule {
                ratio_min: strategy1_config.spread_ratio_min,
                min_abs_diff: strategy1_config.min_abs_diff,
            }),
            spike: Some(spike_rule(&strategy2_config)),
            baseline: Some(baseline_rule(&strategy3_config)),
            book: Some(book_rule(&strategy4_config, &orderbook_config)),
        };
        let name = "strategy5".to_string();
        Strategy5 {
            detector: Detector::new(
                name,
                config.enabled,
                config.min_price,
                rules,
                cooldown_seconds,
                record_charts,
                pre_buffer_secs,
            ),
        }
    }

    /// Evaluates the strategy on `data` as of `now_ms` and performs its side
    /// effects: with chart recording on, a started episode starts a capture
    /// in `exporter` seeded from the pre-buffer and a closed one marks its
    /// capture ended. Returns the notices for the caller (episode started,
    /// episode ended with its audit line, finalize due).
    pub fn check_at(&mut self, data: &SymbolData, exporter: &mut CsvExporter, now_ms: u64) -> (r: Vec<Notice>)
        requires
            data.wf(),
            old(exporter).wf(),
            old(self).detector.tracker.wf(),
        ensures
            final(exporter).wf(),
            final(exporter).post_secs() == old(exporter).post_secs(),
            final(self).detector.tracker.wf(),
            detector_step(old(self).detector, final(self).detector, *data, now_ms, *old(exporter), *final(exporter), r@),
    {
        let mut notices: Vec<Notice> = Vec::new();
        run_detector(&mut self.detector, data, exporter, now_ms, &mut notices);
        assert(notices@.subrange(0, notices@.len() as int) =~= notices@);
        notices
    }

    /// `check_at` as of the wall clock.
    pub fn check(&mut self, data: &SymbolData, exporter: &mut CsvExporter) -> (r: Vec<Notice>)
        requires
            data.wf(),
            old(exporter).wf(),
            old(self).detector.tracker.wf(),
        ensures
            final(exporter).wf(),
            final(self).detector.tracker.wf(),
            exists|now: u64|
                #[trigger] detector_step(
                    old(self).detector,
                    final(self).detector,
                    *data,
                    now,
                    *old(exporter),
                    *final(exporter),
                    r@,
                ),
    {
        let now = now_ms();
        self.check_at(data, exporter, now)
    }
}

} // verus!
