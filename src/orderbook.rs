//! Order-book snapshots and the depth/spread measures the thick-book rule
//! reads. Prices and quantities are fixed-point ticks (`PRICE_SCALE` ticks
//! per unit); a notional (price times quantity) is therefore counted in
//! `PRICE_SCALE * PRICE_SCALE` parts of a unit.
use vstd::prelude::*;

verus! {

/// Ticks per unit for prices, quantities, ratios and percentages.
pub const PRICE_SCALE: u64 = 100_000_000;

#[derive(Clone, Copy, Debug, PartialEq, Eq, Structural)]
pub struct OrderbookLevel {
    pub price: u64,
    pub quantity: u64,
}

/// The usable levels of one raw side: entries that failed to parse are
/// dropped, the others kept in order.
pub open spec fn usable_levels(raw: Seq<Option<OrderbookLevel>>) -> Seq<OrderbookLevel>
    decreases raw.len(),
{
    if raw.len() == 0 {
        Seq::empty()
    } else {
        let rest = usable_levels(raw.drop_last());
        match raw.last() {
            Some(l) => rest.push(l),
            None => rest,
        }
    }
}

pub open spec fn side_limit(raw_len: int, max_levels: usize) -> int {
    if raw_len < max_levels {
        raw_len
    } else {
        max_levels as int
    }
}

/// One side of a book: the first `max_levels` raw entries, without those
/// that failed to parse.
pub open spec fn side_from_raw(raw: Seq<Option<OrderbookLevel>>, max_levels: usize) -> Seq<OrderbookLevel> {
    usable_levels(raw.subrange(0, side_limit(raw.len() as int, max_levels)))
}

/// A bid counts when its price is at least `mid * (1 - band)`, compared
/// exactly in integers (`mid = (best_bid + best_ask) / 2`).
pub open spec fn bid_in_band(p: u64, best_bid: u64, best_ask: u64, band: u64) -> bool {
    2 * p * PRICE_SCALE >= (best_bid + best_ask) * (PRICE_SCALE - band)
}

/// An ask counts when its price is at most `mid * (1 + band)`.
pub open spec fn ask_in_band(p: u64, best_bid: u64, best_ask: u64, band: u64) -> bool {
    2 * p * PRICE_SCALE <= (best_bid + best_ask) * (PRICE_SCALE + band)
}

pub open spec fn bid_depth(levels: Seq<OrderbookLevel>, bb: u64, ba: u64, band: u64) -> int
    decreases levels.len(),
{
    if levels.len() == 0 {
        0
    } else {
        let l = levels.last();
        bid_depth(levels.drop_last(), bb, ba, band) + if bid_in_band(l.price, bb, ba, band) {
            l.price * l.quantity
        } else {
            0
        }
    }
}

pub open spec fn ask_depth(levels: Seq<OrderbookLevel>, bb: u64, ba: u64, band: u64) -> int
    decreases levels.len(),
{
    if levels.len() == 0 {
        0
    } else {
        let l = levels.last();
        ask_depth(levels.drop_last(), bb, ba, band) + if ask_in_band(l.price, bb, ba, band) {
            l.price * l.quantity
        } else {
            0
        }
    }
}

/// `x`, or `u128::MAX` when it is larger.
pub open spec fn saturated(x: int) -> u128 {
    if x > u128::MAX {
        u128::MAX
    } else {
        x as u128
    }
}

/// `(best_ask - best_bid) / mid`, in ticks, rounded toward minus infinity.
pub open spec fn spread_pct_of(bb: u64, ba: u64) -> int {
    ((ba - bb) * 2 * PRICE_SCALE) / ((bb + ba) as int)
}

/// The exact comparison `(best_ask - best_bid) / mid > max`.
pub open spec fn spread_exceeds_spec(bb: u64, ba: u64, max: u64) -> bool {
    (ba - bb) * 2 * PRICE_SCALE > max * (bb + ba)
}

#[derive(Clone, Debug)]
pub struct ProcessedOrderbook {
    /// Bids, best (highest) first.
    pub bids: Vec<OrderbookLevel>,
    /// Asks, best (lowest) first.
    pub asks: Vec<OrderbookLevel>,
    pub timestamp_ms: u64,
}

fn usable_side(raw: &Vec<Option<OrderbookLevel>>, max_levels: usize) -> (r: Vec<OrderbookLevel>)
    ensures
        r@ == side_from_raw(raw@, max_levels),
{
    let n = if raw.len() < max_levels {
        raw.len()
    } else {
        max_levels
    };
    let mut out: Vec<OrderbookLevel> = Vec::new();
    let mut i: usize = 0;
    while i < n
        invariant
            0 <= i <= n,
            n == side_limit(raw@.len() as int, max_levels),
            n <= raw@.len(),
            out@ == usable_levels(raw@.subrange(0, i as int)),
        decreases n - i,
    {
        proof {
            assert(raw@.subrange(0, i + 1).drop_last() =~= raw@.subrange(0, i as int));
        }
        match raw[i] {
            Some(l) => {
                out.push(l);
            },
            None => {},
        }
        i = i + 1;
    }
    out
}

proof fn lemma_mul_bound(a: int, b: int, ma: int, mb: int)
    requires
        0 <= a <= ma,
        0 <= b <= mb,
    ensures
        0 <= a * b <= ma * mb,
{
    assert(0 <= a * b <= ma * mb) by (nonlinear_arith)
        requires
            0 <= a <= ma,
            0 <= b <= mb,
    ;
}

pub proof fn lemma_depth_nonneg(levels: Seq<OrderbookLevel>, bb: u64, ba: u64, band: u64)
    ensures
        0 <= bid_depth(levels, bb, ba, band),
        0 <= ask_depth(levels, bb, ba, band),
    decreases levels.len(),
{
    if levels.len() > 0 {
        let l = levels.last();
        lemma_depth_nonneg(levels.drop_last(), bb, ba, band);
        lemma_mul_bound(l.price as int, l.quantity as int, l.price as int, l.quantity as int);
    }
}

impl ProcessedOrderbook {
    /// Builds a snapshot from raw levels (`None` where a level failed to
    /// parse), keeping at most `max_levels` raw entries per side.
    pub fn from_raw(
        bids: &Vec<Option<OrderbookLevel>>,
        asks: &Vec<Option<OrderbookLevel>>,
        max_levels: usize,
        timestamp_ms: u64,
    ) -> (r: ProcessedOrderbook)
        ensures
            r.bids@ == side_from_raw(bids@, max_levels),
            r.asks@ == side_from_raw(asks@, max_levels),
            r.timestamp_ms == timestamp_ms,
    {
        let b = usable_side(bids, max_levels);
        let a = usable_side(asks, max_levels);
        ProcessedOrderbook { bids: b, asks: a, timestamp_ms }
    }

    /// Best bid and best ask, when both sides have a level.
    pub open spec fn best(&self) -> Option<(u64, u64)> {
        if self.bids@.len() > 0 && self.asks@.len() > 0 {
            Some((self.bids@[0].price, self.asks@[0].price))
        } else {
            None
        }
    }

    /// `(best_bid + best_ask) / 2`, rounded down.
    pub fn calculate_mid_price(&self) -> (r: Option<u64>)
        ensures
            r == match self.best() {
                Some((bb, ba)) => Some(((bb + ba) / 2) as u64),
                None => None::<u64>,
            },
    {
        if self.bids.len() == 0 || self.asks.len() == 0 {
            return None;
        }
        let bb = self.bids[0].price;
        let ba = self.asks[0].price;
        Some(((bb as u128 + ba as u128) / 2) as u64)
    }

    /// `(best_ask - best_bid) / mid` in ticks, rounded down; absent when a
    /// side is empty or the mid price is zero.
    pub fn calculate_spread_pct(&self) -> (r: Option<i128>)
        ensures
            r == match self.best() {
                Some((bb, ba)) => if bb + ba > 0 {
                    Some(spread_pct_of(bb, ba) as i128)
                } else {
                    None::<i128>
                },
                None => None::<i128>,
            },
    {
        if self.bids.len() == 0 || self.asks.len() == 0 {
            return None;
        }
        let bb = self.bids[0].price;
        let ba = self.asks[0].price;
        let d = (bb as i128) + (ba as i128);
        if d == 0 {
            return None;
        }
        let x = ((ba as i128) - (bb as i128)) * 200_000_000i128;
        let q = if x >= 0 {
            x / d
        } else {
            -((-x + d - 1) / d)
        };
        proof {
            if x < 0 {
                let a: int = -(x as int);
                let di: int = d as int;
                vstd::arithmetic::div_mod::lemma_fundamental_div_mod(a + di - 1, di);
                let k = (a + di - 1) / di;
                let r = (a + di - 1) % di;
                assert(x == -(k * di) + (di - 1 - r)) by (nonlinear_arith)
                    requires
                        a + di - 1 == di * k + r,
                        a == -(x as int),
                ;
                assert(-(k * di) == (-k) * di) by (nonlinear_arith);
                vstd::arithmetic::div_mod::lemma_div_multiples_vanish_fancy(-k, di - 1 - r, di);
                assert(x as int / di == -k);
            }
        }
        Some(q)
    }

    /// Whether the quoted spread is wider than `max_spread_pct`; absent when
    /// a side is empty or the mid price is zero.
    pub fn spread_exceeds(&self, max_spread_pct: u64) -> (r: Option<bool>)
        ensures
            r == match self.best() {
                Some((bb, ba)) => if bb + ba > 0 {
                    Some(spread_exceeds_spec(bb, ba, max_spread_pct))
                } else {
                    None::<bool>
                },
                None => None::<bool>,
            },
    {
        if self.bids.len() == 0 || self.asks.len() == 0 {
            return None;
        }
        let bb = self.bids[0].price;
        let ba = self.asks[0].price;
        let sum = bb as u128 + ba as u128;
        if sum == 0 {
            return None;
        }
        if ba <= bb {
            return Some(false);
        }
        let lhs = ((ba - bb) as u128) * 200_000_000u128;
        match (max_spread_pct as u128).checked_mul(sum) {
            Some(rhs) => Some(lhs > rhs),
            None => Some(false),
        }
    }

    /// Notional depth within `band_pct` of the mid price: bids priced at or
    /// above `mid * (1 - band)` plus asks priced at or below
    /// `mid * (1 + band)`, each counted as price times quantity, saturating
    /// at `u128::MAX`. Zero when a side is empty.
    pub fn calculate_depth_in_band(&self, band_pct: u64) -> (r: u128)
        ensures
            r == match self.best() {
                Some((bb, ba)) => saturated(
                    bid_depth(self.bids@, bb, ba, band_pct) + ask_depth(self.asks@, bb, ba, band_pct),
                ),
                None => 0,
            },
    {
        if self.bids.len() == 0 || self.asks.len() == 0 {
            return 0;
        }
        let bb = self.bids[0].price;
        let ba = self.asks[0].price;
        let sum2 = bb as u128 + ba as u128;
        let s: u128 = 100_000_000;
        proof {
            if band_pct < PRICE_SCALE {
                lemma_mul_bound(bb + ba, PRICE_SCALE - band_pct, 2 * u64::MAX, PRICE_SCALE as int);
            }
        }
        let lower: u128 = if (band_pct as u128) >= s {
            0
        } else {
            sum2 * (s - band_pct as u128)
        };
        // `None` when the upper edge is beyond every price.
        let upper: Option<u128> = sum2.checked_mul(s + band_pct as u128);
        let mut bid_sum: u128 = 0;
        let mut i: usize = 0;
        let ghost bids = self.bids@;
        while i < self.bids.len()
            invariant
                0 <= i <= bids.len(),
                bids == self.bids@,
                bid_sum == saturated(bid_depth(bids.subrange(0, i as int), bb, ba, band_pct)),
                lower as int == if band_pct >= PRICE_SCALE {
                    0
                } else {
                    (bb + ba) * (PRICE_SCALE - band_pct)
                },
            decreases bids.len() - i,
        {
            let l = self.bids[i];
            proof {
                assert(bids.subrange(0, i + 1).drop_last() =~= bids.subrange(0, i as int));
                lemma_mul_bound(l.price as int, l.quantity as int, u64::MAX as int, u64::MAX as int);
                lemma_depth_nonneg(bids.subrange(0, i as int), bb, ba, band_pct);
                if band_pct >= PRICE_SCALE {
                    assert((bb + ba) * (PRICE_SCALE - band_pct) <= 0) by (nonlinear_arith)
                        requires
                            band_pct >= PRICE_SCALE,
                    ;
                }
            }
            if (l.price as u128) * 200_000_000u128 >= lower {
                bid_sum = bid_sum.saturating_add((l.price as u128) * (l.quantity as u128));
            }
            i = i + 1;
        }
        let mut ask_sum: u128 = 0;
        let mut j: usize = 0;
        let ghost asks = self.asks@;
        proof {
            assert(bids.subrange(0, bids.len() as int) =~= bids);
            lemma_depth_nonneg(bids, bb, ba, band_pct);
        }
        while j < self.asks.len()
            invariant
                0 <= j <= asks.len(),
                asks == self.asks@,
                ask_sum == saturated(ask_depth(asks.subrange(0, j as int), bb, ba, band_pct)),
                upper matches Some(u) ==> u as int == (bb + ba) * (PRICE_SCALE + band_pct),
                upper is None ==> (bb + ba) * (PRICE_SCALE + band_pct) > u128::MAX,
            decreases asks.len() - j,
        {
            let l = self.asks[j];
            proof {
                assert(asks.subrange(0, j + 1).drop_last() =~= asks.subrange(0, j as int));
                lemma_mul_bound(l.price as int, l.quantity as int, u64::MAX as int, u64::MAX as int);
                lemma_depth_nonneg(asks.subrange(0, j as int), bb, ba, band_pct);
            }
            let inside = match upper {
                Some(u) => (l.price as u128) * 200_000_000u128 <= u,
                None => true,
            };
            if inside {
                ask_sum = ask_sum.saturating_add((l.price as u128) * (l.quantity as u128));
            }
            j = j + 1;
        }
        proof {
            assert(asks.subrange(0, asks.len() as int) =~= asks);
            lemma_depth_nonneg(asks, bb, ba, band_pct);
        }
        bid_sum.saturating_add(ask_sum)
    }
}

} // verus!
