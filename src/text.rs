//! Text output: decimal rendering of fixed-point values, chart-file rows and
//! names, and the episode log line.
use crate::candle::Candle;
use crate::decimal::{pow10_exec, pow10_int};
use crate::episode::Episode;
use vstd::prelude::*;
use vstd::string::StringExecFns;

verus! {

/// Milliseconds since the epoch up to which every instant has a UTC
/// rendering (well inside chrono's supported range of years).
pub const MAX_RENDERABLE_MS: u64 = 8 * 1_000_000_000_000_000;

/// The text chrono renders for the instant `ms` (milliseconds since the
/// Unix epoch) under the strftime `pattern`.
pub uninterp spec fn utc_text(ms: int, pattern: Seq<char>) -> Seq<char>;

pub open spec fn supported_pattern(p: Seq<char>) -> bool {
    p == "%Y%m%d_%H%M%S"@ || p == "%Y-%m-%dT%H:%M:%SZ"@ || p == "%H:%M:%S"@
}

/// Relies on chrono's `DateTime::from_timestamp_millis`, which yields an
/// instant for any millisecond count within its range of years, and on
/// `DateTime::format`, which renders it under a valid strftime pattern.
#[verifier::external_body]
fn format_utc(ms: u64, pattern: &str) -> (r: Option<String>)
    requires
        supported_pattern(pattern@),
        ms <= MAX_RENDERABLE_MS,
    ensures
        r is Some,
        r matches Some(s) ==> s@ == utc_text(ms as int, pattern@),
{
    match chrono::DateTime::from_timestamp_millis(ms as i64) {
        Some(t) => Some(t.format(pattern).to_string()),
        None => None,
    }
}

/// Relies on std's `FromIterator<char>` for `String`: the string holds the
/// characters in order.
#[verifier::external_body]
fn string_of(chars: &Vec<char>) -> (r: String)
    ensures
        r@ == chars@,
{
    String::from_iter(chars)
}

pub open spec fn digit_char(d: int) -> char {
    if d == 0 {
        '0'
    } else if d == 1 {
        '1'
    } else if d == 2 {
        '2'
    } else if d == 3 {
        '3'
    } else if d == 4 {
        '4'
    } else if d == 5 {
        '5'
    } else if d == 6 {
        '6'
    } else if d == 7 {
        '7'
    } else if d == 8 {
        '8'
    } else {
        '9'
    }
}

/// Decimal digits of `n`, without leading zeros.
pub open spec fn decimal(n: nat) -> Seq<char>
    decreases n,
{
    if n < 10 {
        seq![digit_char(n as int)]
    } else {
        decimal(n / 10).push(digit_char((n % 10) as int))
    }
}

/// The last `width` decimal digits of `n`, zero-padded.
pub open spec fn padded(n: nat, width: nat) -> Seq<char>
    decreases width,
{
    if width == 0 {
        Seq::empty()
    } else {
        padded(n / 10, (width - 1) as nat).push(digit_char((n % 10) as int))
    }
}

/// `v / 10^decimals` written with exactly `decimals` fractional digits.
pub open spec fn fixed_text(v: nat, decimals: nat) -> Seq<char> {
    if decimals == 0 {
        decimal(v)
    } else {
        decimal((v as int / pow10_int(decimals as int)) as nat) + seq!['.'] + padded(
            (v as int % pow10_int(decimals as int)) as nat,
            decimals,
        )
    }
}

fn digit(d: u128) -> (c: char)
    requires
        d < 10,
    ensures
        c == digit_char(d as int),
{
    if d == 0 {
        '0'
    } else if d == 1 {
        '1'
    } else if d == 2 {
        '2'
    } else if d == 3 {
        '3'
    } else if d == 4 {
        '4'
    } else if d == 5 {
        '5'
    } else if d == 6 {
        '6'
    } else if d == 7 {
        '7'
    } else if d == 8 {
        '8'
    } else {
        '9'
    }
}

fn push_decimal(out: &mut Vec<char>, n: u128)
    ensures
        final(out)@ == old(out)@ + decimal(n as nat),
    decreases n,
{
    if n < 10 {
        out.push(digit(n));
    } else {
        push_decimal(out, n / 10);
        out.push(digit(n % 10));
    }
}

fn push_padded(out: &mut Vec<char>, n: u128, width: u32)
    ensures
        final(out)@ == old(out)@ + padded(n as nat, width as nat),
    decreases width,
{
    if width > 0 {
        push_padded(out, n / 10, width - 1);
        out.push(digit(n % 10));
    }
}

/// `value / 10^decimals` in decimal notation with exactly `decimals`
/// fractional digits (`12345, 2` gives `"123.45"`).
pub fn fixed_point_text(value: u128, decimals: u32) -> (r: String)
    requires
        decimals <= 18,
    ensures
        r@ == fixed_text(value as nat, decimals as nat),
{
    let mut out: Vec<char> = Vec::new();
    if decimals == 0 {
        push_decimal(&mut out, value);
    } else {
        let p = pow10_exec(decimals);
        push_decimal(&mut out, value / p);
        out.push('.');
        push_padded(&mut out, value % p, decimals);
        assert(out@ =~= fixed_text(value as nat, decimals as nat));
    }
    string_of(&out)
}

/// Price ticks per unit, as a number of decimal places.
pub const PRICE_DECIMALS: u32 = 8;

/// The cells of one chart row: start of the window in milliseconds, then
/// open, high, low, close and volume in units.
pub open spec fn candle_cells(c: Candle) -> Seq<Seq<char>> {
    seq![
        decimal(c.timestamp_ms as nat),
        fixed_text(c.open as nat, 8),
        fixed_text(c.high as nat, 8),
        fixed_text(c.low as nat, 8),
        fixed_text(c.close as nat, 8),
        fixed_text(c.volume as nat, 8),
    ]
}

pub open spec fn header_cells() -> Seq<Seq<char>> {
    seq!["timestamp_ms"@, "open"@, "high"@, "low"@, "close"@, "volume"@]
}

pub open spec fn cells_view(row: Vec<String>) -> Seq<Seq<char>> {
    row@.map_values(|s: String| s@)
}

fn decimal_text(n: u128) -> (r: String)
    ensures
        r@ == decimal(n as nat),
{
    let mut out: Vec<char> = Vec::new();
    push_decimal(&mut out, n);
    assert(out@ =~= decimal(n as nat));
    string_of(&out)
}

/// The cells of the chart row for one candle.
pub fn candle_row(c: &Candle) -> (r: Vec<String>)
    ensures
        cells_view(r) == candle_cells(*c),
{
    let mut row: Vec<String> = Vec::new();
    row.push(decimal_text(c.timestamp_ms as u128));
    row.push(fixed_point_text(c.open as u128, PRICE_DECIMALS));
    row.push(fixed_point_text(c.high as u128, PRICE_DECIMALS));
    row.push(fixed_point_text(c.low as u128, PRICE_DECIMALS));
    row.push(fixed_point_text(c.close as u128, PRICE_DECIMALS));
    row.push(fixed_point_text(c.volume as u128, PRICE_DECIMALS));
    assert(cells_view(row) =~= candle_cells(*c));
    row
}

/// The header row of a chart file.
pub fn header_row() -> (r: Vec<String>)
    ensures
        cells_view(r) == header_cells(),
{
    let mut row: Vec<String> = Vec::new();
    row.push("timestamp_ms".to_string());
    row.push("open".to_string());
    row.push("high".to_string());
    row.push("low".to_string());
    row.push("close".to_string());
    row.push("volume".to_string());
    assert(cells_view(row) =~= header_cells());
    row
}

/// All rows of a chart file: the header, then one row per candle in order.
pub fn chart_rows(candles: &Vec<Candle>) -> (r: Vec<Vec<String>>)
    ensures
        r@.len() == candles@.len() + 1,
        cells_view(r@[0]) == header_cells(),
        forall|i: int| 0 <= i < candles@.len() ==> cells_view(#[trigger] r@[i + 1]) == candle_cells(candles@[i]),
{
    let mut rows: Vec<Vec<String>> = Vec::new();
    rows.push(header_row());
    let mut i: usize = 0;
    while i < candles.len()
        invariant
            i <= candles@.len(),
            rows@.len() == i + 1,
            cells_view(rows@[0]) == header_cells(),
            forall|j: int| 0 <= j < i ==> cells_view(#[trigger] rows@[j + 1]) == candle_cells(candles@[j]),
        decreases candles@.len() - i,
    {
        rows.push(candle_row(&candles[i]));
        i = i + 1;
    }
    rows
}

/// `<symbol>_<strategy>_<stamp>_<suffix>.csv`.
pub open spec fn chart_name(symbol: Seq<char>, strategy: Seq<char>, stamp: Seq<char>, suffix: Seq<char>) -> Seq<char> {
    symbol + "_"@ + strategy + "_"@ + stamp + "_"@ + suffix + ".csv"@
}

fn chart_name_exec(symbol: &String, strategy: &String, stamp: &String, suffix: &str) -> (r: String)
    ensures
        r@ == chart_name(symbol@, strategy@, stamp@, suffix@),
{
    let mut s = symbol.clone();
    s.append("_");
    s.append(strategy.as_str());
    s.append("_");
    s.append(stamp.as_str());
    s.append("_");
    s.append(suffix);
    s.append(".csv");
    s
}

/// The two chart file names of a session: the last-price file and the
/// mark-price file, stamped with the session's start to the second.
pub fn chart_file_names(symbol: &String, strategy: &String, start_time_ms: u64) -> (r: Option<(String, String)>)
    ensures
        r matches Some((a, b)) ==> {
            let stamp = utc_text(start_time_ms as int, "%Y%m%d_%H%M%S"@);
            &&& a@ == chart_name(symbol@, strategy@, stamp, "lastprice"@)
            &&& b@ == chart_name(symbol@, strategy@, stamp, "fairprice"@)
        },
        r is Some <==> start_time_ms <= MAX_RENDERABLE_MS,
{
    if start_time_ms > MAX_RENDERABLE_MS {
        return None;
    }
    match format_utc(start_time_ms, "%Y%m%d_%H%M%S") {
        None => None,
        Some(stamp) => Some(
            (
                chart_name_exec(symbol, strategy, &stamp, "lastprice"),
                chart_name_exec(symbol, strategy, &stamp, "fairprice"),
            ),
        ),
    }
}

/// Whole seconds from `start` to `end`, rounded toward zero, as text.
pub open spec fn duration_text(start: u64, end: u64) -> Seq<char> {
    if end >= start {
        decimal(((end - start) / 1000) as nat)
    } else if (start - end) / 1000 == 0 {
        "0"@
    } else {
        "-"@ + decimal(((start - end) / 1000) as nat)
    }
}

/// The peak ratio rounded to four decimals (halves away from zero).
pub open spec fn ratio_text(ratio: u128) -> Seq<char> {
    fixed_text(((ratio + 5000) / 10000) as nat, 4)
}

fn rounded_to_4(ratio: u128) -> (r: u128)
    ensures
        r == (ratio + 5000) / 10000,
{
    let q = ratio / 10000;
    let m = ratio % 10000;
    proof {
        vstd::arithmetic::div_mod::lemma_fundamental_div_mod(ratio as int, 10000);
        let qi = q as int;
        let mi = m as int;
        if mi >= 5000 {
            vstd::arithmetic::div_mod::lemma_div_multiples_vanish_fancy(qi + 1, mi - 5000, 10000);
            assert(ratio + 5000 == 10000 * (qi + 1) + (mi - 5000));
        } else {
            vstd::arithmetic::div_mod::lemma_div_multiples_vanish_fancy(qi, mi + 5000, 10000);
        }
    }
    if m >= 5000 {
        q + 1
    } else {
        q
    }
}

/// One audit line for a closed episode.
pub open spec fn episode_line(e: Episode, end_ms: u64) -> Seq<char> {
    utc_text(end_ms as int, "%Y-%m-%dT%H:%M:%SZ"@) + " | "@ + e.symbol@ + " | START="@ + utc_text(
        e.start_time_ms as int,
        "%H:%M:%S"@,
    ) + " | END="@ + utc_text(end_ms as int, "%H:%M:%S"@) + " | DURATION="@ + duration_text(
        e.start_time_ms,
        end_ms,
    ) + "s | PEAK_RATIO="@ + ratio_text(e.peak_ratio) + " | PEAK_LAST="@ + fixed_text(
        e.peak_last_price as nat,
        8,
    ) + " | PEAK_MARK="@ + fixed_text(e.peak_mark_price as nat, 8) + "\n"@
}

/// The audit line for an episode that ended at `end_ms`.
pub fn episode_log_line(e: &Episode, end_ms: u64) -> (r: Option<String>)
    ensures
        r matches Some(s) ==> s@ == episode_line(*e, end_ms),
        r is Some <==> end_ms <= MAX_RENDERABLE_MS && e.start_time_ms <= MAX_RENDERABLE_MS,
{
    if end_ms > MAX_RENDERABLE_MS || e.start_time_ms > MAX_RENDERABLE_MS {
        return None;
    }
    let stamp = match format_utc(end_ms, "%Y-%m-%dT%H:%M:%SZ") {
        Some(s) => s,
        None => return None,
    };
    let start = match format_utc(e.start_time_ms, "%H:%M:%S") {
        Some(s) => s,
        None => return None,
    };
    let end = match format_utc(end_ms, "%H:%M:%S") {
        Some(s) => s,
        None => return None,
    };
    let duration = if end_ms >= e.start_time_ms {
        decimal_text(((end_ms - e.start_time_ms) / 1000) as u128)
    } else if (e.start_time_ms - end_ms) / 1000 == 0 {
        "0".to_string()
    } else {
        let mut d = "-".to_string();
        let secs = decimal_text(((e.start_time_ms - end_ms) / 1000) as u128);
        d.append(secs.as_str());
        d
    };
    let ratio = fixed_point_text(rounded_to_4(e.peak_ratio), 4);
    let last = fixed_point_text(e.peak_last_price as u128, PRICE_DECIMALS);
    let mark = fixed_point_text(e.peak_mark_price as u128, PRICE_DECIMALS);
    let mut line = stamp;
    line.append(" | ");
    line.append(e.symbol.as_str());
    line.append(" | START=");
    line.append(start.as_str());
    line.append(" | END=");
    line.append(end.as_str());
    line.append(" | DURATION=");
    line.append(duration.as_str());
    line.append("s | PEAK_RATIO=");
    line.append(ratio.as_str());
    line.append(" | PEAK_LAST=");
    line.append(last.as_str());
    line.append(" | PEAK_MARK=");
    line.append(mark.as_str());
    line.append("\n");
    Some(line)
}

} // verus!
