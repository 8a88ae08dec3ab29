//! Reading decimal text ("123", "0.00012", "7.5") as fixed-point ticks.
use vstd::prelude::*;
use vstd::string::StrSliceExecFns;

verus! {

pub open spec fn is_digit(c: char) -> bool {
    '0' <= c && c <= '9'
}

pub open spec fn all_digits(s: Seq<char>) -> bool {
    forall|i: int| 0 <= i < s.len() ==> is_digit(#[trigger] s[i])
}

/// The number a string of decimal digits denotes.
pub open spec fn digits_value(s: Seq<char>) -> int
    decreases s.len(),
{
    if s.len() == 0 {
        0
    } else {
        digits_value(s.drop_last()) * 10 + (s.last() as int - '0' as int)
    }
}

/// `k` is the position of the first `'.'` in `s`.
pub open spec fn first_dot(s: Seq<char>, k: int) -> bool {
    0 <= k < s.len() && s[k] == '.' && forall|j: int| 0 <= j < k ==> #[trigger] s[j] != '.'
}

/// Ticks of a fractional part: its first eight digits, zero-padded on the
/// right (further digits are dropped).
pub open spec fn frac_ticks(f: Seq<char>) -> int {
    if f.len() >= 8 {
        digits_value(f.subrange(0, 8))
    } else {
        digits_value(f) * pow10_int(8 - f.len())
    }
}

pub open spec fn pow10_int(k: int) -> int
    decreases k,
{
    if k <= 0 {
        1
    } else {
        10 * pow10_int(k - 1)
    }
}

/// The value of `I` or `I.F` (both runs of digits, neither empty) in
/// ticks of `10^-8`; absent for any other text.
pub open spec fn decimal_ticks(s: Seq<char>) -> Option<int> {
    if s.len() > 0 && all_digits(s) {
        Some(digits_value(s) * 100_000_000)
    } else if exists|k: int| first_dot(s, k) {
        let k = choose|k: int| first_dot(s, k);
        let i = s.subrange(0, k);
        let f = s.subrange(k + 1, s.len() as int);
        if i.len() > 0 && f.len() > 0 && all_digits(i) && all_digits(f) {
            Some(digits_value(i) * 100_000_000 + frac_ticks(f))
        } else {
            None
        }
    } else {
        None
    }
}

/// `decimal_ticks`, when it exists and fits in a `u64`.
pub open spec fn price_ticks(s: Seq<char>) -> Option<u64> {
    match decimal_ticks(s) {
        Some(v) => if v <= u64::MAX {
            Some(v as u64)
        } else {
            None
        },
        None => None,
    }
}

proof fn lemma_digits_nonneg(s: Seq<char>)
    requires
        all_digits(s),
    ensures
        digits_value(s) >= 0,
    decreases s.len(),
{
    if s.len() > 0 {
        assert(is_digit(s[s.len() - 1]));
        assert(all_digits(s.drop_last()));
        lemma_digits_nonneg(s.drop_last());
    }
}

proof fn lemma_frac_nonneg(f: Seq<char>)
    requires
        all_digits(f),
    ensures
        frac_ticks(f) >= 0,
{
    if f.len() >= 8 {
        assert(all_digits(f.subrange(0, 8)));
        lemma_digits_nonneg(f.subrange(0, 8));
    } else {
        lemma_digits_nonneg(f);
        lemma_pow10_int(8 - f.len());
        assert(digits_value(f) * pow10_int(8 - f.len()) >= 0) by (nonlinear_arith)
            requires
                digits_value(f) >= 0,
                pow10_int(8 - f.len()) >= 1,
        ;
    }
}

proof fn lemma_digits_mono(s: Seq<char>, i: int, j: int)
    requires
        all_digits(s),
        0 <= i <= j <= s.len(),
    ensures
        digits_value(s.subrange(0, i)) <= digits_value(s.subrange(0, j)),
    decreases j - i,
{
    if i < j {
        lemma_digits_mono(s, i, j - 1);
        let p = s.subrange(0, j);
        assert(p.drop_last() =~= s.subrange(0, j - 1));
        assert(is_digit(s[j - 1]));
        assert(all_digits(s.subrange(0, j - 1)));
        lemma_digits_nonneg(s.subrange(0, j - 1));
    }
}

const MAX_U64: u128 = 0xffff_ffff_ffff_ffff;

/// Reads the run of digits `s[from..to]`; `None` when it is not all digits
/// or its value exceeds `u64::MAX`.
fn read_digits(s: &str, from: usize, to: usize) -> (r: Option<u128>)
    requires
        from <= to <= s@.len(),
    ensures
        r matches Some(v) ==> all_digits(s@.subrange(from as int, to as int)) && v == digits_value(
            s@.subrange(from as int, to as int),
        ) && v <= u64::MAX,
        r is None ==> !all_digits(s@.subrange(from as int, to as int)) || digits_value(
            s@.subrange(from as int, to as int),
        ) > u64::MAX,
{
    let ghost t = s@.subrange(from as int, to as int);
    let mut v: u128 = 0;
    let mut i = from;
    while i < to
        invariant
            from <= i <= to <= s@.len(),
            t == s@.subrange(from as int, to as int),
            all_digits(t.subrange(0, i - from)),
            v == digits_value(t.subrange(0, i - from)),
            v <= u64::MAX,
        decreases to - i,
    {
        let c = s.get_char(i);
        proof {
            assert(t.subrange(0, i - from + 1).drop_last() =~= t.subrange(0, i - from));
            assert(t[i - from] == c);
        }
        if !('0' <= c && c <= '9') {
            proof {
                assert(!is_digit(t[i - from]));
            }
            return None;
        }
        let d = (c as u32 - '0' as u32) as u128;
        v = v * 10 + d;
        if v > MAX_U64 {
            proof {
                assert(all_digits(t.subrange(0, i - from + 1)));
                if all_digits(t) {
                    lemma_digits_mono(t, i - from + 1, t.len() as int);
                    assert(t.subrange(0, t.len() as int) =~= t);
                }
            }
            return None;
        }
        i = i + 1;
        proof {
            assert(all_digits(t.subrange(0, i - from)));
        }
    }
    proof {
        assert(t.subrange(0, t.len() as int) =~= t);
    }
    Some(v)
}

proof fn lemma_first_dot_unique(s: Seq<char>, a: int, b: int)
    requires
        first_dot(s, a),
        first_dot(s, b),
    ensures
        a == b,
{
    if a < b {
        assert(s[a] != '.');
    } else if b < a {
        assert(s[b] != '.');
    }
}

proof fn lemma_pow10_int(k: int)
    requires
        0 <= k <= 8,
    ensures
        1 <= pow10_int(k) <= 100_000_000,
        pow10_int(k) * pow10_int(8 - k) == 100_000_000,
{
    reveal_with_fuel(pow10_int, 10);
    if k == 0 {
        assert(pow10_int(0) == 1);
        assert(pow10_int(8) == 100_000_000);
    } else if k == 1 {
        assert(pow10_int(1) == 10);
        assert(pow10_int(7) == 10_000_000);
    } else if k == 2 {
        assert(pow10_int(2) == 100);
        assert(pow10_int(6) == 1_000_000);
    } else if k == 3 {
        assert(pow10_int(3) == 1_000);
        assert(pow10_int(5) == 100_000);
    } else if k == 4 {
        assert(pow10_int(4) == 10_000);
    } else if k == 5 {
        assert(pow10_int(5) == 100_000);
        assert(pow10_int(3) == 1_000);
    } else if k == 6 {
        assert(pow10_int(6) == 1_000_000);
        assert(pow10_int(2) == 100);
    } else if k == 7 {
        assert(pow10_int(7) == 10_000_000);
        assert(pow10_int(1) == 10);
    } else {
        assert(pow10_int(8) == 100_000_000);
        assert(pow10_int(0) == 1);
    }
}

proof fn lemma_digits_below(s: Seq<char>)
    requires
        all_digits(s),
    ensures
        0 <= digits_value(s) < pow10_int(s.len() as int),
    decreases s.len(),
{
    if s.len() > 0 {
        assert(is_digit(s[s.len() - 1]));
        assert(all_digits(s.drop_last()));
        lemma_digits_below(s.drop_last());
        assert(pow10_int(s.len() as int) == 10 * pow10_int(s.len() - 1));
        assert(digits_value(s.drop_last()) * 10 + 9 < pow10_int(s.len() as int)) by (nonlinear_arith)
            requires
                digits_value(s.drop_last()) < pow10_int(s.len() - 1),
                pow10_int(s.len() as int) == 10 * pow10_int(s.len() - 1),
        ;
    }
}

/// `10^k`.
pub fn pow10_exec(k: u32) -> (r: u128)
    requires
        k <= 18,
    ensures
        r == pow10_int(k as int),
        r > 0,
    decreases k,
{
    if k == 0 {
        1
    } else {
        let p = pow10_exec(k - 1);
        proof {
            lemma_pow10_bound(k - 1);
        }
        10 * p
    }
}

proof fn lemma_pow10_bound(k: int)
    requires
        0 <= k <= 17,
    ensures
        1 <= pow10_int(k) <= 100_000_000_000_000_000,
{
    lemma_pow10_mono(k, 17);
    lemma_pow10_pos(k);
    reveal_with_fuel(pow10_int, 18);
    assert(pow10_int(17) == 100_000_000_000_000_000);
}

proof fn lemma_pow10_mono(a: int, b: int)
    requires
        0 <= a <= b,
    ensures
        pow10_int(a) <= pow10_int(b),
    decreases b,
{
    if a < b {
        lemma_pow10_mono(a, b - 1);
        lemma_pow10_pos(b - 1);
    }
}

proof fn lemma_pow10_pos(k: int)
    ensures
        pow10_int(k) >= 1,
    decreases k,
{
    if k > 0 {
        lemma_pow10_pos(k - 1);
    }
}

/// Reads decimal text as ticks of `10^-8`: `"12.5"` is `1_250_000_000`.
/// Digits past the eighth decimal place are dropped. Signs, exponents,
/// empty parts and values beyond `u64::MAX` give `None`.
pub fn parse_price(s: &str) -> (r: Option<u64>)
    ensures
        r == price_ticks(s@),
{
    let n = s.unicode_len();
    let mut k: usize = 0;
    while k < n && s.get_char(k) != '.'
        invariant
            k <= n,
            n == s@.len(),
            forall|j: int| 0 <= j < k ==> #[trigger] s@[j] != '.',
        decreases n - k,
    {
        k = k + 1;
    }
    if k == n {
        // No dot: the whole text is the integer part.
        proof {
            assert(s@.subrange(0, n as int) =~= s@);
            assert(!exists|j: int| first_dot(s@, j));
        }
        if n == 0 {
            return None;
        }
        match read_digits(s, 0, n) {
            None => None,
            Some(v) => {
                if v > MAX_U64 / 100_000_000 {
                    return None;
                }
                Some((v * 100_000_000) as u64)
            },
        }
    } else {
        assert(first_dot(s@, k as int));
        proof {
            assert(!all_digits(s@)) by {
                assert(!is_digit(s@[k as int]));
            }
            assert forall|j: int| first_dot(s@, j) implies j == k by {
                lemma_first_dot_unique(s@, j, k as int);
            }
        }
        if k == 0 || k + 1 == n {
            return None;
        }
        let ip = match read_digits(s, 0, k) {
            None => {
                proof {
                    let f = s@.subrange(k + 1, n as int);
                    if all_digits(f) {
                        lemma_frac_nonneg(f);
                    }
                }
                return None;
            },
            Some(v) => v,
        };
        let flen = n - (k + 1);
        let take = if flen >= 8 {
            8
        } else {
            flen
        };
        let ghost f = s@.subrange(k + 1, n as int);
        // The dropped digits must still be digits.
        let rest_ok = match read_digits_only(s, k + 1 + take, n) {
            true => true,
            false => false,
        };
        let fp = match read_digits(s, k + 1, k + 1 + take) {
            None => {
                proof {
                    assert(s@.subrange((k + 1) as int, (k + 1 + take) as int) =~= f.subrange(0, take as int));
                    if all_digits(f) {
                        assert(all_digits(f.subrange(0, take as int)));
                        lemma_digits_below(f.subrange(0, take as int));
                        lemma_pow10_int(take as int);
                    }
                }
                return None;
            },
            Some(v) => v,
        };
        proof {
            assert(s@.subrange((k + 1) as int, (k + 1 + take) as int) =~= f.subrange(0, take as int));
            assert(s@.subrange((k + 1 + take) as int, n as int) =~= f.subrange(take as int, f.len() as int));
            if take == flen {
                assert(f.subrange(0, take as int) =~= f);
            }
        }
        if !rest_ok {
            proof {
                assert(!all_digits(f)) by {
                    let g = f.subrange(take as int, f.len() as int);
                    let w = choose|w: int| 0 <= w < g.len() && !is_digit(#[trigger] g[w]);
                    assert(!is_digit(f[take + w]));
                }
            }
            return None;
        }
        proof {
            assert(all_digits(f)) by {
                assert forall|w: int| 0 <= w < f.len() implies is_digit(#[trigger] f[w]) by {
                    if w < take {
                        assert(f.subrange(0, take as int)[w] == f[w]);
                    } else {
                        assert(f.subrange(take as int, f.len() as int)[w - take] == f[w]);
                    }
                }
            }
            lemma_digits_below(f.subrange(0, take as int));
            lemma_pow10_int(take as int);
            lemma_pow10_int(8 - take);
            assert(s@.subrange(0, k as int).len() > 0);
        }
        let scale = pow10_exec((8 - take) as u32);
        proof {
            assert(fp * scale < 100_000_000) by (nonlinear_arith)
                requires
                    fp < pow10_int(take as int),
                    scale == pow10_int(8 - take),
                    pow10_int(take as int) * pow10_int(8 - take) == 100_000_000,
                    pow10_int(8 - take) >= 1,
            ;
        }
        let frac = fp * scale;
        if ip > (MAX_U64 - frac) / 100_000_000 {
            return None;
        }
        Some((ip * 100_000_000 + frac) as u64)
    }
}

/// Whether `s[from..to]` is all digits.
fn read_digits_only(s: &str, from: usize, to: usize) -> (r: bool)
    requires
        from <= to <= s@.len(),
    ensures
        r == all_digits(s@.subrange(from as int, to as int)),
{
    let ghost t = s@.subrange(from as int, to as int);
    let mut i = from;
    while i < to
        invariant
            from <= i <= to <= s@.len(),
            t == s@.subrange(from as int, to as int),
            forall|j: int| 0 <= j < i - from ==> is_digit(#[trigger] t[j]),
        decreases to - i,
    {
        let c = s.get_char(i);
        if !('0' <= c && c <= '9') {
            assert(!is_digit(t[i - from]));
            return false;
        }
        i = i + 1;
    }
    true
}

} // verus!
