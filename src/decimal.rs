//! Decimal price text, such as `"67234.125"`, to signed integer cents.
use vstd::prelude::*;

verus! {

pub open spec fn is_digit(c: char) -> bool {
    '0' <= c && c <= '9'
}

pub open spec fn digit_value(c: char) -> int {
    c as int - '0' as int
}

/// The number that the decimal digits `d` spell.
pub open spec fn digits_value(d: Seq<char>) -> int
    decreases d.len(),
{
    if d.len() == 0 {
        0
    } else {
        digits_value(d.drop_last()) * 10 + digit_value(d.last())
    }
}

/// Every character of `s` in `[a, b)` is a decimal digit.
pub open spec fn all_digits(s: Seq<char>, a: int, b: int) -> bool {
    forall|k: int| a <= k < b ==> is_digit(#[trigger] s[k])
}

/// 1 when `s` starts with a minus sign, else 0.
pub open spec fn sign_len(s: Seq<char>) -> int {
    if s.len() > 0 && s[0] == '-' {
        1
    } else {
        0
    }
}

/// The first index at or after `from` that holds a `.`, or `s.len()`.
pub open spec fn dot_pos(s: Seq<char>, from: int) -> int
    decreases s.len() - from,
{
    if from >= s.len() {
        s.len() as int
    } else if s[from] == '.' {
        from
    } else {
        dot_pos(s, from + 1)
    }
}

/// Hundredths from the fractional digits `f`, rounded half up on the third.
pub open spec fn frac_cents(f: Seq<char>) -> int {
    (if f.len() > 0 { digit_value(f[0]) * 10 } else { 0 }) + (if f.len() > 1 {
        digit_value(f[1])
    } else {
        0
    }) + (if f.len() > 2 && digit_value(f[2]) >= 5 { 1int } else { 0int })
}

/// The value of `s` in cents, rounded half up, when `s` is an optional `-`,
/// then digits, then optionally a `.` and more digits, with at least one
/// digit in all; `None` otherwise.
pub open spec fn decimal_cents(s: Seq<char>) -> Option<int> {
    let st = sign_len(s);
    let p = dot_pos(s, st);
    let fs = if p < s.len() { p + 1 } else { p };
    if all_digits(s, st, p) && all_digits(s, fs, s.len() as int) && (p - st) + (s.len() - fs) > 0 {
        let mag = digits_value(s.subrange(st, p)) * 100 + frac_cents(s.subrange(fs, s.len() as int));
        Some(if st == 1 { -mag } else { mag })
    } else {
        None
    }
}

/// Index of the first fractional digit of `s` (just after the `.`, if any).
pub open spec fn frac_start(s: Seq<char>) -> int {
    let p = dot_pos(s, sign_len(s));
    if p < s.len() {
        p + 1
    } else {
        p
    }
}

/// The value of the digits before the `.`.
pub open spec fn decimal_whole(s: Seq<char>) -> int {
    digits_value(s.subrange(sign_len(s), dot_pos(s, sign_len(s))))
}

/// Some fractional digit is not zero.
pub open spec fn decimal_frac_nonzero(s: Seq<char>) -> bool {
    exists|k: int| frac_start(s) <= k < s.len() && s[k] != '0'
}

/// A decimal number read from text: its value rounded to cents, and what
/// exact comparisons need. The exact magnitude is `whole` plus a fraction in
/// `[0, 1)` that is zero unless `fraction_nonzero`.
#[derive(Clone, Copy, Debug, PartialEq, Eq, Structural)]
pub struct DecimalPrice {
    /// Rounded half up, with the sign applied.
    pub cents: i64,
    /// The text starts with `-`.
    pub negative: bool,
    /// The magnitude's integer part.
    pub whole: u64,
    pub fraction_nonzero: bool,
}

impl DecimalPrice {
    /// The sign of `cents` agrees with `negative`.
    pub open spec fn wf(self) -> bool {
        self.negative || self.cents >= 0
    }
}

/// What `s` reads as, when it is a decimal number whose cents fit in `i64`.
pub open spec fn decimal_price_of(s: Seq<char>) -> Option<DecimalPrice> {
    match decimal_cents(s) {
        Some(v) if i64::MIN < v <= i64::MAX => Some(
            DecimalPrice {
                cents: v as i64,
                negative: sign_len(s) == 1,
                whole: decimal_whole(s) as u64,
                fraction_nonzero: decimal_frac_nonzero(s),
            },
        ),
        _ => None,
    }
}

/// The text is not a decimal number, or its value in cents does not fit in `i64`.
#[derive(Clone, Copy, Debug, PartialEq, Eq, Structural)]
pub struct DecimalError;

proof fn lemma_dot_pos(s: Seq<char>, from: int, p: int)
    requires
        0 <= from <= p <= s.len(),
        forall|k: int| from <= k < p ==> s[k] != '.',
        p == s.len() || s[p] == '.',
    ensures
        dot_pos(s, from) == p,
    decreases p - from,
{
    if from < p {
        lemma_dot_pos(s, from + 1, p);
    }
}

proof fn lemma_digits_nonneg(s: Seq<char>, a: int, k: int)
    requires
        0 <= a <= k <= s.len(),
        all_digits(s, a, k),
    ensures
        0 <= digits_value(s.subrange(a, k)),
    decreases k - a,
{
    if k > a {
        lemma_digits_nonneg(s, a, k - 1);
        assert(s.subrange(a, k).drop_last() == s.subrange(a, k - 1));
        assert(is_digit(s[k - 1]));
    }
}

proof fn lemma_digits_prefix(s: Seq<char>, a: int, k: int, b: int)
    requires
        0 <= a <= k <= b <= s.len(),
        all_digits(s, a, b),
    ensures
        digits_value(s.subrange(a, k)) <= digits_value(s.subrange(a, b)),
    decreases b - k,
{
    if k < b {
        lemma_digits_prefix(s, a, k + 1, b);
        lemma_digits_nonneg(s, a, k);
        assert(s.subrange(a, k + 1).drop_last() == s.subrange(a, k));
        assert(is_digit(s[k]));
    }
}

/// Parses `s` to cents with `decimal_cents`, failing when that has no value or
/// the value does not fit in `i64`.
pub fn parse_decimal_cents(s: &str) -> (r: Result<i64, DecimalError>)
    ensures
        r.is_ok() <==> (decimal_cents(s@) matches Some(v) && i64::MIN < v <= i64::MAX),
        r matches Ok(c) ==> decimal_cents(s@) == Some(c as int),
{
    match parse_decimal(s) {
        Ok(d) => Ok(d.cents),
        Err(e) => Err(e),
    }
}

/// Reads `s` as `decimal_price_of` does, failing where that has no value.
pub fn parse_decimal(s: &str) -> (r: Result<DecimalPrice, DecimalError>)
    ensures
        r.is_ok() <==> decimal_price_of(s@).is_some(),
        r matches Ok(d) ==> decimal_price_of(s@) == Some(d),
{
    let n = s.unicode_len();
    let st: usize = if n > 0 && s.get_char(0) == '-' {
        1
    } else {
        0
    };
    // the integer digits
    let mut p: usize = st;
    while p < n && s.get_char(p) != '.'
        invariant
            st <= p <= n,
            n == s@.len(),
            forall|k: int| st <= k < p ==> s@[k] != '.',
        decreases n - p,
    {
        p = p + 1;
    }
    proof {
        lemma_dot_pos(s@, st as int, p as int);
    }
    let fs: usize = if p < n {
        p + 1
    } else {
        p
    };
    let mut k: usize = st;
    while k < n
        invariant
            st <= k <= n,
            st <= p <= n,
            st == sign_len(s@),
            p == dot_pos(s@, st as int),
            n == s@.len(),
            fs == (if p < n { p + 1 } else { p as int }),
            forall|j: int| st <= j < k && j != p ==> is_digit(#[trigger] s@[j]),
        decreases n - k,
    {
        let c = s.get_char(k);
        if k != p && !('0' <= c && c <= '9') {
            proof {
                if k < p {
                    assert(!all_digits(s@, st as int, p as int));
                } else {
                    assert(!all_digits(s@, fs as int, n as int));
                }
            }
            return Err(DecimalError);
        }
        k = k + 1;
    }
    if (p - st) + (n - fs) == 0 {
        return Err(DecimalError);
    }
    assert(all_digits(s@, st as int, p as int));
    assert(all_digits(s@, fs as int, n as int));
    // value of the integer digits, bounded so that the cents fit
    let limit: u64 = 92_233_720_368_547_758;
    let mut ip: u64 = 0;
    let mut i: usize = st;
    while i < p
        invariant
            st <= i <= p <= n,
            n == s@.len(),
            st == sign_len(s@),
            p == dot_pos(s@, st as int),
            fs == (if p < n { p + 1 } else { p as int }),
            fs <= n,
            all_digits(s@, st as int, p as int),
            all_digits(s@, fs as int, n as int),
            ip == digits_value(s@.subrange(st as int, i as int)),
            ip <= limit,
            limit == 92_233_720_368_547_758,
        decreases p - i,
    {
        assert(is_digit(s@[i as int]));
        let c = s.get_char(i);
        let d = (c as u32 - '0' as u32) as u64;
        assert(d <= 9);
        assert(s@.subrange(st as int, i + 1).drop_last() == s@.subrange(st as int, i as int));
        if ip > (limit - d) / 10 {
            proof {
                lemma_digits_prefix(s@, st as int, i + 1, p as int);
                let v = digits_value(s@.subrange(st as int, p as int));
                let ff = s@.subrange(fs as int, n as int);
                assert(v >= limit + 1);
                assert(v * 100 >= (limit + 1) * 100) by (nonlinear_arith)
                    requires
                        v >= limit + 1,
                ;
                if fs < n {
                    assert(is_digit(ff[0]) && ff[0] == s@[fs as int]);
                }
                if fs + 1 < n {
                    assert(is_digit(ff[1]) && ff[1] == s@[fs + 1]);
                }
                assert(frac_cents(ff) >= 0);
            }
            return Err(DecimalError);
        }
        ip = ip * 10 + d;
        i = i + 1;
    }
    let ghost f = s@.subrange(fs as int, n as int);
    let mut fc: u64 = 0;
    if fs < n {
        assert(is_digit(s@[fs as int]));
        fc = fc + (s.get_char(fs) as u32 - '0' as u32) as u64 * 10;
        assert(f[0] == s@[fs as int]);
    }
    if fs < n && n - fs > 1 {
        assert(is_digit(s@[fs + 1]));
        fc = fc + (s.get_char(fs + 1) as u32 - '0' as u32) as u64;
        assert(f[1] == s@[fs + 1]);
    }
    if fs < n && n - fs > 2 && s.get_char(fs + 2) >= '5' {
        fc = fc + 1;
    }
    assert(fs + 2 < n ==> f[2] == s@[fs + 2]);
    assert(fc == frac_cents(f));
    let mag: u64 = ip * 100 + fc;
    if mag > i64::MAX as u64 {
        return Err(DecimalError);
    }
    let mut nz = false;
    let mut j: usize = fs;
    while j < n
        invariant
            fs <= j <= n,
            n == s@.len(),
            nz == exists|k: int| fs <= k < j && s@[k] != '0',
        decreases n - j,
    {
        if s.get_char(j) != '0' {
            nz = true;
        }
        proof {
            if !nz {
                assert forall|k: int| fs <= k < j + 1 implies s@[k] == '0' by {
                    if k < j {
                        assert(!(fs <= k < j && s@[k] != '0'));
                    }
                }
            }
        }
        j = j + 1;
    }
    let cents: i64 = if st == 1 {
        -(mag as i64)
    } else {
        mag as i64
    };
    Ok(DecimalPrice { cents, negative: st == 1, whole: ip, fraction_nonzero: nz })
}

} // verus!

verus! {

/// A number read from text without a minus sign has non-negative cents.
pub proof fn lemma_decimal_price_wf(s: Seq<char>)
    ensures
        decimal_price_of(s) matches Some(d) ==> d.wf(),
{
    if decimal_price_of(s).is_some() {
        let st = sign_len(s);
        let p = dot_pos(s, st);
        let fs = frac_start(s);
        lemma_dot_pos_bounds(s, st);
        lemma_digits_nonneg(s, st, p);
        let f = s.subrange(fs, s.len() as int);
        if f.len() > 0 {
            assert(is_digit(s[fs]) && f[0] == s[fs]);
        }
        if f.len() > 1 {
            assert(is_digit(s[fs + 1]) && f[1] == s[fs + 1]);
        }
    }
}

proof fn lemma_dot_pos_bounds(s: Seq<char>, from: int)
    requires
        0 <= from <= s.len(),
    ensures
        from <= dot_pos(s, from) <= s.len(),
        dot_pos(s, from) == s.len() || s[dot_pos(s, from)] == '.',
    decreases s.len() - from,
{
    if from < s.len() && s[from] != '.' {
        lemma_dot_pos_bounds(s, from + 1);
    }
}

} // verus!
