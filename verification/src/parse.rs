//! Header-value parsers the pipeline needs: the `max-age=N` cache
//! directive and a `Retry-After` value, in its delta-seconds form or as an
//! IMF-fixdate. A value that parses as neither is no directive; the caller
//! falls back to its default.

use vstd::prelude::*;

use crate::bytes::is_prefix_of;

verus! {

pub const DIGIT_ZERO: u8 = 48;

pub const DIGIT_NINE: u8 = 57;

pub open spec fn all_digits(s: Seq<u8>) -> bool {
    forall|i: int| 0 <= i < s.len() ==> DIGIT_ZERO <= #[trigger] s[i] <= DIGIT_NINE
}

/// The number the decimal digits `s` denote.
pub open spec fn digits_val(s: Seq<u8>) -> int
    decreases s.len(),
{
    if s.len() == 0 {
        0
    } else {
        digits_val(s.drop_last()) * 10 + (s.last() - DIGIT_ZERO)
    }
}

pub open spec fn pow10(n: nat) -> int
    decreases n,
{
    if n == 0 {
        1
    } else {
        10 * pow10((n - 1) as nat)
    }
}

proof fn lemma_digits_val_bound(s: Seq<u8>)
    requires
        all_digits(s),
    ensures
        0 <= digits_val(s) < pow10(s.len()),
    decreases s.len(),
{
    if s.len() > 0 {
        assert(all_digits(s.drop_last()));
        lemma_digits_val_bound(s.drop_last());
    }
}

/// A string of up to nineteen decimal digits denotes a number a `u64`
/// holds.
pub open spec fn parse_digits_spec(s: Seq<u8>) -> Option<u64> {
    if 1 <= s.len() <= 19 && all_digits(s) {
        Some(digits_val(s) as u64)
    } else {
        None
    }
}

/// Parses `s[from..to]` as a decimal number.
pub fn parse_digits(s: &Vec<u8>, from: usize, to: usize) -> (r: Option<u64>)
    requires
        from <= to <= s@.len(),
    ensures
        r == parse_digits_spec(s@.subrange(from as int, to as int)),
{
    let ghost digits = s@.subrange(from as int, to as int);
    if to - from < 1 || to - from > 19 {
        return None;
    }
    proof {
        reveal_with_fuel(pow10, 20);
        assert(pow10(19) == 10_000_000_000_000_000_000);
    }
    let mut acc: u64 = 0;
    let mut i: usize = from;
    assert(digits.subrange(0, 0) =~= Seq::<u8>::empty());
    while i < to
        invariant
            from <= i <= to <= s@.len(),
            to - from <= 19,
            digits == s@.subrange(from as int, to as int),
            all_digits(digits.subrange(0, i - from)),
            acc == digits_val(digits.subrange(0, i - from)),
            acc < pow10((i - from) as nat),
            pow10(19) == 10_000_000_000_000_000_000,
            pow10((i - from) as nat) <= pow10(19),
        decreases to - i,
    {
        let c = s[i];
        if c < DIGIT_ZERO || c > DIGIT_NINE {
            assert(digits[i - from] == c);
            return None;
        }
        proof {
            let pre = digits.subrange(0, i - from);
            let nxt = digits.subrange(0, i + 1 - from);
            assert(nxt.drop_last() =~= pre);
            assert(nxt.last() == c);
            lemma_digits_val_bound(nxt);
            assert(pow10(((i + 1) - from) as nat) <= pow10(19)) by {
                lemma_pow10_monotone(((i + 1) - from) as nat, 19);
            }
        }
        acc = acc * 10 + ((c - DIGIT_ZERO) as u64);
        i += 1;
    }
    assert(digits.subrange(0, to - from) =~= digits);
    Some(acc)
}

proof fn lemma_pow10_pos(n: nat)
    ensures
        pow10(n) >= 1,
    decreases n,
{
    if n > 0 {
        lemma_pow10_pos((n - 1) as nat);
    }
}

proof fn lemma_pow10_monotone(a: nat, b: nat)
    requires
        a <= b,
    ensures
        pow10(a) <= pow10(b),
    decreases b,
{
    if a < b {
        lemma_pow10_monotone(a, (b - 1) as nat);
        lemma_pow10_pos((b - 1) as nat);
        assert(pow10(b) == 10 * pow10((b - 1) as nat));
    }
}

/// The literal `max-age=` directive prefix.
pub open spec fn max_age_prefix() -> Seq<u8> {
    seq![
        ('m' as u8),
        ('a' as u8),
        ('x' as u8),
        ('-' as u8),
        ('a' as u8),
        ('g' as u8),
        ('e' as u8),
        ('=' as u8),
    ]
}

/// The seconds a `Cache-Control: max-age=N` header asks for, if the value
/// has exactly that shape.
pub open spec fn parse_max_age_spec(h: Seq<u8>) -> Option<u64> {
    if is_prefix_of(max_age_prefix(), h) {
        parse_digits_spec(h.subrange(max_age_prefix().len() as int, h.len() as int))
    } else {
        None
    }
}

fn max_age_prefix_vec() -> (r: Vec<u8>)
    ensures
        r@ == max_age_prefix(),
{
    let r = vec![
        ('m' as u8),
        ('a' as u8),
        ('x' as u8),
        ('-' as u8),
        ('a' as u8),
        ('g' as u8),
        ('e' as u8),
        ('=' as u8),
    ];
    assert(r@ =~= max_age_prefix());
    r
}

/// Parses a `Cache-Control` value of the shape `max-age=N`.
pub fn parse_max_age(h: &Vec<u8>) -> (r: Option<u64>)
    ensures
        r == parse_max_age_spec(h@),
{
    let prefix = max_age_prefix_vec();
    if crate::bytes::starts_with(h, &prefix) {
        parse_digits(h, prefix.len(), h.len())
    } else {
        None
    }
}

/// The seconds a `Retry-After` header asks for in its delta-seconds form;
/// the HTTP-date form is read by [`parse_http_date_spec`], and a value that
/// is neither leaves the monitor its default cooldown.
pub open spec fn parse_retry_after_spec(h: Seq<u8>) -> Option<u64> {
    parse_digits_spec(h)
}

/// Parses a `Retry-After` value in its delta-seconds form.
pub fn parse_retry_after(h: &Vec<u8>) -> (r: Option<u64>)
    ensures
        r == parse_retry_after_spec(h@),
{
    assert(h@.subrange(0, h@.len() as int) =~= h@);
    parse_digits(h, 0, h.len())
}


/// A decimal digit's value at one position.
pub open spec fn digit_at(h: Seq<u8>, i: int) -> int {
    h[i] - DIGIT_ZERO
}

pub open spec fn is_digit_at(h: Seq<u8>, i: int) -> bool {
    DIGIT_ZERO <= h[i] <= DIGIT_NINE
}

/// The month an IMF-fixdate names in its three letters, January as 1.
pub open spec fn month_code(a: u8, b: u8, c: u8) -> Option<int> {
    if a == ('J' as u8) && b == ('a' as u8) && c == ('n' as u8) {
        Some(1int)
    } else if a == ('F' as u8) && b == ('e' as u8) && c == ('b' as u8) {
        Some(2int)
    } else if a == ('M' as u8) && b == ('a' as u8) && c == ('r' as u8) {
        Some(3int)
    } else if a == ('A' as u8) && b == ('p' as u8) && c == ('r' as u8) {
        Some(4int)
    } else if a == ('M' as u8) && b == ('a' as u8) && c == ('y' as u8) {
        Some(5int)
    } else if a == ('J' as u8) && b == ('u' as u8) && c == ('n' as u8) {
        Some(6int)
    } else if a == ('J' as u8) && b == ('u' as u8) && c == ('l' as u8) {
        Some(7int)
    } else if a == ('A' as u8) && b == ('u' as u8) && c == ('g' as u8) {
        Some(8int)
    } else if a == ('S' as u8) && b == ('e' as u8) && c == ('p' as u8) {
        Some(9int)
    } else if a == ('O' as u8) && b == ('c' as u8) && c == ('t' as u8) {
        Some(10int)
    } else if a == ('N' as u8) && b == ('o' as u8) && c == ('v' as u8) {
        Some(11int)
    } else if a == ('D' as u8) && b == ('e' as u8) && c == ('c' as u8) {
        Some(12int)
    } else {
        None
    }
}

/// Days between the epoch and a civil date (1970-01-01 is day zero); the
/// classic shifted-era computation, for years at or past the epoch.
pub open spec fn days_from_civil(y: int, m: int, d: int) -> int
    recommends
        y >= 1970,
        1 <= m <= 12,
        1 <= d <= 31,
{
    let ys = if m <= 2 {
        y - 1
    } else {
        y
    };
    let era = ys / 400;
    let yoe = ys - era * 400;
    let mp = if m > 2 {
        m - 3
    } else {
        m + 9
    };
    let doy = (153 * mp + 2) / 5 + d - 1;
    let doe = yoe * 365 + yoe / 4 - yoe / 100 + doy;
    era * 146097 + doe - 719468
}

/// The shape of an IMF-fixdate, `Sun, 06 Nov 1994 08:49:37 GMT`: fixed
/// width, every field in place and in range.
pub open spec fn imf_date_shaped(h: Seq<u8>) -> bool {
    &&& h.len() == 29
    &&& h[3] == (',' as u8) && h[4] == (' ' as u8)
    &&& is_digit_at(h, 5) && is_digit_at(h, 6)
    &&& h[7] == (' ' as u8)
    &&& month_code(h[8], h[9], h[10]) is Some
    &&& h[11] == (' ' as u8)
    &&& is_digit_at(h, 12) && is_digit_at(h, 13) && is_digit_at(h, 14) && is_digit_at(h, 15)
    &&& h[16] == (' ' as u8)
    &&& is_digit_at(h, 17) && is_digit_at(h, 18)
    &&& h[19] == (':' as u8)
    &&& is_digit_at(h, 20) && is_digit_at(h, 21)
    &&& h[22] == (':' as u8)
    &&& is_digit_at(h, 23) && is_digit_at(h, 24)
    &&& h[25] == (' ' as u8) && h[26] == ('G' as u8) && h[27] == ('M' as u8) && h[28] == (
    'T' as u8)
}

pub open spec fn imf_year(h: Seq<u8>) -> int {
    digit_at(h, 12) * 1000 + digit_at(h, 13) * 100 + digit_at(h, 14) * 10 + digit_at(h, 15)
}

pub open spec fn imf_day(h: Seq<u8>) -> int {
    digit_at(h, 5) * 10 + digit_at(h, 6)
}

pub open spec fn imf_hms(h: Seq<u8>) -> int {
    (digit_at(h, 17) * 10 + digit_at(h, 18)) * 3600 + (digit_at(h, 20) * 10 + digit_at(
        h,
        21,
    )) * 60 + digit_at(h, 23) * 10 + digit_at(h, 24)
}

/// The fields' plausibility ranges; a date before the epoch counts as
/// malformed, there being nothing left to wait for.
pub open spec fn imf_fields_in_range(h: Seq<u8>) -> bool {
    &&& 1970 <= imf_year(h)
    &&& 1 <= imf_day(h) <= 31
    &&& digit_at(h, 17) * 10 + digit_at(h, 18) <= 23
    &&& digit_at(h, 20) * 10 + digit_at(h, 21) <= 59
    &&& digit_at(h, 23) * 10 + digit_at(h, 24) <= 59
}

/// The moment an IMF-fixdate names, in seconds since the epoch.
pub open spec fn parse_http_date_spec(h: Seq<u8>) -> Option<u64> {
    if imf_date_shaped(h) && imf_fields_in_range(h) {
        Some(
            (days_from_civil(imf_year(h), month_code(h[8], h[9], h[10])->0, imf_day(h)) * 86400
                + imf_hms(h)) as u64,
        )
    } else {
        None
    }
}

/// Reads the three month letters.
fn month_code_at(h: &Vec<u8>) -> (r: Option<u8>)
    requires
        h@.len() == 29,
    ensures
        match r {
            Some(m) => month_code(h@[8], h@[9], h@[10]) == Some(m as int),
            None => month_code(h@[8], h@[9], h@[10]) is None,
        },
{
    let (a, b, c) = (h[8], h[9], h[10]);
    if a == ('J' as u8) && b == ('a' as u8) && c == ('n' as u8) {
        Some(1)
    } else if a == ('F' as u8) && b == ('e' as u8) && c == ('b' as u8) {
        Some(2)
    } else if a == ('M' as u8) && b == ('a' as u8) && c == ('r' as u8) {
        Some(3)
    } else if a == ('A' as u8) && b == ('p' as u8) && c == ('r' as u8) {
        Some(4)
    } else if a == ('M' as u8) && b == ('a' as u8) && c == ('y' as u8) {
        Some(5)
    } else if a == ('J' as u8) && b == ('u' as u8) && c == ('n' as u8) {
        Some(6)
    } else if a == ('J' as u8) && b == ('u' as u8) && c == ('l' as u8) {
        Some(7)
    } else if a == ('A' as u8) && b == ('u' as u8) && c == ('g' as u8) {
        Some(8)
    } else if a == ('S' as u8) && b == ('e' as u8) && c == ('p' as u8) {
        Some(9)
    } else if a == ('O' as u8) && b == ('c' as u8) && c == ('t' as u8) {
        Some(10)
    } else if a == ('N' as u8) && b == ('o' as u8) && c == ('v' as u8) {
        Some(11)
    } else if a == ('D' as u8) && b == ('e' as u8) && c == ('c' as u8) {
        Some(12)
    } else {
        None
    }
}

/// Reads the two-digit number at `i`, if both bytes are digits.
fn two_digits_at(h: &Vec<u8>, i: usize) -> (r: Option<u8>)
    requires
        h@.len() == 29,
        i + 2 <= 29,
    ensures
        match r {
            Some(v) => is_digit_at(h@, i as int) && is_digit_at(h@, i + 1) && v as int == digit_at(
                h@,
                i as int,
            ) * 10 + digit_at(h@, i + 1),
            None => !(is_digit_at(h@, i as int) && is_digit_at(h@, i + 1)),
        },
{
    let a = h[i];
    let b = h[i + 1];
    if DIGIT_ZERO <= a && a <= DIGIT_NINE && DIGIT_ZERO <= b && b <= DIGIT_NINE {
        Some((a - DIGIT_ZERO) * 10 + (b - DIGIT_ZERO))
    } else {
        None
    }
}

/// Parses an IMF-fixdate `Retry-After` value to seconds since the epoch.
pub fn parse_http_date(h: &Vec<u8>) -> (r: Option<u64>)
    ensures
        r == parse_http_date_spec(h@),
{
    if h.len() != 29 {
        return None;
    }
    if !(h[3] == (',' as u8) && h[4] == (' ' as u8) && h[7] == (' ' as u8) && h[11] == (' ' as u8)
        && h[16] == (' ' as u8) && h[19] == (':' as u8) && h[22] == (':' as u8) && h[25] == (
    ' ' as u8) && h[26] == ('G' as u8) && h[27] == ('M' as u8) && h[28] == ('T' as u8)) {
        return None;
    }
    let month = match month_code_at(h) {
        Some(m) => m,
        None => {
            return None;
        },
    };
    let day = match two_digits_at(h, 5) {
        Some(d) => d,
        None => {
            return None;
        },
    };
    let y_hi = match two_digits_at(h, 12) {
        Some(v) => v,
        None => {
            return None;
        },
    };
    let y_lo = match two_digits_at(h, 14) {
        Some(v) => v,
        None => {
            return None;
        },
    };
    let hh = match two_digits_at(h, 17) {
        Some(v) => v,
        None => {
            return None;
        },
    };
    let mm = match two_digits_at(h, 20) {
        Some(v) => v,
        None => {
            return None;
        },
    };
    let ss = match two_digits_at(h, 23) {
        Some(v) => v,
        None => {
            return None;
        },
    };
    let year: u64 = (y_hi as u64) * 100 + (y_lo as u64);
    if !(1970 <= year && 1 <= day && day <= 31 && hh <= 23 && mm <= 59 && ss <= 59) {
        return None;
    }
    assert(imf_date_shaped(h@) && imf_fields_in_range(h@));
    let m64 = month as u64;
    let ys: u64 = if m64 <= 2 {
        year - 1
    } else {
        year
    };
    let era: u64 = ys / 400;
    let yoe: u64 = ys - era * 400;
    let mp: u64 = if m64 > 2 {
        m64 - 3
    } else {
        m64 + 9
    };
    let doy: u64 = (153 * mp + 2) / 5 + (day as u64) - 1;
    let doe: u64 = yoe * 365 + yoe / 4 - yoe / 100 + doy;
    let days: u64 = era * 146097 + doe - 719468;
    let secs: u64 = days * 86400 + (hh as u64) * 3600 + (mm as u64) * 60 + (ss as u64);
    Some(secs)
}

} // verus!
