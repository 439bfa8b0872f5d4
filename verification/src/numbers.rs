//! Decimal number parsing and printing.
//!
//! `parse_unsigned` / `parse_signed` follow the grammar that `str::parse`
//! accepts for Rust's integer types; `parse_decimal_trunc` reads a plain
//! decimal number and truncates it toward zero, saturating at the `i64`
//! bounds.
use vstd::prelude::*;
use crate::text::{chars_of, find_char_from, find_char_from_exec, is_digit, lemma_find_char_from, slice_vec, string_of};

verus! {

pub open spec fn digit_val(c: char) -> nat {
    ((c as u32) - ('0' as u32)) as nat
}

pub open spec fn all_digits(s: Seq<char>) -> bool {
    forall|i: int| 0 <= i < s.len() ==> is_digit(#[trigger] s[i])
}

/// Value of a string of decimal digits.
pub open spec fn digits_value(s: Seq<char>) -> nat
    decreases s.len(),
{
    if s.len() == 0 {
        0
    } else {
        digits_value(s.drop_last()) * 10 + digit_val(s.last())
    }
}

/// The digits after an optional leading `+`.
pub open spec fn unsigned_body(s: Seq<char>) -> Seq<char> {
    if s.len() > 0 && s[0] == '+' {
        s.skip(1)
    } else {
        s
    }
}

/// `str::parse` for an unsigned integer type whose largest value is `max`.
pub open spec fn parse_unsigned(s: Seq<char>, max: nat) -> Option<nat> {
    let b = unsigned_body(s);
    if b.len() > 0 && all_digits(b) && digits_value(b) <= max {
        Some(digits_value(b))
    } else {
        None
    }
}

/// `str::parse::<i64>`.
pub open spec fn parse_i64(s: Seq<char>) -> Option<int> {
    if s.len() > 0 && s[0] == '-' {
        let b = s.skip(1);
        if b.len() > 0 && all_digits(b) && digits_value(b) <= 0x8000_0000_0000_0000 {
            Some(-(digits_value(b) as int))
        } else {
            None
        }
    } else {
        match parse_unsigned(s, 0x7fff_ffff_ffff_ffff) {
            Some(v) => Some(v as int),
            None => None,
        }
    }
}

/// Value of the digits of `s[lo..hi]`, saturated at `cap`.
pub fn digits_value_sat(s: &[char], lo: usize, hi: usize, cap: u64) -> (r: u64)
    requires
        lo <= hi <= s@.len(),
        all_digits(s@.subrange(lo as int, hi as int)),
    ensures
        r as nat == if digits_value(s@.subrange(lo as int, hi as int)) <= cap {
            digits_value(s@.subrange(lo as int, hi as int))
        } else {
            cap as nat
        },
{
    let mut acc: u64 = 0;
    let mut i = lo;
    while i < hi
        invariant
            lo <= i <= hi <= s@.len(),
            all_digits(s@.subrange(lo as int, hi as int)),
            acc as nat == if digits_value(s@.subrange(lo as int, i as int)) <= cap {
                digits_value(s@.subrange(lo as int, i as int))
            } else {
                cap as nat
            },
        decreases hi - i,
    {
        let ghost prev = s@.subrange(lo as int, i as int);
        let ghost next = s@.subrange(lo as int, i + 1);
        assert(next.drop_last() =~= prev);
        assert(s@.subrange(lo as int, hi as int)[i - lo] == s@[i as int]);
        let d = ((s[i] as u32) - ('0' as u32)) as u64;
        proof {
            lemma_digits_value_monotone(prev, s@[i as int]);
        }
        if acc < cap {
            let wide: u128 = (acc as u128) * 10 + (d as u128);
            if wide > cap as u128 {
                acc = cap;
            } else {
                acc = wide as u64;
            }
        }
        i = i + 1;
    }
    acc
}

/// Appending a digit never lowers the value.
pub proof fn lemma_digits_value_monotone(s: Seq<char>, c: char)
    ensures
        digits_value(s.push(c)) == digits_value(s) * 10 + digit_val(c),
        digits_value(s.push(c)) >= digits_value(s),
{
    assert(s.push(c).drop_last() =~= s);
}

/// Whether every character of `s[lo..hi]` is a decimal digit.
pub fn all_digits_exec(s: &[char], lo: usize, hi: usize) -> (b: bool)
    requires
        lo <= hi <= s@.len(),
    ensures
        b == all_digits(s@.subrange(lo as int, hi as int)),
{
    let mut i = lo;
    while i < hi
        invariant
            lo <= i <= hi <= s@.len(),
            forall|j: int| lo <= j < i ==> is_digit(s@[j]),
        decreases hi - i,
    {
        if !('0' <= s[i] && s[i] <= '9') {
            assert(!is_digit(s@.subrange(lo as int, hi as int)[i - lo]));
            return false;
        }
        i = i + 1;
    }
    assert forall|j: int| 0 <= j < hi - lo implies is_digit(#[trigger] s@.subrange(lo as int, hi as int)[j]) by {
        assert(s@.subrange(lo as int, hi as int)[j] == s@[lo + j]);
    }
    true
}

/// `str::parse` for an unsigned integer type with largest value `max`,
/// on characters.
pub fn parse_unsigned_chars(s: &[char], max: u64) -> (r: Option<u64>)
    ensures
        match r {
            Some(v) => parse_unsigned(s@, max as nat) == Some(v as nat),
            None => parse_unsigned(s@, max as nat) is None,
        },
{
    let lo: usize = if s.len() > 0 && s[0] == '+' { 1 } else { 0 };
    assert(unsigned_body(s@) =~= s@.subrange(lo as int, s@.len() as int));
    if lo >= s.len() {
        return None;
    }
    if !all_digits_exec(s, lo, s.len()) {
        return None;
    }
    if max == u64::MAX {
        let v = digits_value_sat(s, lo, s.len(), u64::MAX);
        // A value that reaches the cap exactly may be the cap or beyond it.
        if v < u64::MAX {
            return Some(v);
        }
        let w = digits_value_sat_or_over(s, lo, s.len());
        return w;
    }
    let v = digits_value_sat(s, lo, s.len(), max + 1);
    if v > max {
        None
    } else {
        Some(v)
    }
}

/// Value of the digits of `s[lo..hi]` when it fits in a `u64`.
pub fn digits_value_sat_or_over(s: &[char], lo: usize, hi: usize) -> (r: Option<u64>)
    requires
        lo <= hi <= s@.len(),
        all_digits(s@.subrange(lo as int, hi as int)),
    ensures
        match r {
            Some(v) => digits_value(s@.subrange(lo as int, hi as int)) == v as nat,
            None => digits_value(s@.subrange(lo as int, hi as int)) > u64::MAX,
        },
{
    let mut acc: u64 = 0;
    let mut i = lo;
    while i < hi
        invariant
            lo <= i <= hi <= s@.len(),
            all_digits(s@.subrange(lo as int, hi as int)),
            acc as nat == digits_value(s@.subrange(lo as int, i as int)),
        decreases hi - i,
    {
        let ghost prev = s@.subrange(lo as int, i as int);
        assert(s@.subrange(lo as int, i + 1) =~= prev.push(s@[i as int]));
        assert(s@.subrange(lo as int, hi as int)[i - lo] == s@[i as int]);
        proof {
            lemma_digits_value_monotone(prev, s@[i as int]);
        }
        let d = ((s[i] as u32) - ('0' as u32)) as u64;
        let wide: u128 = (acc as u128) * 10 + (d as u128);
        if wide > u64::MAX as u128 {
            proof {
                lemma_digits_value_prefix_bound(s@.subrange(lo as int, hi as int), (i + 1 - lo) as int);
                assert(s@.subrange(lo as int, hi as int).take((i + 1 - lo) as int) =~= s@.subrange(
                    lo as int,
                    i + 1,
                ));
            }
            return None;
        }
        acc = wide as u64;
        i = i + 1;
    }
    Some(acc)
}

/// A prefix of a digit string never has a larger value than the whole.
pub proof fn lemma_digits_value_prefix_bound(s: Seq<char>, k: int)
    requires
        0 <= k <= s.len(),
    ensures
        digits_value(s.take(k)) <= digits_value(s),
    decreases s.len() - k,
{
    if k < s.len() {
        lemma_digits_value_prefix_bound(s, k + 1);
        assert(s.take(k + 1).drop_last() =~= s.take(k));
    } else {
        assert(s.take(k) =~= s);
    }
}

/// `str::parse::<u64>`.
pub fn parse_u64(s: &str) -> (r: Option<u64>)
    ensures
        match r {
            Some(v) => parse_unsigned(s@, u64::MAX as nat) == Some(v as nat),
            None => parse_unsigned(s@, u64::MAX as nat) is None,
        },
{
    let cs = chars_of(s);
    parse_unsigned_chars(&cs, u64::MAX)
}

/// `str::parse::<u32>`.
pub fn parse_u32(s: &str) -> (r: Option<u32>)
    ensures
        match r {
            Some(v) => parse_unsigned(s@, u32::MAX as nat) == Some(v as nat),
            None => parse_unsigned(s@, u32::MAX as nat) is None,
        },
{
    let cs = chars_of(s);
    match parse_unsigned_chars(&cs, u32::MAX as u64) {
        Some(v) => Some(v as u32),
        None => None,
    }
}

/// `str::parse::<u16>`.
pub fn parse_u16(s: &str) -> (r: Option<u16>)
    ensures
        match r {
            Some(v) => parse_unsigned(s@, u16::MAX as nat) == Some(v as nat),
            None => parse_unsigned(s@, u16::MAX as nat) is None,
        },
{
    let cs = chars_of(s);
    match parse_unsigned_chars(&cs, u16::MAX as u64) {
        Some(v) => Some(v as u16),
        None => None,
    }
}

/// `str::parse::<i64>`.
pub fn parse_i64_str(s: &str) -> (r: Option<i64>)
    ensures
        match r {
            Some(v) => parse_i64(s@) == Some(v as int),
            None => parse_i64(s@) is None,
        },
{
    let cs = chars_of(s);
    if cs.len() > 0 && cs[0] == '-' {
        assert(s@.skip(1) =~= cs@.subrange(1, cs@.len() as int));
        if cs.len() == 1 || !all_digits_exec(&cs, 1, cs.len()) {
            return None;
        }
        let v = digits_value_sat(&cs, 1, cs.len(), 0x8000_0000_0000_0001);
        if v > 0x8000_0000_0000_0000 {
            return None;
        }
        if v == 0x8000_0000_0000_0000 {
            return Some(i64::MIN);
        }
        return Some(-(v as i64));
    }
    match parse_unsigned_chars(&cs, 0x7fff_ffff_ffff_ffff) {
        Some(v) => Some(v as i64),
        None => None,
    }
}

// ==================== Printing ====================

pub open spec fn digit_char(d: nat) -> char {
    ((d + 48) as u8) as char
}

/// Decimal representation of a natural number.
pub open spec fn dec(n: nat) -> Seq<char>
    decreases n,
{
    if n < 10 {
        seq![digit_char(n)]
    } else {
        dec(n / 10).push(digit_char(n % 10))
    }
}

/// Decimal representation of an integer (`Display` for integers).
pub open spec fn dec_int(n: int) -> Seq<char> {
    if n < 0 {
        seq!['-'] + dec((-n) as nat)
    } else {
        dec(n as nat)
    }
}

/// Decimal representation of `n` padded with zeros to at least two digits
/// (`{:02}`).
pub open spec fn dec2(n: nat) -> Seq<char> {
    if n < 10 {
        seq!['0', digit_char(n)]
    } else {
        dec(n)
    }
}

/// The decimal digits of `n`.
pub fn u64_chars(n: u64) -> (r: Vec<char>)
    ensures
        r@ == dec(n as nat),
    decreases n,
{
    if n < 10 {
        let c = ((n + 48) as u8) as char;
        let mut v: Vec<char> = Vec::new();
        v.push(c);
        assert(v@ =~= seq![digit_char(n as nat)]);
        v
    } else {
        let mut v = u64_chars(n / 10);
        let c = ((n % 10 + 48) as u8) as char;
        v.push(c);
        v
    }
}

/// `u64::to_string`.
pub fn u64_to_string(n: u64) -> (r: String)
    ensures
        r@ == dec(n as nat),
{
    let v = u64_chars(n);
    string_of(&v)
}

/// `i64::to_string`.
pub fn i64_to_string(n: i64) -> (r: String)
    ensures
        r@ == dec_int(n as int),
{
    if n < 0 {
        let m: u64 = if n == i64::MIN { 0x8000_0000_0000_0000 } else { (-n) as u64 };
        let mut v: Vec<char> = Vec::new();
        v.push('-');
        let d = u64_chars(m);
        let mut i: usize = 0;
        while i < d.len()
            invariant
                i <= d@.len(),
                v@ == seq!['-'] + d@.take(i as int),
            decreases d@.len() - i,
        {
            v.push(d[i]);
            i = i + 1;
            assert(v@ =~= seq!['-'] + d@.take(i as int));
        }
        assert(d@.take(i as int) =~= d@);
        string_of(&v)
    } else {
        u64_to_string(n as u64)
    }
}

/// `{:02}` formatting of a small natural number.
pub fn two_digits(n: u64) -> (r: Vec<char>)
    ensures
        r@ == dec2(n as nat),
{
    if n < 10 {
        let mut v: Vec<char> = Vec::new();
        v.push('0');
        v.push(((n + 48) as u8) as char);
        assert(v@ =~= seq!['0', digit_char(n as nat)]);
        v
    } else {
        u64_chars(n)
    }
}

// ==================== Decimal with truncation ====================

/// A plain decimal number `[+-]digits[.digits]` (at least one digit),
/// split into its sign, integer digits and fraction digits.
pub open spec fn decimal_parts(s: Seq<char>) -> Option<(bool, Seq<char>, Seq<char>)> {
    let neg = s.len() > 0 && s[0] == '-';
    let body = if s.len() > 0 && (s[0] == '-' || s[0] == '+') { s.skip(1) } else { s };
    let (ip, fp) = match find_char_from(body, '.', 0) {
        Some(k) => (body.take(k), body.skip(k + 1)),
        None => (body, Seq::<char>::empty()),
    };
    if all_digits(ip) && all_digits(fp) && ip.len() + fp.len() > 0 {
        Some((neg, ip, fp))
    } else {
        None
    }
}

/// Saturating conversion of an integer to `i64`.
pub open spec fn sat_i64(v: int) -> int {
    if v > i64::MAX {
        i64::MAX as int
    } else if v < i64::MIN {
        i64::MIN as int
    } else {
        v
    }
}

/// The decimal number held by `s`, truncated toward zero and saturated at
/// the `i64` bounds; `None` when `s` is no decimal number.
pub open spec fn decimal_trunc(s: Seq<char>) -> Option<int> {
    match decimal_parts(s) {
        Some((neg, ip, fp)) => Some(
            if neg {
                sat_i64(-(digits_value(ip) as int))
            } else {
                sat_i64(digits_value(ip) as int)
            },
        ),
        None => None,
    }
}

/// Reads a decimal number `[+-]digits[.digits]` and truncates it toward
/// zero, saturating at the `i64` bounds.
pub fn decimal_trunc_chars(s: &[char]) -> (r: Option<i64>)
    ensures
        match r {
            Some(v) => decimal_trunc(s@) == Some(v as int),
            None => decimal_trunc(s@) is None,
        },
{
    let neg = s.len() > 0 && s[0] == '-';
    let lo: usize = if s.len() > 0 && (s[0] == '-' || s[0] == '+') { 1 } else { 0 };
    let ghost body = if s@.len() > 0 && (s@[0] == '-' || s@[0] == '+') { s@.skip(1) } else { s@ };
    assert(body =~= s@.subrange(lo as int, s@.len() as int));
    let body_v = slice_vec(s, lo, s.len());
    let dot = find_char_from_exec(&body_v, '.', 0);
    let (ip_end, fp_start): (usize, usize) = match dot {
        Some(k) => {
            proof {
                lemma_find_char_from(body, '.', 0);
            }
            (k, k + 1)
        },
        None => (body_v.len(), body_v.len()),
    };
    let ghost ip = body.subrange(0, ip_end as int);
    let ghost fp = body.subrange(fp_start as int, body.len() as int);
    proof {
        match find_char_from(body, '.', 0) {
            Some(k) => {
                assert(ip =~= body.take(k));
                assert(fp =~= body.skip(k + 1));
            },
            None => {
                assert(ip =~= body);
                assert(fp =~= Seq::<char>::empty());
            },
        }
    }
    if !all_digits_exec(&body_v, 0, ip_end) || !all_digits_exec(&body_v, fp_start, body_v.len()) {
        return None;
    }
    if ip_end == 0 && fp_start >= body_v.len() {
        return None;
    }
    let mag = digits_value_sat(&body_v, 0, ip_end, 0x8000_0000_0000_0000);
    if neg {
        if mag == 0x8000_0000_0000_0000 {
            Some(i64::MIN)
        } else {
            Some(-(mag as i64))
        }
    } else {
        if mag >= 0x8000_0000_0000_0000 {
            Some(i64::MAX)
        } else {
            Some(mag as i64)
        }
    }
}

} // verus!
