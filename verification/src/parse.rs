//! Decimal numbers and whitespace: parsing and printing of the plain values
//! that configuration, schedules and headers carry as text.
use vstd::prelude::*;
use crate::text::{chars_of, push_char, slice_chars, string_of};

verus! {

/// Unicode `White_Space`, the set that `char::is_whitespace` accepts.
pub open spec fn is_ws(c: char) -> bool {
    ||| c == ' ' || c == '\t' || c == '\n' || c == '\r'
    ||| c == '\u{b}' || c == '\u{c}' || c == '\u{85}' || c == '\u{a0}'
    ||| c == '\u{1680}' || ('\u{2000}' <= c && c <= '\u{200a}')
    ||| c == '\u{2028}' || c == '\u{2029}' || c == '\u{202f}' || c == '\u{205f}'
    ||| c == '\u{3000}'
}

/// `char::is_whitespace`.
pub fn is_whitespace(c: char) -> (r: bool)
    ensures
        r == is_ws(c),
{
    c == ' ' || c == '\t' || c == '\n' || c == '\r' || c == '\u{b}' || c == '\u{c}' || c == '\u{85}'
        || c == '\u{a0}' || c == '\u{1680}' || ('\u{2000}' <= c && c <= '\u{200a}')
        || c == '\u{2028}' || c == '\u{2029}' || c == '\u{202f}' || c == '\u{205f}'
        || c == '\u{3000}'
}

/// Number of leading whitespace characters.
pub open spec fn lead_ws(s: Seq<char>) -> nat
    decreases s.len(),
{
    if s.len() > 0 && is_ws(s[0]) {
        1 + lead_ws(s.drop_first())
    } else {
        0
    }
}

/// Number of trailing whitespace characters.
pub open spec fn trail_ws(s: Seq<char>) -> nat
    decreases s.len(),
{
    if s.len() > 0 && is_ws(s.last()) {
        1 + trail_ws(s.drop_last())
    } else {
        0
    }
}

/// `s` without leading whitespace (`str::trim_start`).
pub open spec fn trim_start_seq(s: Seq<char>) -> Seq<char> {
    s.skip(lead_ws(s) as int)
}

/// `s` without trailing whitespace (`str::trim_end`).
pub open spec fn trim_end_seq(s: Seq<char>) -> Seq<char> {
    s.take(s.len() - trail_ws(s))
}

/// `s` without leading or trailing whitespace (`str::trim`).
pub open spec fn trim_seq(s: Seq<char>) -> Seq<char> {
    trim_end_seq(trim_start_seq(s))
}

pub proof fn lemma_lead_ws(s: Seq<char>)
    ensures
        lead_ws(s) <= s.len(),
        forall|i: int| 0 <= i < lead_ws(s) ==> is_ws(#[trigger] s[i]),
        lead_ws(s) < s.len() ==> !is_ws(s[lead_ws(s) as int]),
    decreases s.len(),
{
    if s.len() > 0 && is_ws(s[0]) {
        lemma_lead_ws(s.drop_first());
        assert forall|i: int| 0 <= i < lead_ws(s) implies is_ws(#[trigger] s[i]) by {
            if i > 0 {
                assert(s[i] == s.drop_first()[i - 1]);
            }
        }
    }
}

proof fn lemma_lead_ws_is(s: Seq<char>, k: int)
    requires
        0 <= k <= s.len(),
        forall|i: int| 0 <= i < k ==> is_ws(#[trigger] s[i]),
        k < s.len() ==> !is_ws(s[k]),
    ensures
        lead_ws(s) == k,
    decreases k,
{
    if k > 0 {
        lemma_lead_ws_is(s.drop_first(), k - 1);
    }
}

proof fn lemma_trail_ws_is(s: Seq<char>, k: int)
    requires
        0 <= k <= s.len(),
        forall|i: int| s.len() - k <= i < s.len() ==> is_ws(#[trigger] s[i]),
        k < s.len() ==> !is_ws(s[s.len() - k - 1]),
    ensures
        trail_ws(s) == k,
    decreases k,
{
    if k > 0 {
        let t = s.drop_last();
        assert forall|i: int| t.len() - (k - 1) <= i < t.len() implies is_ws(#[trigger] t[i]) by {
            assert(t[i] == s[i]);
        }
        if k - 1 < t.len() {
            assert(t[t.len() - (k - 1) - 1] == s[s.len() - k - 1]);
        }
        lemma_trail_ws_is(t, k - 1);
    }
}

/// `str::trim_start` on a character slice.
pub fn trim_start_chars(v: &[char]) -> (r: Vec<char>)
    ensures
        r@ == trim_start_seq(v@),
{
    let mut start: usize = 0;
    while start < v.len() && is_whitespace(v[start])
        invariant
            start <= v.len(),
            forall|i: int| 0 <= i < start ==> is_ws(#[trigger] v@[i]),
        decreases v.len() - start,
    {
        start = start + 1;
    }
    proof { lemma_lead_ws_is(v@, start as int); }
    let r = slice_chars(v, start, v.len());
    assert(r@ =~= v@.skip(start as int));
    r
}

/// `str::trim` on a character slice.
pub fn trim_chars(v: &[char]) -> (r: Vec<char>)
    ensures
        r@ == trim_seq(v@),
{
    let mut start: usize = 0;
    while start < v.len() && is_whitespace(v[start])
        invariant
            start <= v.len(),
            forall|i: int| 0 <= i < start ==> is_ws(#[trigger] v@[i]),
        decreases v.len() - start,
    {
        start = start + 1;
    }
    proof { lemma_lead_ws_is(v@, start as int); }
    let ghost t = v@.skip(start as int);
    let mut end: usize = v.len();
    while end > start && is_whitespace(v[end - 1])
        invariant
            start <= end <= v.len(),
            t == v@.skip(start as int),
            forall|i: int| end <= i < v.len() ==> is_ws(#[trigger] v@[i]),
        decreases end - start,
    {
        end = end - 1;
    }
    proof {
        let k = (v.len() - end) as int;
        assert forall|i: int| t.len() - k <= i < t.len() implies is_ws(#[trigger] t[i]) by {
            assert(t[i] == v@[i + start]);
        }
        if k < t.len() {
            assert(t[t.len() - k - 1] == v@[end - 1]);
        }
        lemma_trail_ws_is(t, k);
        assert(t.take(t.len() - k) =~= v@.subrange(start as int, end as int));
    }
    slice_chars(v, start, end)
}

/// `str::trim` producing a new `String`.
pub fn trim_text(s: &str) -> (r: String)
    ensures
        r@ == trim_seq(s@),
{
    let v = chars_of(s);
    let t = trim_chars(&v);
    string_of(&t)
}

/// The value of a character that is an ASCII digit.
pub open spec fn digit_value(c: char) -> nat {
    ((c as u32) - ('0' as u32)) as nat
}

pub open spec fn is_digit(c: char) -> bool {
    '0' <= c && c <= '9'
}

/// Value of a string of decimal digits, most significant first.
pub open spec fn digits_value(s: Seq<char>) -> nat
    decreases s.len(),
{
    if s.len() == 0 {
        0
    } else {
        digits_value(s.drop_last()) * 10 + digit_value(s.last())
    }
}

/// The digits that `u*::from_str` reads: an optional leading `+` is dropped.
pub open spec fn unsigned_digits(s: Seq<char>) -> Seq<char> {
    if s.len() > 0 && s[0] == '+' {
        s.drop_first()
    } else {
        s
    }
}

/// The unsigned number that `s` denotes, as `u*::from_str` reads it,
/// without a bound: `None` unless, after an optional `+`, `s` is a non-empty
/// run of ASCII digits.
pub open spec fn unsigned_value(s: Seq<char>) -> Option<nat> {
    let d = unsigned_digits(s);
    if d.len() > 0 && forall|i: int| 0 <= i < d.len() ==> is_digit(#[trigger] d[i]) {
        Some(digits_value(d))
    } else {
        None
    }
}

/// `u*::from_str` for a type whose largest value is `max`.
pub open spec fn parse_unsigned_spec(s: Seq<char>, max: nat) -> Option<nat> {
    match unsigned_value(s) {
        Some(v) => if v <= max { Some(v) } else { None },
        None => None,
    }
}

proof fn lemma_digits_monotone(s: Seq<char>, k: int)
    requires
        0 <= k <= s.len(),
    ensures
        digits_value(s.take(k)) <= digits_value(s),
    decreases s.len() - k,
{
    if k < s.len() {
        lemma_digits_monotone(s, k + 1);
        assert(s.take(k + 1).drop_last() =~= s.take(k));
        let x = digits_value(s.take(k));
        let y = digits_value(s.take(k + 1));
        assert(y == x * 10 + digit_value(s.take(k + 1).last()));
        assert(x * 10 + digit_value(s.take(k + 1).last()) >= x) by (nonlinear_arith);
    } else {
        assert(s.take(k) =~= s);
    }
}

/// Parses an unsigned decimal number no larger than `max`, as
/// `u16::from_str`, `u32::from_str`, `u64::from_str` and `usize::from_str`
/// do for their own `max`.
pub fn parse_unsigned(s: &str, max: u64) -> (r: Option<u64>)
    ensures
        match r {
            Some(v) => parse_unsigned_spec(s@, max as nat) == Some(v as nat),
            None => parse_unsigned_spec(s@, max as nat) is None,
        },
{
    let v = chars_of(s);
    parse_unsigned_chars(&v, max)
}

/// `parse_unsigned` on a character slice.
pub fn parse_unsigned_chars(v: &[char], max: u64) -> (r: Option<u64>)
    ensures
        match r {
            Some(x) => parse_unsigned_spec(v@, max as nat) == Some(x as nat),
            None => parse_unsigned_spec(v@, max as nat) is None,
        },
{
    let ghost s = v@;
    let start: usize = if v.len() > 0 && v[0] == '+' { 1 } else { 0 };
    let ghost d = unsigned_digits(s);
    assert(d =~= v@.skip(start as int));
    if start >= v.len() {
        return None;
    }
    let mut acc: u64 = 0;
    let mut i: usize = start;
    while i < v.len()
        invariant
            start <= i <= v.len(),
            d == v@.skip(start as int),
            d == unsigned_digits(s),
            d.len() > 0,
            v@ == s,
            acc as nat == digits_value(d.take(i - start)),
            acc <= max,
            forall|k: int| 0 <= k < i - start ==> is_digit(#[trigger] d[k]),
        decreases v.len() - i,
    {
        let c = v[i];
        assert(d[i - start] == c);
        if !('0' <= c && c <= '9') {
            assert(!is_digit(d[i - start]));
            return None;
        }
        let digit: u64 = (c as u32 - '0' as u32) as u64;
        assert(d.take(i + 1 - start).drop_last() =~= d.take(i - start));
        if digit > max || acc > (max - digit) / 10 {
            proof {
                if digit <= max {
                    assert(acc * 10 + digit > max) by (nonlinear_arith)
                        requires acc > (max - digit) / 10, digit <= max;
                }
                lemma_digits_monotone(d, i + 1 - start);
                assert(d.take(i + 1 - start).last() == c);
                assert(digit_value(c) == digit as nat);
                assert(digits_value(d.take(i + 1 - start)) == acc * 10 + digit);
                assert(d.len() > 0);
                assert(unsigned_digits(s) == d);
            }
            return None;
        }
        assert(acc * 10 + digit <= max) by (nonlinear_arith)
            requires acc <= (max - digit) / 10, digit <= max;
        acc = acc * 10 + digit;
        i = i + 1;
    }
    assert(d.take(i - start) =~= d);
    Some(acc)
}

/// Decimal digits of a natural number, without leading zeros ("0" for 0).
pub open spec fn decimal_seq(n: nat) -> Seq<char>
    decreases n,
{
    if n < 10 {
        seq![(n + 48) as char]
    } else {
        decimal_seq(n / 10).push(((n % 10) + 48) as char)
    }
}

/// Decimal text of `n`, as `u64::to_string` prints it.
pub fn decimal(n: u64) -> (r: String)
    ensures
        r@ == decimal_seq(n as nat),
{
    let v = decimal_chars(n);
    string_of(&v)
}

/// Decimal digits of `n`.
pub fn decimal_chars(n: u64) -> (r: Vec<char>)
    ensures
        r@ == decimal_seq(n as nat),
    decreases n,
{
    if n < 10 {
        let c = digit_char(n);
        let mut r: Vec<char> = Vec::new();
        r.push(c);
        assert(r@ =~= seq![(n + 48) as char]);
        r
    } else {
        let mut r = decimal_chars(n / 10);
        let c = digit_char(n % 10);
        r.push(c);
        r
    }
}

/// Decimal digits of a 128-bit `n`.
pub fn decimal_chars_wide(n: u128) -> (r: Vec<char>)
    ensures
        r@ == decimal_seq(n as nat),
    decreases n,
{
    if n < 10 {
        let c = digit_char(n as u64);
        let mut r: Vec<char> = Vec::new();
        r.push(c);
        assert(r@ =~= seq![(n + 48) as char]);
        r
    } else {
        let mut r = decimal_chars_wide(n / 10);
        let c = digit_char((n % 10) as u64);
        r.push(c);
        r
    }
}

fn digit_char(d: u64) -> (c: char)
    requires
        d < 10,
    ensures
        c == (d + 48) as char,
{
    let b: u8 = (d + 48) as u8;
    b as char
}

/// Whitespace-separated words of `s` (`str::split_whitespace`).
pub open spec fn words_seq(s: Seq<char>) -> Seq<Seq<char>>
    decreases s.len(),
{
    let t = trim_start_seq(s);
    if t.len() == 0 {
        Seq::empty()
    } else {
        let w = word_len(t);
        proof {
            lemma_lead_ws(s);
            lemma_word_len(t);
        }
        seq![t.take(w as int)] + words_seq(t.skip(w as int))
    }
}

/// Length of the leading run of non-whitespace characters.
pub open spec fn word_len(s: Seq<char>) -> nat
    decreases s.len(),
{
    if s.len() > 0 && !is_ws(s[0]) {
        1 + word_len(s.drop_first())
    } else {
        0
    }
}

pub proof fn lemma_word_len(s: Seq<char>)
    ensures
        word_len(s) <= s.len(),
        s.len() > 0 && !is_ws(s[0]) ==> word_len(s) > 0,
        forall|i: int| 0 <= i < word_len(s) ==> !is_ws(#[trigger] s[i]),
        word_len(s) < s.len() ==> is_ws(s[word_len(s) as int]),
    decreases s.len(),
{
    if s.len() > 0 && !is_ws(s[0]) {
        lemma_word_len(s.drop_first());
        assert forall|i: int| 0 <= i < word_len(s) implies !is_ws(#[trigger] s[i]) by {
            if i > 0 {
                assert(s[i] == s.drop_first()[i - 1]);
            }
        }
    }
}

proof fn lemma_word_len_is(s: Seq<char>, k: int)
    requires
        0 <= k <= s.len(),
        forall|i: int| 0 <= i < k ==> !is_ws(#[trigger] s[i]),
        k < s.len() ==> is_ws(s[k]),
    ensures
        word_len(s) == k,
    decreases k,
{
    if k > 0 {
        lemma_word_len_is(s.drop_first(), k - 1);
    }
}

/// `str::split_whitespace`, each word as a `String`.
pub fn split_whitespace(s: &str) -> (r: Vec<String>)
    ensures
        r@.len() == words_seq(s@).len(),
        forall|k: int| 0 <= k < r@.len() ==> #[trigger] r@[k]@ == words_seq(s@)[k],
{
    let v = chars_of(s);
    let mut out: Vec<String> = Vec::new();
    let ghost mut done: Seq<Seq<char>> = Seq::empty();
    let mut i: usize = 0;
    assert(v@.skip(0) =~= v@);
    loop
        invariant
            i <= v.len(),
            v@ == s@,
            out@.len() == done.len(),
            forall|k: int| 0 <= k < out@.len() ==> #[trigger] out@[k]@ == done[k],
            done + words_seq(v@.skip(i as int)) == words_seq(s@),
        decreases v.len() - i,
    {
        let ghost rest = v@.skip(i as int);
        let mut j: usize = i;
        while j < v.len() && is_whitespace(v[j])
            invariant
                i <= j <= v.len(),
                rest == v@.skip(i as int),
                forall|k: int| i <= k < j ==> is_ws(#[trigger] v@[k]),
            decreases v.len() - j,
        {
            j = j + 1;
        }
        proof {
            assert forall|k: int| 0 <= k < j - i implies is_ws(#[trigger] rest[k]) by {
                assert(rest[k] == v@[k + i]);
            }
            if j < v.len() {
                assert(rest[j - i] == v@[j as int]);
            }
            lemma_lead_ws_is(rest, j - i);
            assert(trim_start_seq(rest) =~= v@.skip(j as int));
        }
        if j == v.len() {
            proof {
                assert(trim_start_seq(rest).len() == 0);
                assert(done + words_seq(rest) =~= done);
            }
            return out;
        }
        let mut e: usize = j;
        while e < v.len() && !is_whitespace(v[e])
            invariant
                j <= e <= v.len(),
                forall|k: int| j <= k < e ==> !is_ws(#[trigger] v@[k]),
            decreases v.len() - e,
        {
            e = e + 1;
        }
        let ghost t = v@.skip(j as int);
        proof {
            assert forall|k: int| 0 <= k < e - j implies !is_ws(#[trigger] t[k]) by {
                assert(t[k] == v@[k + j]);
            }
            if e < v.len() {
                assert(t[e - j] == v@[e as int]);
            }
            lemma_word_len_is(t, e - j);
            assert(t.take(e - j) =~= v@.subrange(j as int, e as int));
            assert(t.skip(e - j) =~= v@.skip(e as int));
            assert(words_seq(rest) == seq![v@.subrange(j as int, e as int)] + words_seq(v@.skip(e as int)));
            assert(done.push(v@.subrange(j as int, e as int)) + words_seq(v@.skip(e as int))
                =~= done + words_seq(rest));
            done = done.push(v@.subrange(j as int, e as int));
        }
        let w = slice_chars(&v, j, e);
        out.push(string_of(&w));
        i = e;
    }
}

/// The character for a digit value below ten.
pub fn digit_to_char(d: u64) -> (c: char)
    requires
        d < 10,
    ensures
        c == (d + 48) as char,
{
    digit_char(d)
}

/// Appends the decimal digits of `n` to `s`.
pub fn push_decimal(s: &mut String, n: u64)
    ensures
        final(s)@ == old(s)@ + decimal_seq(n as nat),
{
    let v = decimal_chars(n);
    let mut i: usize = 0;
    while i < v.len()
        invariant
            i <= v.len(),
            s@ == old(s)@ + v@.take(i as int),
        decreases v.len() - i,
    {
        push_char(s, v[i]);
        assert(v@.take(i + 1) =~= v@.take(i as int).push(v@[i as int]));
        i = i + 1;
    }
    assert(v@.take(v.len() as int) =~= v@);
}

} // verus!
