//! Integers in decimal notation: writing them and reading them back.

use vstd::prelude::*;
use vstd::string::*;
use crate::text::{is_space, is_token, Span};

verus! {

/// Whether `c` is one of the ten decimal digits.
pub open spec fn is_digit(c: char) -> bool {
    '0' <= c && c <= '9'
}

/// The number that the decimal digit `c` stands for.
pub open spec fn digit_value(c: char) -> nat {
    (c as u32 - '0' as u32) as nat
}

/// The decimal digit that stands for `d`, where `d` is less than ten.
pub open spec fn digit_char(d: nat) -> char {
    seq!['0', '1', '2', '3', '4', '5', '6', '7', '8', '9'][d as int]
}

/// `n` in decimal notation, without sign or leading zeros.
pub open spec fn decimal(n: nat) -> Seq<char>
    decreases n,
{
    if n < 10 {
        seq![digit_char(n)]
    } else {
        decimal(n / 10).push(digit_char(n % 10))
    }
}

/// Whether `s` is a non-empty run of decimal digits.
pub open spec fn all_digits(s: Seq<char>) -> bool {
    &&& s.len() > 0
    &&& forall|i: int| 0 <= i < s.len() ==> is_digit(#[trigger] s[i])
}

/// The number that the digits `s` denote in base ten.
pub open spec fn digits_value(s: Seq<char>) -> nat
    decreases s.len(),
{
    if s.len() == 0 {
        0
    } else {
        digits_value(s.drop_last()) * 10 + digit_value(s.last())
    }
}

/// The number that `s` denotes as an unsigned decimal: digits, with at most
/// a `+` before them. `None` where `s` is anything else.
pub open spec fn parse_unsigned(s: Seq<char>) -> Option<nat> {
    let digits = if s.len() > 0 && s[0] == '+' {
        s.skip(1)
    } else {
        s
    };
    if all_digits(digits) {
        Some(digits_value(digits))
    } else {
        None
    }
}

/// The number that `s` denotes as a signed decimal: digits, with at most a
/// `+` or a `-` before them. `None` where `s` is anything else.
pub open spec fn parse_signed(s: Seq<char>) -> Option<int> {
    if s.len() > 0 && s[0] == '-' {
        if all_digits(s.skip(1)) {
            Some(-(digits_value(s.skip(1)) as int))
        } else {
            None
        }
    } else {
        match parse_unsigned(s) {
            Some(v) => Some(v as int),
            None => None,
        }
    }
}

/// What `s` denotes as a `u32`; `None` where it denotes no number or one
/// that is out of range.
pub open spec fn parse_u32(s: Seq<char>) -> Option<u32> {
    match parse_unsigned(s) {
        Some(v) if v <= u32::MAX => Some(v as u32),
        _ => None,
    }
}

/// What `s` denotes as a `u64`; `None` where it denotes no number or one
/// that is out of range.
pub open spec fn parse_u64(s: Seq<char>) -> Option<u64> {
    match parse_unsigned(s) {
        Some(v) if v <= u64::MAX => Some(v as u64),
        _ => None,
    }
}

/// What `s` denotes as an `i32`; `None` where it denotes no number or one
/// that is out of range.
pub open spec fn parse_i32(s: Seq<char>) -> Option<i32> {
    match parse_signed(s) {
        Some(v) if i32::MIN <= v <= i32::MAX => Some(v as i32),
        _ => None,
    }
}

/// A run of digits denotes at least what any of its beginnings denotes.
pub proof fn lemma_digits_value_grows(s: Seq<char>, k: int)
    requires
        0 <= k <= s.len(),
    ensures
        digits_value(s.take(k)) <= digits_value(s),
    decreases s.len(),
{
    if k == s.len() {
        assert(s.take(k) =~= s);
    } else {
        assert(s.drop_last().take(k) =~= s.take(k));
        lemma_digits_value_grows(s.drop_last(), k);
    }
}

/// The decimal notation of a number is a run of digits that denotes it.
pub proof fn lemma_decimal_digits(n: nat)
    ensures
        all_digits(decimal(n)),
        digits_value(decimal(n)) == n,
    decreases n,
{
    if n < 10 {
        let s = decimal(n);
        assert(s.drop_last() =~= Seq::<char>::empty());
        assert(digits_value(s) == digits_value(s.drop_last()) * 10 + digit_value(s.last()));
    } else {
        lemma_decimal_digits(n / 10);
        let s = decimal(n);
        assert(s.drop_last() =~= decimal(n / 10));
        assert(s.last() == digit_char(n % 10));
    }
}

/// Reading back what was written: the decimal notation of `n` parses to
/// `n`, as an unsigned and as a signed number.
pub proof fn lemma_decimal_round_trip(n: nat)
    ensures
        parse_unsigned(decimal(n)) == Some(n),
        parse_signed(decimal(n)) == Some(n as int),
{
    lemma_decimal_digits(n);
    assert(is_digit(decimal(n)[0]));
}

/// `i` in decimal notation, with a `-` before it where it is negative.
pub open spec fn signed_decimal(i: int) -> Seq<char> {
    if i < 0 {
        seq!['-'] + decimal((-i) as nat)
    } else {
        decimal(i as nat)
    }
}

/// Reading back what was written: the signed decimal notation of `i`
/// parses to `i`.
pub proof fn lemma_signed_decimal_round_trip(i: int)
    ensures
        parse_signed(signed_decimal(i)) == Some(i),
{
    if i < 0 {
        lemma_decimal_digits((-i) as nat);
        assert(signed_decimal(i).skip(1) =~= decimal((-i) as nat));
    } else {
        lemma_decimal_round_trip(i as nat);
    }
}

/// A number in decimal notation, signed or not, is a token.
pub proof fn lemma_decimal_is_token(i: int)
    ensures
        is_token(signed_decimal(i)),
        i >= 0 ==> is_token(decimal(i as nat)),
{
    let n = (if i < 0 { -i } else { i }) as nat;
    lemma_decimal_digits(n);
    let digits = decimal(n);
    assert forall|k: int| 0 <= k < digits.len() implies !is_space(#[trigger] digits[k]) by {
        assert(is_digit(digits[k]));
    }
    if i < 0 {
        let s = signed_decimal(i);
        assert forall|k: int| 0 <= k < s.len() implies !is_space(#[trigger] s[k]) by {
            if k > 0 {
                assert(s[k] == digits[k - 1]);
            }
        }
    }
}

/// The one-character string of the digit for `d`.
fn digit_str(d: u64) -> (s: &'static str)
    requires
        d < 10,
    ensures
        s@ == seq![digit_char(d as nat)],
{
    proof {
        reveal_strlit("0");
        reveal_strlit("1");
        reveal_strlit("2");
        reveal_strlit("3");
        reveal_strlit("4");
        reveal_strlit("5");
        reveal_strlit("6");
        reveal_strlit("7");
        reveal_strlit("8");
        reveal_strlit("9");
    }
    let s = if d == 0 {
        "0"
    } else if d == 1 {
        "1"
    } else if d == 2 {
        "2"
    } else if d == 3 {
        "3"
    } else if d == 4 {
        "4"
    } else if d == 5 {
        "5"
    } else if d == 6 {
        "6"
    } else if d == 7 {
        "7"
    } else if d == 8 {
        "8"
    } else {
        "9"
    };
    assert(s@ =~= seq![digit_char(d as nat)]);
    s
}

/// Appends the decimal notation of `n` to `out`.
pub fn push_decimal(out: &mut String, n: u64)
    ensures
        final(out)@ == old(out)@ + decimal(n as nat),
    decreases n,
{
    if n >= 10 {
        push_decimal(out, n / 10);
    }
    out.append(digit_str(n % 10));
    proof {
        if n >= 10 {
            assert(old(out)@ + decimal((n / 10) as nat) + seq![digit_char((n % 10) as nat)]
                =~= old(out)@ + decimal(n as nat));
        }
    }
}

/// Reads the digits of `chars` from `start` up to `end` as a number that is
/// at most `limit`.
fn read_digits(chars: &[char], start: usize, end: usize, limit: u64) -> (r: Option<u64>)
    requires
        start <= end <= chars@.len(),
    ensures
        r == if all_digits(chars@.subrange(start as int, end as int)) && digits_value(
            chars@.subrange(start as int, end as int),
        ) <= limit {
            Some(digits_value(chars@.subrange(start as int, end as int)) as u64)
        } else {
            None
        },
{
    let ghost s = chars@.subrange(start as int, end as int);
    if start == end {
        return None;
    }
    let mut acc: u64 = 0;
    let mut i: usize = start;
    assert(s.take(0) =~= Seq::<char>::empty());
    while i < end
        invariant
            start <= i <= end <= chars@.len(),
            s == chars@.subrange(start as int, end as int),
            forall|k: int| 0 <= k < i - start ==> is_digit(#[trigger] s[k]),
            acc == digits_value(s.take(i - start)),
            acc <= limit,
        decreases end - i,
    {
        let c: char = chars[i];
        if !('0' <= c && c <= '9') {
            assert(!is_digit(s[i - start]));
            return None;
        }
        let d: u64 = (c as u32 - '0' as u32) as u64;
        let next: u128 = acc as u128 * 10 + d as u128;
        proof {
            let upto = s.take(i - start + 1);
            assert(upto.drop_last() =~= s.take(i - start));
            assert(upto.last() == c);
            assert(digits_value(upto) == next);
            lemma_digits_value_grows(s, i - start + 1);
        }
        if next > limit as u128 {
            return None;
        }
        acc = next as u64;
        i += 1;
    }
    assert(s.take(end - start) =~= s);
    Some(acc)
}

/// Reads the part of `chars` that `span` names as a `u64`.
pub(crate) fn read_u64(chars: &[char], span: Span) -> (r: Option<u64>)
    requires
        span.within(chars@.len()),
    ensures
        r == parse_u64(span.text(chars@)),
{
    let ghost s = span.text(chars@);
    if span.start < span.end && chars[span.start] == '+' {
        assert(s.skip(1) =~= chars@.subrange(span.start + 1, span.end as int));
        read_digits(chars, span.start + 1, span.end, u64::MAX)
    } else {
        read_digits(chars, span.start, span.end, u64::MAX)
    }
}

/// Reads the part of `chars` that `span` names as a `u32`.
pub(crate) fn read_u32(chars: &[char], span: Span) -> (r: Option<u32>)
    requires
        span.within(chars@.len()),
    ensures
        r == parse_u32(span.text(chars@)),
{
    let ghost s = span.text(chars@);
    let digits = if span.start < span.end && chars[span.start] == '+' {
        assert(s.skip(1) =~= chars@.subrange(span.start + 1, span.end as int));
        read_digits(chars, span.start + 1, span.end, 0xFFFF_FFFF)
    } else {
        read_digits(chars, span.start, span.end, 0xFFFF_FFFF)
    };
    match digits {
        Some(v) => Some(v as u32),
        None => None,
    }
}

/// Reads the part of `chars` that `span` names as an `i32`.
pub(crate) fn read_i32(chars: &[char], span: Span) -> (r: Option<i32>)
    requires
        span.within(chars@.len()),
    ensures
        r == parse_i32(span.text(chars@)),
{
    let ghost s = span.text(chars@);
    if span.start < span.end && chars[span.start] == '-' {
        assert(s.skip(1) =~= chars@.subrange(span.start + 1, span.end as int));
        match read_digits(chars, span.start + 1, span.end, 0x8000_0000) {
            Some(v) => Some((-(v as i64)) as i32),
            None => None,
        }
    } else if span.start < span.end && chars[span.start] == '+' {
        assert(s.skip(1) =~= chars@.subrange(span.start + 1, span.end as int));
        match read_digits(chars, span.start + 1, span.end, 0x7FFF_FFFF) {
            Some(v) => Some(v as i32),
            None => None,
        }
    } else {
        match read_digits(chars, span.start, span.end, 0x7FFF_FFFF) {
            Some(v) => Some(v as i32),
            None => None,
        }
    }
}

} // verus!
