//! Trimming text and reading and writing numbers in decimal.

use crate::text::{byte_len, char_is_whitespace, is_whitespace};
use vstd::prelude::*;

verus! {

/// Whether `c` is one of the digits `0` to `9`.
pub open spec fn is_digit(c: char) -> bool {
    48 <= c as u32 <= 57
}

/// The number that the digit `c` stands for.
pub open spec fn digit_value(c: char) -> nat {
    (c as u32 - 48) as nat
}

/// The digit that stands for `d`, for `d` below ten.
pub open spec fn digit_char(d: nat) -> char {
    (d + 48) as char
}

/// `n` written in decimal, without leading zeros.
pub open spec fn decimal(n: nat) -> Seq<char>
    decreases n,
{
    if n < 10 {
        seq![digit_char(n)]
    } else {
        decimal(n / 10).push(digit_char(n % 10))
    }
}

/// The number that `digits` write in decimal.
pub open spec fn value_of(digits: Seq<char>) -> nat
    decreases digits.len(),
{
    if digits.len() == 0 {
        0
    } else {
        value_of(digits.drop_last()) * 10 + digit_value(digits.last())
    }
}

/// Whether `s` is one digit or more, and nothing else.
pub open spec fn is_digits(s: Seq<char>) -> bool {
    s.len() > 0 && forall|i: int| 0 <= i < s.len() ==> is_digit(#[trigger] s[i])
}

/// The digits of `s` where `s` writes a number without a sign or with a
/// plus sign before it.
pub open spec fn unsigned_digits(s: Seq<char>) -> Option<Seq<char>> {
    if s.len() > 0 && s[0] == '+' {
        if is_digits(s.skip(1)) {
            Some(s.skip(1))
        } else {
            None
        }
    } else if is_digits(s) {
        Some(s)
    } else {
        None
    }
}

/// The number that `s` writes, where it writes one that is no more than
/// `max`.
pub open spec fn unsigned_value(s: Seq<char>, max: nat) -> Option<nat> {
    match unsigned_digits(s) {
        Some(digits) => if value_of(digits) <= max {
            Some(value_of(digits))
        } else {
            None
        },
        None => None,
    }
}

/// Number of whitespace characters at the start of `s`.
pub open spec fn leading_whitespace(s: Seq<char>) -> nat
    decreases s.len(),
{
    if s.len() > 0 && is_whitespace(s[0]) {
        1 + leading_whitespace(s.drop_first())
    } else {
        0
    }
}

/// Number of whitespace characters at the end of `s`.
pub open spec fn trailing_whitespace(s: Seq<char>) -> nat
    decreases s.len(),
{
    if s.len() > 0 && is_whitespace(s.last()) {
        1 + trailing_whitespace(s.drop_last())
    } else {
        0
    }
}

/// `s` without the whitespace at its start and at its end.
pub open spec fn trimmed(s: Seq<char>) -> Seq<char> {
    if leading_whitespace(s) >= s.len() {
        Seq::empty()
    } else {
        s.subrange(leading_whitespace(s) as int, s.len() - trailing_whitespace(s))
    }
}

/// The whitespace at the start of `s` ends before the first character that
/// is none.
proof fn lemma_leading_whitespace(s: Seq<char>, first: int)
    requires
        0 <= first <= s.len(),
        forall|i: int| 0 <= i < first ==> is_whitespace(#[trigger] s[i]),
        first < s.len() ==> !is_whitespace(s[first]),
    ensures
        leading_whitespace(s) == first,
    decreases s.len(),
{
    if first > 0 {
        let rest = s.drop_first();
        assert(forall|i: int| 0 <= i < first - 1 ==> is_whitespace(#[trigger] rest[i]));
        lemma_leading_whitespace(rest, first - 1);
    }
}

/// The whitespace at the end of `s` starts after the last character that is
/// none.
proof fn lemma_trailing_whitespace(s: Seq<char>, end: int)
    requires
        0 <= end <= s.len(),
        forall|i: int| end <= i < s.len() ==> is_whitespace(#[trigger] s[i]),
        end > 0 ==> !is_whitespace(s[end - 1]),
    ensures
        trailing_whitespace(s) == s.len() - end,
    decreases s.len(),
{
    if end < s.len() {
        let rest = s.drop_last();
        lemma_trailing_whitespace(rest, end);
    }
}

/// The decimal writing of a number is made of digits, and writes that
/// number.
pub proof fn lemma_decimal_round_trip(n: nat)
    ensures
        is_digits(decimal(n)),
        value_of(decimal(n)) == n,
        unsigned_value(decimal(n), n) == Some(n),
    decreases n,
{
    if n < 10 {
        assert(value_of(decimal(n).drop_last()) == 0);
    } else {
        lemma_decimal_round_trip(n / 10);
        assert(decimal(n).drop_last() =~= decimal(n / 10));
    }
}

/// More digits write no smaller a number.
proof fn lemma_value_grows(digits: Seq<char>, n: int)
    requires
        0 <= n <= digits.len(),
    ensures
        value_of(digits.take(n)) <= value_of(digits),
    decreases digits.len() - n,
{
    if n < digits.len() {
        lemma_value_grows(digits, n + 1);
        assert(digits.take(n + 1).drop_last() =~= digits.take(n));
    } else {
        assert(digits.take(n) =~= digits);
    }
}

/// `text` without the whitespace at its start and at its end.
pub fn trim(text: &str) -> (inner: &str)
    ensures
        inner@ == trimmed(text@),
{
    let limit = byte_len(text);
    let mut first: usize = 0;
    let mut end: usize = 0;
    let mut seen: usize = 0;
    let mut found = false;
    for c in it: text.chars()
        invariant
            it.seq() == text@,
            seen == it.index(),
            text@.len() <= limit,
            found ==> first < end <= seen && !is_whitespace(text@[first as int]) && !is_whitespace(
                text@[end - 1],
            ),
            !found ==> first == 0 && end == 0,
            forall|i: int|
                0 <= i < (if found {
                    first as int
                } else {
                    seen as int
                }) ==> is_whitespace(#[trigger] text@[i]),
            forall|i: int|
                (if found {
                    end as int
                } else {
                    seen as int
                }) <= i < seen ==> is_whitespace(#[trigger] text@[i]),
    {
        if !char_is_whitespace(c) {
            if !found {
                first = seen;
                found = true;
            }
            end = seen + 1;
        }
        seen = seen + 1;
    }
    proof {
        if found {
            lemma_leading_whitespace(text@, first as int);
            lemma_trailing_whitespace(text@, end as int);
        } else {
            lemma_leading_whitespace(text@, text@.len() as int);
        }
    }
    text.substring_char(first, end)
}

/// The digit that stands for `d`, as text.
fn digit_text(d: u64) -> (text: &'static str)
    requires
        d < 10,
    ensures
        text@ == seq![digit_char(d as nat)],
{
    proof {
        reveal_strlit("0");
        reveal_strlit("1");
        reveal_strlit("2");
        reveal_strlit("3");
        reveal_strlit("4");
        reveal_strlit("5");
        reveal_strlit("6");
        reveal_strlit("7");
        reveal_strlit("8");
        reveal_strlit("9");
    }
    let text = if d == 0 {
        "0"
    } else if d == 1 {
        "1"
    } else if d == 2 {
        "2"
    } else if d == 3 {
        "3"
    } else if d == 4 {
        "4"
    } else if d == 5 {
        "5"
    } else if d == 6 {
        "6"
    } else if d == 7 {
        "7"
    } else if d == 8 {
        "8"
    } else {
        "9"
    };
    text
}

/// Writes `n` in decimal behind what `out` holds.
pub fn append_decimal(out: &mut String, n: u64)
    ensures
        final(out)@ == old(out)@ + decimal(n as nat),
    decreases n,
{
    if n >= 10 {
        append_decimal(out, n / 10);
    }
    out.append(digit_text(n % 10));
}

/// `n` written in decimal.
pub fn decimal_string(n: u64) -> (written: String)
    ensures
        written@ == decimal(n as nat),
{
    let mut written = String::new();
    append_decimal(&mut written, n);
    written
}

/// The number that `text` writes in decimal, with or without a plus sign
/// before it, where it writes one and that is no more than `max`.
pub fn parse_unsigned(text: &str, max: u64) -> (value: Option<u64>)
    ensures
        value is Some <==> unsigned_value(text@, max as nat) is Some,
        value matches Some(n) ==> unsigned_value(text@, max as nat) == Some(n as nat),
{
    let mut value: u64 = 0;
    let mut beyond = false;
    let mut signed = false;
    let mut first = true;
    let mut any = false;
    for c in it: text.chars()
        invariant
            it.seq() == text@,
            first == (it.index() == 0),
            signed == (it.index() > 0 && text@[0] == '+'),
            any == (it.index() > (if signed { 1int } else { 0int })),
            forall|i: int|
                (if signed { 1int } else { 0int }) <= i < it.index() ==> is_digit(
                    #[trigger] text@[i],
                ),
            !beyond ==> value == value_of(
                text@.subrange(if signed { 1int } else { 0int }, it.index() as int),
            ) && value <= max,
            beyond ==> value_of(
                text@.subrange(if signed { 1int } else { 0int }, it.index() as int),
            ) > max,
    {
        let ghost start = if signed { 1int } else { 0int };
        let ghost at = it.index() as int;
        if first && c == '+' {
            signed = true;
            first = false;
        } else {
            let code: u32 = c as u32;
            if code < 48 || code > 57 {
                proof {
                    if signed {
                        assert(text@.skip(1)[at - 1] == text@[at]);
                    }
                }
                return None;
            }
            proof {
                assert(text@.subrange(start, at + 1).drop_last() =~= text@.subrange(start, at));
            }
            if !beyond {
                let next: u128 = value as u128 * 10 + (code - 48) as u128;
                if next > max as u128 {
                    beyond = true;
                } else {
                    value = next as u64;
                }
            }
            first = false;
            any = true;
        }
    }
    proof {
        let start = if signed { 1int } else { 0int };
        assert(text@.skip(0) =~= text@);
        if any {
            assert(forall|i: int|
                0 <= i < text@.skip(start).len() ==> is_digit(#[trigger] text@.skip(start)[i]));
        }
    }
    if any && !beyond {
        Some(value)
    } else {
        None
    }
}

} // verus!
