//! Decimal text of unsigned integers: writing it and reading it back.

use vstd::prelude::*;
use vstd::string::StringExecFns;

verus! {

/// The digit that writes `d`.
pub open spec fn digit_char(d: nat) -> char
    recommends
        d < 10,
{
    (48 + d) as char
}

/// The decimal text of `n`, most significant digit first, without leading
/// zeros; zero is written as a single `0`.
pub open spec fn decimal_text(n: nat) -> Seq<char>
    decreases n,
{
    if n < 10 {
        seq![digit_char(n)]
    } else {
        decimal_text(n / 10).push(digit_char(n % 10))
    }
}

/// The text of the digit that writes `d`.
pub fn digit_text(d: u64) -> (r: &'static str)
    requires
        d < 10,
    ensures
        r@ == seq![digit_char(d as nat)],
{
    proof {
        reveal_strlit("0");
        reveal_strlit("1");
        reveal_strlit("2");
        reveal_strlit("3");
        reveal_strlit("4");
        reveal_strlit("5");
        reveal_strlit("6");
        reveal_strlit("7");
        reveal_strlit("8");
        reveal_strlit("9");
    }
    let r = match d {
        0 => "0",
        1 => "1",
        2 => "2",
        3 => "3",
        4 => "4",
        5 => "5",
        6 => "6",
        7 => "7",
        8 => "8",
        _ => "9",
    };
    assert(r@ =~= seq![digit_char(d as nat)]);
    r
}

/// Appends the decimal text of `n` to `out`.
pub fn push_decimal(out: &mut String, n: u64)
    ensures
        final(out)@ == old(out)@ + decimal_text(n as nat),
    decreases n,
{
    if n >= 10 {
        push_decimal(out, n / 10);
    }
    out.append(digit_text(n % 10));
    assert(out@ =~= old(out)@ + decimal_text(n as nat));
}

/// `c` is one of the ten ASCII digits.
pub open spec fn is_digit(c: char) -> bool {
    '0' <= c && c <= '9'
}

/// The number that the digit `c` stands for.
pub open spec fn digit_value(c: char) -> nat
    recommends
        is_digit(c),
{
    (c as nat - 48) as nat
}

/// Every character of `text` is a digit.
pub open spec fn all_digits(text: Seq<char>) -> bool {
    forall|i: int| 0 <= i < text.len() ==> is_digit(#[trigger] text[i])
}

/// The number that the digits of `digits` write in base ten; zero for no
/// digits.
pub open spec fn digits_value(digits: Seq<char>) -> nat
    decreases digits.len(),
{
    if digits.len() == 0 {
        0
    } else {
        digits_value(digits.drop_last()) * 10 + digit_value(digits.last())
    }
}

/// `text` without a plus sign in front.
pub open spec fn unsigned_digits(text: Seq<char>) -> Seq<char> {
    if text.len() > 0 && text[0] == '+' {
        text.skip(1)
    } else {
        text
    }
}

/// The number that `text` writes, if it is at most `max`: an optional plus
/// sign, then one digit or more, and nothing else. Leading zeros count for
/// nothing.
pub open spec fn parse_unsigned(text: Seq<char>, max: nat) -> Option<nat> {
    let digits = unsigned_digits(text);
    if digits.len() > 0 && all_digits(digits) && digits_value(digits) <= max {
        Some(digits_value(digits))
    } else {
        None
    }
}

/// The value of the first `k` digits is at most the value of them all.
pub proof fn lemma_digits_value_prefix(digits: Seq<char>, k: int)
    requires
        0 <= k <= digits.len(),
    ensures
        digits_value(digits.take(k)) <= digits_value(digits),
    decreases digits.len() - k,
{
    if k == digits.len() {
        assert(digits.take(k) =~= digits);
    } else {
        lemma_digits_value_prefix(digits, k + 1);
        assert(digits.take(k + 1).drop_last() =~= digits.take(k));
    }
}

/// Reads the number that `text` writes, if it is at most `max`.
pub fn parse_bounded(text: &Vec<char>, max: u64) -> (r: Option<u64>)
    ensures
        match parse_unsigned(text@, max as nat) {
            Some(v) => r == Some(v as u64),
            None => r is None,
        },
{
    let n = text.len();
    let start: usize = if n > 0 && text[0] == '+' {
        1
    } else {
        0
    };
    let ghost digits = unsigned_digits(text@);
    assert(digits =~= text@.skip(start as int));
    if start == n {
        return None;
    }
    let mut value: u64 = 0;
    let mut i: usize = start;
    while i < n
        invariant
            start <= i <= n,
            n == text@.len(),
            digits == text@.skip(start as int),
            digits == unsigned_digits(text@),
            all_digits(digits.take(i - start)),
            value == digits_value(digits.take(i - start)),
            value <= max,
        decreases n - i,
    {
        let c = text[i];
        assert(digits[i - start] == c);
        if !(c >= '0' && c <= '9') {
            assert(!is_digit(digits[i - start]));
            return None;
        }
        let d: u64 = (c as u32 - 48) as u64;
        proof {
            let taken = digits.take(i - start + 1);
            assert(taken.drop_last() =~= digits.take(i - start));
            assert(taken.last() == c);
            assert(digits_value(taken) == value * 10 + d);
            assert forall|j: int| 0 <= j < taken.len() implies is_digit(#[trigger] taken[j]) by {
                if j < i - start {
                    assert(digits.take(i - start)[j] == taken[j]);
                }
            }
        }
        if max < d || value > (max - d) / 10 {
            proof {
                if all_digits(digits) {
                    lemma_digits_value_prefix(digits, i - start + 1);
                }
            }
            return None;
        }
        value = value * 10 + d;
        i = i + 1;
    }
    assert(digits.take(n - start) =~= digits);
    Some(value)
}

/// Reads a `usize` as the standard library reads one from text.
pub fn parse_usize(text: &Vec<char>) -> (r: Option<usize>)
    ensures
        match parse_unsigned(text@, usize::MAX as nat) {
            Some(v) => r == Some(v as usize),
            None => r is None,
        },
{
    match parse_bounded(text, usize::MAX as u64) {
        Some(v) => Some(v as usize),
        None => None,
    }
}

/// Reads a `u32` as the standard library reads one from text.
pub fn parse_u32(text: &Vec<char>) -> (r: Option<u32>)
    ensures
        match parse_unsigned(text@, u32::MAX as nat) {
            Some(v) => r == Some(v as u32),
            None => r is None,
        },
{
    match parse_bounded(text, u32::MAX as u64) {
        Some(v) => Some(v as u32),
        None => None,
    }
}

/// The decimal text of a number is made of digits, and they write the
/// number.
pub proof fn lemma_decimal_text_digits(n: nat)
    ensures
        decimal_text(n).len() > 0,
        all_digits(decimal_text(n)),
        digits_value(decimal_text(n)) == n,
    decreases n,
{
    let text = decimal_text(n);
    if n < 10 {
        assert(text.drop_last() =~= Seq::<char>::empty());
        assert(digits_value(text.drop_last()) == 0);
    } else {
        lemma_decimal_text_digits(n / 10);
        assert(text.drop_last() =~= decimal_text(n / 10));
        assert(text.last() == digit_char(n % 10));
        assert forall|i: int| 0 <= i < text.len() implies is_digit(#[trigger] text[i]) by {
            if i < text.len() - 1 {
                assert(text[i] == decimal_text(n / 10)[i]);
            }
        }
    }
}

/// What is written reads back: the decimal text of a number that is at most
/// `max` is read as that number.
pub proof fn lemma_decimal_round_trip(n: nat, max: nat)
    requires
        n <= max,
    ensures
        parse_unsigned(decimal_text(n), max) == Some(n),
{
    lemma_decimal_text_digits(n);
    assert(is_digit(decimal_text(n)[0]));
}

} // verus!
