//! Unsigned numbers as decimal text.
//!
//! The model of a piece of text is the sequence of its characters. A number
//! is written with the digits `0` to `9` alone, most significant digit first.

use vstd::prelude::*;
use vstd::string::StringExecFns;
use crate::error::NumberError;
use crate::scan::{leading, lemma_leading_at_least, lemma_leading_is, lemma_leading_run};

verus! {

/// Whether `c` is one of the ten decimal digits.
pub open spec fn is_digit(c: char) -> bool {
    '0' <= c && c <= '9'
}

/// The number that the digit `c` stands for.
pub open spec fn digit_value(c: char) -> nat
    recommends
        is_digit(c),
{
    (c as int - '0' as int) as nat
}

/// The digit that stands for `d`.
pub open spec fn digit_char(d: nat) -> char
    recommends
        d < 10,
{
    ('0' as int + d) as char
}

/// Whether `s` is made of decimal digits alone.
pub open spec fn all_digits(s: Seq<char>) -> bool {
    forall|i: int| 0 <= i < s.len() ==> is_digit(#[trigger] s[i])
}

/// The number that the digits of `s` stand for, read most significant first.
pub open spec fn decimal_value(s: Seq<char>) -> nat
    recommends
        all_digits(s),
    decreases s.len(),
{
    if s.len() == 0 {
        0
    } else {
        10 * decimal_value(s.drop_last()) + digit_value(s.last())
    }
}

/// The digits as a class of characters.
pub open spec fn digits() -> spec_fn(char) -> bool {
    |c: char| is_digit(c)
}

/// How many digits stand at the front of `s` before its first other character.
pub open spec fn leading_digits(s: Seq<char>) -> nat {
    leading(s, digits())
}

/// What reading `s` as an unsigned 32-bit decimal number gives.
///
/// The text is read from the left. Empty text is `Empty`. Digits that run
/// past `u32::MAX` before any other character is met are `Overflow`. Any
/// other character is `InvalidDigit`: a sign, a space or a letter alike.
pub open spec fn number_of(s: Seq<char>) -> Result<u32, NumberError> {
    let digits = s.take(leading_digits(s) as int);
    if s.len() == 0 {
        Err(NumberError::Empty)
    } else if decimal_value(digits) > u32::MAX {
        Err(NumberError::Overflow)
    } else if digits.len() < s.len() {
        Err(NumberError::InvalidDigit)
    } else {
        Ok(decimal_value(s) as u32)
    }
}

/// The decimal text of `n`: its digits, most significant first, with no
/// leading zero but for `0` itself.
pub open spec fn decimal_text(n: nat) -> Seq<char>
    decreases n,
{
    if n < 10 {
        seq![digit_char(n)]
    } else {
        decimal_text(n / 10).push(digit_char(n % 10))
    }
}

/// Reading a longer front of the same text never gives a smaller number.
pub proof fn lemma_decimal_value_grows(s: Seq<char>, j: int, k: int)
    requires
        0 <= j <= k <= s.len(),
    ensures
        decimal_value(s.take(j)) <= decimal_value(s.take(k)),
    decreases k - j,
{
    if j < k {
        lemma_decimal_value_grows(s, j, k - 1);
        assert(s.take(k).drop_last() =~= s.take(k - 1));
    }
}

/// Reads the characters `text[start..end]` as an unsigned decimal number.
pub(crate) fn parse_number(text: &[char], start: usize, end: usize) -> (r: Result<u32, NumberError>)
    requires
        start <= end <= text@.len(),
    ensures
        r == number_of(text@.subrange(start as int, end as int)),
{
    let ghost s = text@.subrange(start as int, end as int);
    if start == end {
        return Err(NumberError::Empty);
    }
    let mut acc: u32 = 0;
    let mut i: usize = start;
    while i < end
        invariant
            start <= i <= end <= text@.len(),
            s == text@.subrange(start as int, end as int),
            forall|j: int| 0 <= j < i - start ==> is_digit(#[trigger] s[j]),
            acc == decimal_value(s.take(i - start)),
        decreases end - i,
    {
        let c = text[i];
        let ghost k = i - start;
        assert(s[k] == c);
        if !(c >= '0' && c <= '9') {
            proof {
                lemma_leading_is(s, digits(), k);
            }
            return Err(NumberError::InvalidDigit);
        }
        let digit: u64 = (c as u32 - '0' as u32) as u64;
        let next: u64 = acc as u64 * 10 + digit;
        proof {
            assert(s.take(k + 1).drop_last() =~= s.take(k));
            assert(next == decimal_value(s.take(k + 1)));
        }
        if next > u32::MAX as u64 {
            proof {
                lemma_leading_at_least(s, digits(), k + 1);
                lemma_leading_run(s, digits());
                let n = leading_digits(s) as int;
                lemma_decimal_value_grows(s.take(n), k + 1, n);
                assert(s.take(n).take(k + 1) =~= s.take(k + 1));
                assert(s.take(n).take(n) =~= s.take(n));
            }
            return Err(NumberError::Overflow);
        }
        acc = next as u32;
        i += 1;
    }
    proof {
        lemma_leading_is(s, digits(), s.len() as int);
        assert(s.take(s.len() as int) =~= s);
    }
    Ok(acc)
}

/// The decimal text of a number is never empty and holds digits alone.
pub proof fn lemma_decimal_text_digits(n: nat)
    ensures
        decimal_text(n).len() >= 1,
        all_digits(decimal_text(n)),
    decreases n,
{
    if n >= 10 {
        lemma_decimal_text_digits(n / 10);
    }
}

/// The decimal text of a number stands for that number.
pub proof fn lemma_decimal_value_of_text(n: nat)
    ensures
        decimal_value(decimal_text(n)) == n,
    decreases n,
{
    let s = decimal_text(n);
    assert(digit_value(digit_char(n % 10)) == n % 10);
    if n < 10 {
        assert(s.drop_last() =~= Seq::<char>::empty());
        assert(decimal_value(s.drop_last()) == 0);
        assert(s.last() == digit_char(n));
    } else {
        lemma_decimal_value_of_text(n / 10);
        assert(s.drop_last() =~= decimal_text(n / 10));
        assert(s.last() == digit_char(n % 10));
    }
}

/// Reading the decimal text of a 32-bit number gives the number back.
pub proof fn lemma_number_of_decimal_text(n: u32)
    ensures
        number_of(decimal_text(n as nat)) == Ok::<u32, NumberError>(n),
{
    let s = decimal_text(n as nat);
    lemma_decimal_text_digits(n as nat);
    lemma_decimal_value_of_text(n as nat);
    lemma_leading_is(s, digits(), s.len() as int);
    assert(s.take(s.len() as int) =~= s);
}

/// A text reads as a number exactly when it is not empty, holds digits
/// alone and stands for at most `u32::MAX`; the number is then its value.
pub proof fn lemma_number_of_is_ok(s: Seq<char>)
    ensures
        number_of(s) is Ok <==> s.len() > 0 && all_digits(s) && decimal_value(s) <= u32::MAX,
        number_of(s) is Ok ==> number_of(s) == Ok::<u32, NumberError>(decimal_value(s) as u32),
{
    lemma_leading_run(s, digits());
    let n = leading_digits(s) as int;
    if n == s.len() {
        assert(s.take(n) =~= s);
        assert forall|i: int| 0 <= i < s.len() implies is_digit(#[trigger] s[i]) by {
            assert(digits()(s[i]));
        }
    } else {
        assert(!digits()(s[n]));
    }
}

/// The one-character text of the digit `d`.
fn digit_text(d: u64) -> (t: &'static str)
    requires
        d < 10,
    ensures
        t@ == seq![digit_char(d as nat)],
{
    proof {
        reveal_strlit("0");
        reveal_strlit("1");
        reveal_strlit("2");
        reveal_strlit("3");
        reveal_strlit("4");
        reveal_strlit("5");
        reveal_strlit("6");
        reveal_strlit("7");
        reveal_strlit("8");
        reveal_strlit("9");
    }
    let t = match d {
        0 => "0",
        1 => "1",
        2 => "2",
        3 => "3",
        4 => "4",
        5 => "5",
        6 => "6",
        7 => "7",
        8 => "8",
        _ => "9",
    };
    assert(t@ =~= seq![digit_char(d as nat)]);
    t
}

/// Appends the decimal text of `n` to `out`.
pub(crate) fn push_decimal(out: &mut String, n: u64)
    ensures
        final(out)@ == old(out)@ + decimal_text(n as nat),
    decreases n,
{
    if n >= 10 {
        push_decimal(out, n / 10);
    }
    out.append(digit_text(n % 10));
    assert(final(out)@ =~= old(out)@ + decimal_text(n as nat));
}

} // verus!
