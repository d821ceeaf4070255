//! Base-10 numerals: what they are, what they are worth, and how to read one.

use crate::text::{chars_of, trim, trimmed};
use vstd::prelude::*;

verus! {

/// Why a text was not read as a number.
#[derive(Clone, Copy, Debug, PartialEq, Eq, Structural)]
pub enum ParseError {
    /// The text is not an optional `+` followed by one or more digits.
    Malformed,
    /// The text is a numeral, but its value is above the largest allowed.
    OutOfRange,
}

/// Whether `c` is one of the ten digits `0` to `9`.
pub open spec fn is_digit(c: char) -> bool {
    0x30 <= c as u32 <= 0x39
}

/// The value of the digit `c`.
pub open spec fn digit_value(c: char) -> nat
    recommends
        is_digit(c),
{
    (c as u32 - 0x30) as nat
}

/// Whether every character of `s` is a digit.
pub open spec fn all_digits(s: Seq<char>) -> bool {
    forall|i: int| 0 <= i < s.len() ==> is_digit(#[trigger] s[i])
}

/// The number that the digits `s` write in base 10, most significant first.
pub open spec fn decimal_value(s: Seq<char>) -> nat
    recommends
        all_digits(s),
    decreases s.len(),
{
    if s.len() == 0 {
        0
    } else {
        10 * decimal_value(s.drop_last()) + digit_value(s.last())
    }
}

/// `s` without the one `+` that may lead it.
pub open spec fn unsigned_part(s: Seq<char>) -> Seq<char> {
    if s.len() > 0 && s[0] == '+' {
        s.drop_first()
    } else {
        s
    }
}

/// Whether `s` is a numeral: an optional `+`, then at least one digit and
/// nothing else.
pub open spec fn is_numeral(s: Seq<char>) -> bool {
    unsigned_part(s).len() > 0 && all_digits(unsigned_part(s))
}

/// The number that the numeral `s` writes.
pub open spec fn numeral_value(s: Seq<char>) -> nat
    recommends
        is_numeral(s),
{
    decimal_value(unsigned_part(s))
}

/// What reading `s` as a number no larger than `max` gives.
pub open spec fn read_numeral(s: Seq<char>, max: u64) -> Result<u64, ParseError> {
    if !is_numeral(s) {
        Err(ParseError::Malformed)
    } else if numeral_value(s) > max {
        Err(ParseError::OutOfRange)
    } else {
        Ok(numeral_value(s) as u64)
    }
}

/// The digit that is worth `d`.
pub open spec fn digit_for(d: nat) -> char
    recommends
        d < 10,
{
    ((0x30 + d) as u8) as char
}

/// `n` written in base 10, without sign or leading zeros.
pub open spec fn decimal_text(n: nat) -> Seq<char>
    decreases n,
{
    if n < 10 {
        seq![digit_for(n)]
    } else {
        decimal_text(n / 10).push(digit_for(n % 10))
    }
}

/// Every number, written in base 10, is a numeral that is worth that number.
pub proof fn lemma_decimal_text_is_numeral(n: nat)
    ensures
        decimal_text(n).len() > 0,
        all_digits(decimal_text(n)),
        is_numeral(decimal_text(n)),
        numeral_value(decimal_text(n)) == n,
    decreases n,
{
    let text = decimal_text(n);
    if n < 10 {
        assert(is_digit(digit_for(n)));
        assert(digit_value(digit_for(n)) == n);
        assert(text.drop_last() =~= Seq::<char>::empty());
        assert(decimal_value(text) == n) by {
            reveal_with_fuel(decimal_value, 2);
        }
    } else {
        let front = decimal_text(n / 10);
        lemma_decimal_text_is_numeral(n / 10);
        assert(is_digit(digit_for(n % 10)));
        assert(digit_value(digit_for(n % 10)) == n % 10);
        assert(text.drop_last() =~= front);
        assert(text.last() == digit_for(n % 10));
        assert forall|i: int| 0 <= i < text.len() implies is_digit(#[trigger] text[i]) by {
            if i < front.len() {
                assert(text[i] == front[i]);
            }
        }
        assert(unsigned_part(front) == front);
        assert(text[0] == front[0]);
    }
    assert(is_digit(text[0]));
    assert(unsigned_part(text) == text);
}

/// Reads `text` as a numeral no larger than `max`.
pub fn parse_numeral(text: &[char], max: u64) -> (r: Result<u64, ParseError>)
    ensures
        r == read_numeral(text@, max),
{
    let end: usize = text.len();
    let first: usize = if 0 < end && text[0] == '+' {
        1
    } else {
        0
    };
    let ghost digits = text@.subrange(first as int, end as int);
    assert(digits =~= unsigned_part(text@));
    if first == end {
        return Err(ParseError::Malformed);
    }
    let mut value: u64 = 0;
    let mut above = false;
    let mut i: usize = first;
    while i < end
        invariant
            first <= i <= end == text.len(),
            digits == text@.subrange(first as int, end as int),
            digits == unsigned_part(text@),
            all_digits(digits.take(i - first)),
            !above ==> value == decimal_value(digits.take(i - first)) && value <= max,
            above ==> decimal_value(digits.take(i - first)) > max,
        decreases end - i,
    {
        let c = text[i];
        let ghost before = digits.take(i - first);
        let ghost after = digits.take(i + 1 - first);
        assert(after.drop_last() =~= before);
        assert(after.last() == c);
        let p: u32 = c as u32;
        if p < 0x30 || p > 0x39 {
            assert(!is_digit(digits[i - first]));
            return Err(ParseError::Malformed);
        }
        assert(all_digits(after)) by {
            assert forall|k: int| 0 <= k < after.len() implies is_digit(#[trigger] after[k]) by {
                if k < before.len() {
                    assert(after[k] == before[k]);
                }
            }
        }
        if !above {
            let next: u128 = value as u128 * 10 + (p - 0x30) as u128;
            if next > max as u128 {
                above = true;
            } else {
                value = next as u64;
            }
        }
        i += 1;
    }
    assert(digits.take(end - first) =~= digits);
    if above {
        Err(ParseError::OutOfRange)
    } else {
        Ok(value)
    }
}

/// Reads the whole of `raw` as a numeral no larger than `max`.
pub fn parse_exact(raw: &str, max: u64) -> (r: Result<u64, ParseError>)
    ensures
        r == read_numeral(raw@, max),
{
    let text = chars_of(raw);
    parse_numeral(text.as_slice(), max)
}

/// Reads `raw`, without the whitespace around it, as a numeral no larger
/// than `max`.
pub fn parse_trimmed(raw: &str, max: u64) -> (r: Result<u64, ParseError>)
    ensures
        r == read_numeral(trimmed(raw@), max),
{
    let text = chars_of(raw);
    parse_numeral(trim(text.as_slice()), max)
}

} // verus!
