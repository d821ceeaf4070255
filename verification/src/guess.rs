//! One guess: reading it from a line of text and judging it against a target.

use crate::numeral::{
    decimal_text, is_digit, lemma_decimal_text_is_numeral, parse_trimmed, read_numeral, ParseError,
};
use crate::text::{
    all_whitespace, is_trim, lemma_trimmed_ignores_padding, lemma_trimmed_takes_off_padding,
    trimmed,
};
use vstd::prelude::*;

verus! {

/// How a guess stands to the target.
#[derive(Clone, Copy, Debug, PartialEq, Eq, Structural)]
pub enum Outcome {
    /// The guess is below the target.
    Less,
    /// The guess is above the target.
    Greater,
    /// The guess is the target.
    Equal,
}

/// The outcome of comparing `guess` with `target`.
pub open spec fn outcome_of(guess: int, target: int) -> Outcome {
    if guess < target {
        Outcome::Less
    } else if guess > target {
        Outcome::Greater
    } else {
        Outcome::Equal
    }
}

/// The guess that the line `raw` holds: what is left of it after trimming,
/// read as a numeral that fits in 32 bits.
pub open spec fn guess_of(raw: Seq<char>) -> Result<u32, ParseError> {
    match read_numeral(trimmed(raw), u32::MAX as u64) {
        Ok(value) => Ok(value as u32),
        Err(e) => Err(e),
    }
}

/// Compares a guess with the target.
pub fn evaluate(guess: u32, target: u32) -> (outcome: Outcome)
    ensures
        outcome == outcome_of(guess as int, target as int),
{
    if guess < target {
        Outcome::Less
    } else if guess > target {
        Outcome::Greater
    } else {
        Outcome::Equal
    }
}

/// Reads a guess from one line of input. Whitespace around the numeral,
/// the line's terminator included, is passed over.
pub fn parse(raw: &str) -> (r: Result<u32, ParseError>)
    ensures
        r == guess_of(raw@),
{
    match parse_trimmed(raw, u32::MAX as u64) {
        Ok(value) => Ok(value as u32),
        Err(e) => Err(e),
    }
}

/// The three outcomes exclude one another and leave no case out: each holds
/// exactly where the guess is below, above or at the target.
pub proof fn lemma_outcome_follows_order(guess: int, target: int)
    ensures
        outcome_of(guess, target) == Outcome::Less <==> guess < target,
        outcome_of(guess, target) == Outcome::Greater <==> guess > target,
        outcome_of(guess, target) == Outcome::Equal <==> guess == target,
{
}

/// Whitespace around a line, such as the terminator that ends it, does not
/// change what guess the line holds.
pub proof fn lemma_guess_ignores_padding(before: Seq<char>, raw: Seq<char>, after: Seq<char>)
    requires
        all_whitespace(before),
        all_whitespace(after),
    ensures
        guess_of(before + raw + after) == guess_of(raw),
{
    lemma_trimmed_ignores_padding(before, raw, after);
}

/// Every number of 32 bits, written in base 10, is read as that number.
pub proof fn lemma_written_number_is_read(n: u32)
    ensures
        guess_of(decimal_text(n as nat)) == Ok::<u32, ParseError>(n),
{
    let text = decimal_text(n as nat);
    lemma_decimal_text_is_numeral(n as nat);
    assert(is_trim(text)) by {
        assert(is_digit(text[0]));
        assert(is_digit(text.last()));
    }
    let none = Seq::<char>::empty();
    lemma_trimmed_takes_off_padding(none, text, none);
    assert(none + text + none =~= text);
}

} // verus!
