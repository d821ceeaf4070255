//! Scalar and compound types: numbers read from text, conversions between
//! integer types, and arrays.

use crate::numeral::{decimal_value, parse_exact, parse_trimmed, read_numeral, ParseError};
use crate::text::trimmed;
use vstd::prelude::*;

verus! {

/// Reads the text `42` as a 32-bit number.
pub fn guess_function() -> (guess: u32)
    ensures
        guess == 42,
{
    proof {
        reveal_strlit("42");
        assert("42"@ =~= seq!['4', '2']);
        reveal_with_fuel(decimal_value, 3);
    }
    let guess: u64 = parse_exact("42", u32::MAX as u64).expect("Not a number!");
    guess as u32
}

/// The sum of an 8-bit and a 32-bit number, taken in 32 bits.
pub fn widened_sum(a: u8, b: u32) -> (c: u32)
    requires
        a + b <= u32::MAX,
    ensures
        c == a + b,
{
    a as u32 + b
}

/// A truth value as a number: 1 for true, 0 for false.
pub fn truth_as_number(t: bool) -> (n: u8)
    ensures
        n == if t { 1int } else { 0int },
{
    t as u8
}

/// Adds 13 in 8 bits to 7 in 32 bits, and turns `true` into a number.
pub fn number_function() -> (r: (u32, u8))
    ensures
        r == (20u32, 1u8),
{
    let a: u8 = 13u8;
    let b: u32 = 7u32;
    let c: u32 = widened_sum(a, b);
    let t = true;
    (c, truth_as_number(t))
}

/// The first element of the array 1 to 5, and of an array of five 3s.
pub fn array_function() -> (firsts: (i32, i32))
    ensures
        firsts == (1i32, 3i32),
{
    let a: [i32; 5] = [1, 2, 3, 4, 5];
    let b: [i32; 5] = [3;5];
    (a[0], b[0])
}

/// What a line holds as an index: the numeral left after trimming, where it
/// fits in a `usize`.
pub open spec fn index_of(raw: Seq<char>) -> Result<usize, ParseError> {
    match read_numeral(trimmed(raw), usize::MAX as u64) {
        Ok(value) => Ok(value as usize),
        Err(e) => Err(e),
    }
}

/// Reads an index from one line of input.
pub fn parse_index(raw: &str) -> (r: Result<usize, ParseError>)
    ensures
        r == index_of(raw@),
{
    match parse_trimmed(raw, usize::MAX as u64) {
        Ok(value) => Ok(value as usize),
        Err(e) => Err(e),
    }
}

/// The element at `index` of the array 1 to 5. The index must lie within the
/// array.
pub fn element_at(index: usize) -> (element: i32)
    requires
        index < 5,
    ensures
        element == index + 1,
{
    let a: [i32; 5] = [1, 2, 3, 4, 5];
    a[index]
}

} // verus!
