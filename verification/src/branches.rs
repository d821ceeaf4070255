//! Branches and loops: `if`, `loop`, `while`, `for` and `match`.

use vstd::prelude::*;

verus! {

/// The first of 4, 3 and 2 that divides a number, if any does.
#[derive(Clone, Copy, Debug, PartialEq, Eq, Structural)]
pub enum Divisor {
    Four,
    Three,
    Two,
    Neither,
}

/// The first of 4, 3 and 2, tried in that order, that divides `number`.
pub open spec fn first_divisor_of(number: int) -> Divisor {
    if number % 4 == 0 {
        Divisor::Four
    } else if number % 3 == 0 {
        Divisor::Three
    } else if number % 2 == 0 {
        Divisor::Two
    } else {
        Divisor::Neither
    }
}

/// Finds the first of 4, 3 and 2 that divides `number`.
pub fn first_divisor(number: i32) -> (d: Divisor)
    ensures
        d == first_divisor_of(number as int),
{
    if number % 4 == 0 {
        Divisor::Four
    } else if number % 3 == 0 {
        Divisor::Three
    } else if number % 2 == 0 {
        Divisor::Two
    } else {
        Divisor::Neither
    }
}

/// An `if` used as an expression: 5 where the condition holds, else 1.
pub fn pick(condition: bool) -> (number: i32)
    ensures
        number == if condition { 5int } else { 1int },
{
    if condition {
        5
    } else {
        1
    }
}

/// What the chain of `if`s finds for the number 3, and what the `if`
/// expression gives for a condition that holds.
pub fn if_expression_function() -> (found: (Divisor, i32))
    ensures
        found == (Divisor::Three, 5i32),
{
    let number: i32 = 3;
    let divisor = first_divisor(number);
    let condition = true;
    let number: i32 = pick(condition);
    (divisor, number)
}

/// The numbers from `from` down to 1.
pub open spec fn countdown_from(from: int) -> Seq<i32> {
    Seq::new(from as nat, |i: int| (from - i) as i32)
}

/// Counts down from `from` to 1 with a `while` loop.
pub fn countdown(from: i32) -> (numbers: Vec<i32>)
    requires
        from >= 0,
    ensures
        numbers@ == countdown_from(from as int),
{
    let mut numbers: Vec<i32> = Vec::new();
    let mut number: i32 = from;
    while number != 0
        invariant
            0 <= number <= from,
            numbers@ == Seq::new((from - number) as nat, |i: int| (from - i) as i32),
        decreases number,
    {
        numbers.push(number);
        number -= 1;
    }
    numbers
}

/// The countdown before liftoff: 3, 2, 1.
pub fn while_expression_function() -> (numbers: Vec<i32>)
    ensures
        numbers@ == seq![3i32, 2i32, 1i32],
{
    countdown(3)
}

/// What the four `for` loops run through.
pub struct Rounds {
    /// The elements of an array, in order.
    pub elements: Vec<i32>,
    /// A range without its end.
    pub half_open: Vec<i32>,
    /// A range with its end.
    pub closed: Vec<i32>,
    /// A range taken backwards.
    pub reversed: Vec<i32>,
}

/// Runs a `for` loop over an array, over the range from 0 up to but without
/// 5, over the range from 0 up to and with 5, and backwards over the range
/// from 1 up to but without 4.
pub fn for_expression_function() -> (rounds: Rounds)
    ensures
        rounds.elements@ == seq![10i32, 20i32, 30i32, 40i32, 50i32],
        rounds.half_open@ == seq![0i32, 1i32, 2i32, 3i32, 4i32],
        rounds.closed@ == seq![0i32, 1i32, 2i32, 3i32, 4i32, 5i32],
        rounds.reversed@ == seq![3i32, 2i32, 1i32],
{
    let a: [i32; 5] = [10, 20, 30, 40, 50];
    let mut elements: Vec<i32> = Vec::new();
    for element in it: a.iter()
        invariant
            elements@ == a@.take(it.index() as int),
    {
        elements.push(*element);
    }
    let mut half_open: Vec<i32> = Vec::new();
    for x in it: 0..5i32
        invariant
            half_open@ == Seq::new(it.index() as nat, |i: int| i as i32),
    {
        half_open.push(x);
    }
    let mut closed: Vec<i32> = Vec::new();
    let last: i32 = 5;
    for x in it: 0..last + 1
        invariant
            closed@ == Seq::new(it.index() as nat, |i: int| i as i32),
    {
        closed.push(x);
    }
    let mut forward: Vec<i32> = Vec::new();
    for x in it: 1..4i32
        invariant
            forward@ == Seq::new(it.index() as nat, |i: int| (1 + i) as i32),
    {
        forward.push(x);
    }
    let mut reversed: Vec<i32> = Vec::new();
    for number in it: forward.iter().rev()
        invariant
            reversed.len() == it.index(),
            forall|i: int| 0 <= i < reversed.len() ==> reversed@[i] == *it.seq()[i],
    {
        reversed.push(*number);
    }
    assert(reversed@ =~= forward@.reverse());
    Rounds { elements, half_open, closed, reversed }
}

/// One line of what the nested loops report while they run.
#[derive(Clone, Copy, Debug, PartialEq, Eq, Structural)]
pub enum Tick {
    /// The outer loop starts a round with this count.
    Count(i32),
    /// The inner loop has this much remaining.
    Remaining(i32),
}

/// What `rounds` full rounds report: for each count from 0 on, the count,
/// then 10 and 9 remaining.
pub open spec fn full_rounds(rounds: int) -> Seq<Tick>
    decreases rounds,
{
    if rounds <= 0 {
        Seq::empty()
    } else {
        full_rounds(rounds - 1) + seq![
            Tick::Count((rounds - 1) as i32),
            Tick::Remaining(10),
            Tick::Remaining(9),
        ]
    }
}

/// Counts up in an outer loop while an inner loop counts down from 10. The
/// inner loop ends a round when 9 remain; in the round with count 2 it leaves
/// both loops at once, before it has counted down. Gives what the loops
/// report on the way, and the count they end with.
pub fn loop_expression_function() -> (r: (Vec<Tick>, i32))
    ensures
        r.0@ == seq![
            Tick::Count(0),
            Tick::Remaining(10),
            Tick::Remaining(9),
            Tick::Count(1),
            Tick::Remaining(10),
            Tick::Remaining(9),
            Tick::Count(2),
            Tick::Remaining(10),
        ],
        r.1 == 2,
{
    let mut ticks: Vec<Tick> = Vec::new();
    let mut count: i32 = 0;
    'counting_up: loop
        invariant_except_break
            0 <= count <= 2,
            ticks@ == full_rounds(count as int),
        ensures
            count == 2,
            ticks@ == full_rounds(2) + seq![Tick::Count(2), Tick::Remaining(10)],
        decreases 2 - count,
    {
        ticks.push(Tick::Count(count));
        let mut remaining: i32 = 10;
        loop
            invariant_except_break
                0 <= count <= 2,
                9 <= remaining <= 10,
                remaining == 9 ==> count < 2,
                ticks@ == full_rounds(count as int).push(Tick::Count(count)) + if remaining == 9 {
                    seq![Tick::Remaining(10)]
                } else {
                    Seq::empty()
                },
            ensures
                0 <= count < 2,
                ticks@ == full_rounds(count + 1),
            decreases remaining,
        {
            ticks.push(Tick::Remaining(remaining));
            if remaining == 9 {
                assert(ticks@ =~= full_rounds(count + 1));
                break ;
            }
            if count == 2 {
                assert(ticks@ =~= full_rounds(2) + seq![Tick::Count(2), Tick::Remaining(10)]);
                break 'counting_up;
            }
            remaining -= 1;
            assert(ticks@ =~= full_rounds(count as int).push(Tick::Count(count)) + seq![
                Tick::Remaining(10),
            ]);
        }
        count += 1;
    }
    proof {
        reveal_with_fuel(full_rounds, 3);
        assert(ticks@ =~= seq![
            Tick::Count(0),
            Tick::Remaining(10),
            Tick::Remaining(9),
            Tick::Count(1),
            Tick::Remaining(10),
            Tick::Remaining(9),
            Tick::Count(2),
            Tick::Remaining(10),
        ]);
    }
    (ticks, count)
}

/// What a `match` on a number found.
#[derive(Clone, Copy, Debug, PartialEq, Eq, Structural)]
pub enum Found {
    /// The number is 0.
    Zero,
    /// The number is 1 or 2.
    OneOrTwo,
    /// The number is one of 3 to 9.
    ThreeToNine,
    /// The number is one of 10 to 100: this one.
    TenToHundred(i32),
    /// The number is below 0 or above 100.
    SomethingElse,
}

/// The arm that `x` falls into.
pub open spec fn found_for(x: int) -> Found {
    if x == 0 {
        Found::Zero
    } else if 1 <= x <= 2 {
        Found::OneOrTwo
    } else if 3 <= x <= 9 {
        Found::ThreeToNine
    } else if 10 <= x <= 100 {
        Found::TenToHundred(x as i32)
    } else {
        Found::SomethingElse
    }
}

/// Matches `x` against single values, alternatives, ranges, and a range that
/// binds what it matched.
pub fn classify(x: i32) -> (found: Found)
    ensures
        found == found_for(x as int),
{
    match x {
        0 => Found::Zero,
        1 | 2 => Found::OneOrTwo,
        3..=9 => Found::ThreeToNine,
        matched_num @ 10..=100 => Found::TenToHundred(matched_num),
        _ => Found::SomethingElse,
    }
}

/// What the `match` finds for the number 42.
pub fn match_expression_function() -> (found: Found)
    ensures
        found == Found::TenToHundred(42),
{
    let x: i32 = 42;
    classify(x)
}

} // verus!
