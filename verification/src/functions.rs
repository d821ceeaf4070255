//! Functions, blocks as expressions, and returned values.

use vstd::prelude::*;

verus! {

/// A block is an expression: this one binds 3 and is worth one more.
pub fn expression_function() -> (y: i32)
    ensures
        y == 4,
{
    let y: i32 = {
        let x: i32 = 3;
        x + 1
    };
    y
}

/// One more than `x`.
pub fn return_value_function(x: i32) -> (value: i32)
    requires
        x < i32::MAX,
    ensures
        value == x + 1,
{
    x + 1
}

} // verus!
