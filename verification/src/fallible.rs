//! A computation that may fail, told through `Result`.

use vstd::prelude::*;

verus! {

/// The one input that succeeds.
pub const ACCEPTED: i32 = 42;

/// What success yields.
pub const YIELD: i32 = 13;

/// Succeeds with `YIELD` on `ACCEPTED` and fails on every other input, with
/// a message that says the value is not the right one.
pub fn do_something_that_might_fail(i: i32) -> (r: Result<i32, String>)
    ensures
        i == ACCEPTED ==> r == Ok::<i32, String>(YIELD),
        i != ACCEPTED ==> r is Err && r->Err_0@ == "正しい値ではありません"@,
{
    if i == ACCEPTED {
        Ok(YIELD)
    } else {
        Err("正しい値ではありません".to_owned())
    }
}

} // verus!
