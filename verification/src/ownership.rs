//! Ownership: a value moves into a function and back out of it.

use vstd::prelude::*;

verus! {

/// A value to pass around.
pub struct Foo {
    pub x: i32,
}

/// Takes `foo` and hands the same value back to the caller.
pub fn do_something(foo: Foo) -> (back: Foo)
    ensures
        back == foo,
{
    foo
}

} // verus!
