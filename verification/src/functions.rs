//! Functions handed around as values: taken as arguments and given as results.

use vstd::prelude::*;

verus! {

/// The number after `x`.
pub fn add_one(x: i32) -> (next: i32)
    requires
        x < i32::MAX,
    ensures
        next == x + 1,
{
    x + 1
}

/// Calls `f` on `arg` twice and adds up what comes back.
pub fn do_twice<F: Fn(i32) -> i32>(f: F, arg: i32) -> (sum: i32)
    requires
        call_requires(f, (arg,)),
        forall|first: i32, second: i32|
            call_ensures(f, (arg,), first) && call_ensures(f, (arg,), second) ==> i32::MIN <= first
                + second <= i32::MAX,
    ensures
        exists|first: i32, second: i32|
            call_ensures(f, (arg,), first) && call_ensures(f, (arg,), second) && sum == first
                + second,
{
    let first = f(arg);
    let second = f(arg);
    first + second
}

/// A function that adds one.
pub fn returns_closure() -> (f: impl Fn(i32) -> i32)
    ensures
        forall|x: i32| x < i32::MAX ==> call_requires(f, (x,)),
        forall|x: i32, y: i32| call_ensures(f, (x,), y) ==> y == x + 1,
{
    |x: i32| -> (y: i32)
        requires
            x < i32::MAX,
        ensures
            y == x + 1,
        { x + 1 }
}

/// A function that adds `init`.
pub fn returns_initialized_closure(init: i32) -> (f: impl Fn(i32) -> i32)
    ensures
        forall|x: i32| i32::MIN <= x + init <= i32::MAX ==> call_requires(f, (x,)),
        forall|x: i32, y: i32| call_ensures(f, (x,), y) ==> y == x + init,
{
    move |x: i32| -> (y: i32)
        requires
            i32::MIN <= x + init <= i32::MAX,
        ensures
            y == x + init,
        { x + init }
}

} // verus!
