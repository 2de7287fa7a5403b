//! Functions that hand back a slice which lives as long as their first argument.

use vstd::prelude::*;

verus! {

/// Hands `x` back. The second argument plays no part, so the result may outlive it.
pub fn longest_without_second_specifier<'a, 'b>(x: &'a str, y: &'b mut str) -> (out: &'a str)
    ensures
        out@ == x@,
        final(y)@ == old(y)@,
{
    x
}

/// The word that `longest` answers with.
pub open spec fn fixed_answer() -> Seq<char> {
    "hi"@
}

/// Answers `hi`, whatever it is given.
pub fn longest<'a, 'b, T>(x: &'a str, y: &'b str, ann: T) -> (out: &'a str)
    ensures
        out@ == fixed_answer(),
{
    "hi"
}

} // verus!
