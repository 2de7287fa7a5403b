//! Strings that change hands: given, taken and given back.

use vstd::prelude::*;
use vstd::utf8::encode_utf8;

verus! {

/// The text that `gives_ownership` makes.
pub open spec fn given_text() -> Seq<char> {
    "hello"@
}

/// Makes a string and hands it to the caller.
pub fn gives_ownership() -> (given: String)
    ensures
        given@ == given_text(),
{
    let some_string: String = "hello".to_owned();
    some_string
}

/// Takes a string and hands the same string back.
pub fn takes_and_gives_back(a_string: String) -> (back: String)
    ensures
        back == a_string,
{
    a_string
}

/// Hands a string back together with its length in bytes.
pub fn calculate_length(s: String) -> (measured: (String, usize))
    ensures
        measured.0 == s,
        measured.1 == encode_utf8(s@).len(),
{
    let length: usize = s.as_str().as_bytes().len();
    (s, length)
}

} // verus!
