//! Strings that are only lent: read through a reference, or changed through one.

use vstd::prelude::*;
use vstd::utf8::encode_utf8;

verus! {

/// The length in bytes of a string that is only lent.
pub fn calculate_length(string_pointer: &String) -> (length: usize)
    ensures
        length == encode_utf8(string_pointer@).len(),
{
    string_pointer.as_str().as_bytes().len()
}

/// What `change_s1` adds.
pub open spec fn added_text() -> Seq<char> {
    ", world"@
}

/// Adds `, world` to the end of a string that is lent for changing.
pub fn change_s1(string_pointer: &mut String)
    ensures
        final(string_pointer)@ == old(string_pointer)@ + added_text(),
{
    string_pointer.append(", world");
}

} // verus!
