//! Byte/character conversions used when turning wire bytes into strings.

use vstd::prelude::*;

verus! {

/// The character sequence a byte sequence stands for, one character per byte.
/// Faithful for ASCII content, which is all the parser admits.
pub open spec fn chars_of(s: Seq<u8>) -> Seq<char> {
    s.map_values(|b: u8| b as char)
}

/// Relies on `String::push`: appends exactly one character to the string.
#[verifier::external_body]
pub(crate) fn push_char(s: &mut String, c: char)
    ensures
        final(s)@ == old(s)@.push(c),
{
    s.push(c);
}

} // verus!
