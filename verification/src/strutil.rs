//! The one operation on `String` that the body-building code needs beyond
//! what vstd already specifies: appending a single character.

use vstd::prelude::*;

verus! {

/// Relies on `String::push`: appends the given character to the end of the
/// string, as its documentation states.
pub assume_specification[ String::push ](s: &mut String, ch: char)
    ensures
        final(s)@ == old(s)@.push(ch),
;

/// Relies on `char::from_u32`: yields the character with the given scalar
/// value, or nothing when the value is a surrogate or too large, as its
/// documentation states.
pub assume_specification[ char::from_u32 ](i: u32) -> (r: Option<char>)
    ensures
        (i < 0xD800 || (0xE000 <= i && i <= 0x10FFFF)) <==> r is Some,
        r matches Some(c) ==> c as u32 == i,
;

} // verus!
