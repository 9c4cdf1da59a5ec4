//! What this library takes on trust of the standard library. Nothing here is
//! proved: each item states what the documentation of the function promises.

use vstd::prelude::*;

verus! {

/// `String::push` of the standard library: it appends the character to the
/// end of the string, so that the string afterwards holds the characters it
/// held before, in the same order, followed by `c`.
pub assume_specification[ std::string::String::push ](s: &mut std::string::String, c: char)
    ensures
        final(s)@ == old(s)@.push(c),
;

} // verus!
