//! What this crate takes on trust about the standard library's `String`.

use vstd::prelude::*;

verus! {

/// `String::push` appends the given character to the end of the string and leaves the
/// characters before it as they were. Taken from the documentation of the standard
/// library, not proved here.
pub assume_specification[ String::push ](s: &mut String, ch: char)
    ensures
        final(s)@ == old(s)@.push(ch),
;

} // verus!
