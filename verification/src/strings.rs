//! What the codec relies on when it builds a `String` one character at a
//! time.

use vstd::prelude::*;

verus! {

/// `String::push` appends the character to the end of the string and leaves
/// what was there before untouched. This is the documented behaviour of the
/// standard library; it is stated here, not proved.
pub assume_specification[ String::push ](s: &mut String, ch: char)
    ensures
        final(s)@ == old(s)@.push(ch),
;

} // verus!
