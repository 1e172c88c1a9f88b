//! The two characters of encoded text and the bits they stand for.

use vstd::prelude::*;

verus! {

/// The character that stands for a set bit: an ordinary space.
pub const HIGH: char = '\u{0020}';

/// The character that stands for a clear bit: a zero-width space.
pub const LOW: char = '\u{200b}';

/// Whether `c` belongs to the alphabet of encoded text.
pub open spec fn is_symbol(c: char) -> bool {
    c == HIGH || c == LOW
}

/// The character that stands for `bit`.
pub open spec fn symbol(bit: bool) -> char {
    if bit {
        HIGH
    } else {
        LOW
    }
}

/// Whether `text` is made of alphabet characters alone.
pub open spec fn in_alphabet(text: Seq<char>) -> bool {
    forall|i: int| 0 <= i < text.len() ==> is_symbol(#[trigger] text[i])
}

} // verus!
