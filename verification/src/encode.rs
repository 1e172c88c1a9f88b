//! From bytes to whitespace.

use vstd::prelude::*;
use crate::alphabet::{symbol, HIGH, LOW};
use crate::bits::bit_at;

verus! {

/// The text that stands for `bytes`: eight characters per byte, in byte
/// order, and within a byte from the most significant bit to the least.
///
/// Character `i` shows the bit at position `7 - i % 8` of byte `i / 8`.
pub open spec fn encoded(bytes: Seq<u8>) -> Seq<char> {
    Seq::new(8 * bytes.len(), |i: int| symbol(bit_at(bytes[i / 8], (7 - i % 8) as u8)))
}

/// Encodes the given binary data as whitespace.
///
/// Each byte is written as one character per bit, most significant bit
/// first: `U+0020` (space) for a set bit, `U+200B` (zero-width space) for a
/// clear one. Every byte sequence has an encoding; the empty one encodes to
/// the empty string.
pub fn encode(data: &[u8]) -> (text: String)
    ensures
        text@ == encoded(data@),
        text@.len() == 8 * data@.len(),
{
    let mut buffer = String::new();
    for i in 0..data.len()
        invariant
            buffer@.len() == 8 * i,
            forall|j: int| 0 <= j < 8 * i ==> buffer@[j] == encoded(data@)[j],
    {
        let byte = data[i];
        for k in 0..8u8
            invariant
                i < data@.len(),
                byte == data@[i as int],
                buffer@.len() == 8 * i + k,
                forall|j: int| 0 <= j < 8 * i + k ==> buffer@[j] == encoded(data@)[j],
        {
            let pos: u8 = 7 - k;
            let c = if byte & (1u8 << pos) == 0 {
                LOW
            } else {
                HIGH
            };
            buffer.push(c);
        }
    }
    assert(buffer@ =~= encoded(data@));
    buffer
}

} // verus!
