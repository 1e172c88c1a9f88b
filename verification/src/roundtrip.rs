//! The two directions of the codec undo each other.

use vstd::prelude::*;
use crate::alphabet::{in_alphabet, is_symbol, symbol};
use crate::bits::{bit_at, lemma_packed_unpacked, unpacked};
use crate::decode::{decoded, group, lemma_decoded_bits, DecodeError};
use crate::encode::encoded;

verus! {

/// Encoded text has eight characters per byte and none from outside the
/// alphabet.
pub proof fn lemma_encoded_is_valid(bytes: Seq<u8>)
    ensures
        encoded(bytes).len() == 8 * bytes.len(),
        in_alphabet(encoded(bytes)),
{
}

/// Decoding the encoding of any byte sequence gives the byte sequence back.
pub proof fn lemma_decode_encode(bytes: Seq<u8>)
    ensures
        decoded(encoded(bytes)) == Ok::<Seq<u8>, DecodeError>(bytes),
{
    let text = encoded(bytes);
    lemma_encoded_is_valid(bytes);
    assert(text.len() / 8 == bytes.len());
    let back = decoded(text)->Ok_0;
    assert forall|j: int| 0 <= j < bytes.len() implies back[j] == bytes[j] by {
        assert forall|k: int| 0 <= k < 8 implies group(text, j)[k] == unpacked(bytes[j])[k] by {
            let i = 8 * j + k;
            assert(i / 8 == j && i % 8 == k);
            assert(text[i] == symbol(bit_at(bytes[j], (7 - k) as u8)));
        }
        assert(group(text, j) =~= unpacked(bytes[j]));
        lemma_packed_unpacked(bytes[j]);
    }
    assert(back =~= bytes);
}

/// A text of alphabet characters whose length is a multiple of eight
/// decodes, and encoding what it decodes to gives the text back.
pub proof fn lemma_encode_decode(text: Seq<char>)
    requires
        in_alphabet(text),
        text.len() % 8 == 0,
    ensures
        decoded(text) is Ok,
        encoded(decoded(text)->Ok_0) == text,
{
    let bytes = decoded(text)->Ok_0;
    assert(bytes.len() == text.len() / 8);
    assert forall|i: int| 0 <= i < text.len() implies encoded(bytes)[i] == text[i] by {
        lemma_decoded_bits(text, i / 8, i % 8);
        assert(is_symbol(text[i]));
    }
    assert(encoded(bytes) =~= text);
}

} // verus!
