//! From whitespace back to bytes.

use vstd::prelude::*;
use crate::alphabet::{in_alphabet, is_symbol, HIGH, LOW};
use crate::bits::{bit_at, lemma_bit_of_packed, packed, packed_prefix};
use crate::decimal::{decimal, push_decimal};
use vstd::string::StringExecFns;

verus! {

/// Why a text is not the encoding of any byte sequence.
#[derive(Debug, Clone, Copy, PartialEq, Eq, Structural)]
pub enum DecodeError {
    /// The text is made of alphabet characters, but their number is not a
    /// multiple of eight. `length` is that number.
    InvalidLength { length: usize },
    /// The text holds a character outside the alphabet. `pos` is the index
    /// of the first such character, counted in characters, and `char` is
    /// the character found there.
    InvalidCharacter { pos: usize, char: char },
}

impl DecodeError {
    /// The error for a character `char` outside the alphabet at index `pos`.
    pub fn new(pos: usize, char: char) -> (error: Self)
        ensures
            error == (DecodeError::InvalidCharacter { pos, char }),
    {
        DecodeError::InvalidCharacter { pos, char }
    }

    /// The message of this error, meant for people.
    pub open spec fn message(self) -> Seq<char> {
        match self {
            DecodeError::InvalidLength { length } => "Invalid input length "@ + decimal(
                length as nat,
            ) + ". Must be divisible through 8"@,
            DecodeError::InvalidCharacter { pos, char } => "Invalid character '"@.push(char)
                + "' at position "@ + decimal(pos as nat),
        }
    }

    /// Writes this error out for people to read: what was wrong with the
    /// input, and where.
    pub fn to_string(&self) -> (text: String)
        ensures
            text@ == self.message(),
    {
        match *self {
            DecodeError::InvalidLength { length } => {
                let mut text = String::from_str("Invalid input length ");
                push_decimal(&mut text, length);
                text.append(". Must be divisible through 8");
                text
            },
            DecodeError::InvalidCharacter { pos, char } => {
                let mut text = String::from_str("Invalid character '");
                text.push(char);
                text.append("' at position ");
                push_decimal(&mut text, pos);
                text
            },
        }
    }
}

/// Whether `pos` is the index of the first character of `text` that is
/// outside the alphabet.
pub open spec fn is_first_foreign(text: Seq<char>, pos: int) -> bool {
    &&& 0 <= pos < text.len()
    &&& !is_symbol(text[pos])
    &&& forall|j: int| 0 <= j < pos ==> is_symbol(#[trigger] text[j])
}

/// The index of the first character of `text` outside the alphabet, where
/// there is one.
pub open spec fn first_foreign(text: Seq<char>) -> int {
    choose|pos: int| is_first_foreign(text, pos)
}

/// The bits shown by the `index`-th group of eight characters of `text`.
pub open spec fn group(text: Seq<char>, index: int) -> Seq<bool> {
    Seq::new(8, |k: int| text[8 * index + k] == HIGH)
}

/// What decoding makes of `text`.
///
/// A character outside the alphabet decides first: the error names the
/// first one and where it stands. Failing that, a length that is no
/// multiple of eight is an error. Otherwise every group of eight characters
/// gives one byte, its first character the most significant bit.
pub open spec fn decoded(text: Seq<char>) -> Result<Seq<u8>, DecodeError> {
    if !in_alphabet(text) {
        Err(
            DecodeError::InvalidCharacter {
                pos: first_foreign(text) as usize,
                char: text[first_foreign(text)],
            },
        )
    } else if text.len() % 8 != 0 {
        Err(DecodeError::InvalidLength { length: text.len() as usize })
    } else {
        Ok(Seq::new(text.len() / 8, |j: int| packed(group(text, j))))
    }
}

/// A decoding result with the bytes taken as a sequence.
pub open spec fn outcome(result: Result<Vec<u8>, DecodeError>) -> Result<Seq<u8>, DecodeError> {
    match result {
        Ok(bytes) => Ok(bytes@),
        Err(error) => Err(error),
    }
}

/// Below a character outside the alphabet there is a first one.
proof fn lemma_first_foreign_below(text: Seq<char>, at: int)
    requires
        0 <= at < text.len(),
        !is_symbol(text[at]),
    ensures
        exists|pos: int| is_first_foreign(text, pos),
    decreases at,
{
    if forall|j: int| 0 <= j < at ==> is_symbol(#[trigger] text[j]) {
        assert(is_first_foreign(text, at));
    } else {
        let j = choose|j: int| 0 <= j < at && !is_symbol(#[trigger] text[j]);
        lemma_first_foreign_below(text, j);
    }
}

/// A text that is not made of alphabet characters alone has a first
/// character outside the alphabet, and `first_foreign` is its index.
pub proof fn lemma_first_foreign_exists(text: Seq<char>)
    requires
        !in_alphabet(text),
    ensures
        is_first_foreign(text, first_foreign(text)),
{
    let at = choose|i: int| 0 <= i < text.len() && !is_symbol(#[trigger] text[i]);
    lemma_first_foreign_below(text, at);
}

/// The first character outside the alphabet decides the outcome, whatever
/// the length of the text and whatever follows that character.
pub proof fn lemma_foreign_character_decides(text: Seq<char>, pos: int)
    requires
        is_first_foreign(text, pos),
    ensures
        first_foreign(text) == pos,
        decoded(text) == Err::<Seq<u8>, DecodeError>(
            DecodeError::InvalidCharacter { pos: pos as usize, char: text[pos] },
        ),
{
    let chosen = first_foreign(text);
    assert(is_first_foreign(text, chosen));
    if chosen < pos {
        assert(is_symbol(text[chosen]));
    } else if pos < chosen {
        assert(is_symbol(text[pos]));
    }
}

/// Decoding succeeds on the texts of alphabet characters whose length is a
/// multiple of eight and on no others; a wrong length is reported only of a
/// text of alphabet characters.
pub proof fn lemma_decoded_cases(text: Seq<char>)
    ensures
        decoded(text) is Ok <==> in_alphabet(text) && text.len() % 8 == 0,
        decoded(text) matches Err(DecodeError::InvalidLength { length }) <==> in_alphabet(text)
            && text.len() % 8 != 0,
        decoded(text) matches Err(DecodeError::InvalidCharacter { pos, char }) <==> !in_alphabet(
            text,
        ),
{
}

/// What a successful decoding holds: one byte for every eight characters,
/// and in byte `j` the bit at position `7 - k` is set exactly where
/// character `8 * j + k` is `HIGH`.
pub proof fn lemma_decoded_bits(text: Seq<char>, j: int, k: int)
    requires
        in_alphabet(text),
        text.len() % 8 == 0,
        0 <= j < text.len() / 8,
        0 <= k < 8,
    ensures
        decoded(text) is Ok,
        decoded(text)->Ok_0.len() == text.len() / 8,
        bit_at(decoded(text)->Ok_0[j], (7 - k) as u8) == (text[8 * j + k] == HIGH),
{
    lemma_bit_of_packed(group(text, j), k);
}

/// Decodes the given whitespace string back into binary.
///
/// `U+0020` (space) is read as a set bit and `U+200B` (zero-width space) as
/// a clear one; every eight characters give one byte, most significant bit
/// first.
///
/// ## Errors
///
/// - `DecodeError::InvalidCharacter` if the input holds any other character:
///   it reports the first one, whatever the length of the input;
/// - `DecodeError::InvalidLength` if all characters are valid and their
///   number is not divisible by 8.
pub fn decode(input: &str) -> (result: Result<Vec<u8>, DecodeError>)
    ensures
        outcome(result) == decoded(input@),
        result is Ok <==> in_alphabet(input@) && input@.len() % 8 == 0,
{
    let mut bits: Vec<bool> = Vec::new();
    for c in it: input.chars()
        invariant
            it.seq() == input@,
            bits@.len() == it.index(),
            forall|j: int| 0 <= j < bits@.len() ==> is_symbol(#[trigger] input@[j]),
            forall|j: int| 0 <= j < bits@.len() ==> bits@[j] == (input@[j] == HIGH),
    {
        if c == LOW {
            bits.push(false);
        } else if c == HIGH {
            bits.push(true);
        } else {
            proof {
                lemma_foreign_character_decides(input@, bits@.len() as int);
            }
            return Err(DecodeError::InvalidCharacter { pos: bits.len(), char: c });
        }
    }
    assert(in_alphabet(input@));
    if bits.len() % 8 != 0 {
        return Err(DecodeError::InvalidLength { length: bits.len() });
    }
    let count = bits.len() / 8;
    let mut bytes: Vec<u8> = Vec::new();
    for j in 0..count
        invariant
            bits.len() == input@.len(),
            bits.len() == 8 * count,
            forall|i: int| 0 <= i < bits@.len() ==> bits@[i] == (input@[i] == HIGH),
            bytes@.len() == j,
            forall|m: int| 0 <= m < j ==> bytes@[m] == packed(group(input@, m)),
    {
        let mut byte = 0u8;
        for k in 0..8usize
            invariant
                j < count,
                bits.len() == input@.len(),
                bits.len() == 8 * count,
                forall|i: int| 0 <= i < bits@.len() ==> bits@[i] == (input@[i] == HIGH),
                byte == packed_prefix(group(input@, j as int), k as nat),
        {
            let pos: u8 = (7 - k) as u8;
            if bits[8 * j + k] {
                byte = byte | (1u8 << pos);
            }
            assert(forall|x: u8| x | 0u8 == x) by (bit_vector);
        }
        bytes.push(byte);
    }
    assert(bytes@ =~= decoded(input@)->Ok_0);
    Ok(bytes)
}

} // verus!
