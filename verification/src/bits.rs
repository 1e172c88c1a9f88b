//! Bits of a byte, and the byte made of eight bits.
//!
//! Positions count from the least significant bit: position 0 is worth 1,
//! position 7 is worth 128. A group of eight bits is read most significant
//! bit first, so the bit at index `k` of a group sits at position `7 - k`.

use vstd::prelude::*;

verus! {

/// Whether the bit at position `pos` of `byte` is set.
pub open spec fn bit_at(byte: u8, pos: u8) -> bool {
    byte & (1u8 << pos) != 0
}

/// The byte that has `bit` at position `pos` and nothing else.
pub open spec fn placed(bit: bool, pos: u8) -> u8 {
    if bit {
        1u8 << pos
    } else {
        0u8
    }
}

/// The byte made of the first `n` bits of `group`, each at its position:
/// the bit at index `k` lands at position `7 - k`.
pub open spec fn packed_prefix(group: Seq<bool>, n: nat) -> u8
    recommends
        n <= 8,
        n <= group.len(),
    decreases n,
{
    if n == 0 {
        0u8
    } else {
        packed_prefix(group, (n - 1) as nat) | placed(group[n - 1], (8 - n) as u8)
    }
}

/// The byte made of a group of eight bits, most significant bit first.
pub open spec fn packed(group: Seq<bool>) -> u8
    recommends
        group.len() == 8,
{
    packed_prefix(group, 8)
}

/// The eight bits of `byte`, most significant bit first.
pub open spec fn unpacked(byte: u8) -> Seq<bool> {
    Seq::new(8, |k: int| bit_at(byte, (7 - k) as u8))
}

/// What a bit adds to a sum: one if set, nothing if clear.
pub open spec fn weight(bit: bool) -> nat {
    if bit {
        1
    } else {
        0
    }
}

/// The value of a packed group is the sum of the weights of its set bits,
/// the first bit weighing 128 and the last 1.
pub proof fn lemma_packed_value(group: Seq<bool>)
    requires
        group.len() == 8,
    ensures
        packed(group) == 128 * weight(group[0]) + 64 * weight(group[1]) + 32 * weight(group[2])
            + 16 * weight(group[3]) + 8 * weight(group[4]) + 4 * weight(group[5]) + 2 * weight(
            group[6],
        ) + weight(group[7]),
{
    reveal_with_fuel(packed_prefix, 9);
    let b0: u8 = weight(group[0]) as u8;
    let b1: u8 = weight(group[1]) as u8;
    let b2: u8 = weight(group[2]) as u8;
    let b3: u8 = weight(group[3]) as u8;
    let b4: u8 = weight(group[4]) as u8;
    let b5: u8 = weight(group[5]) as u8;
    let b6: u8 = weight(group[6]) as u8;
    let b7: u8 = weight(group[7]) as u8;
    assert(forall|b: bool, pos: u8| pos < 8 ==> #[trigger] placed(b, pos) == (weight(b) as u8) << pos) by {
        assert(forall|pos: u8| pos < 8 ==> 0u8 << pos == 0u8) by (bit_vector);
    }
    assert((b0 << 7u8 | b1 << 6u8 | b2 << 5u8 | b3 << 4u8 | b4 << 3u8 | b5 << 2u8 | b6 << 1u8 | b7
        << 0u8) == 128 * b0 + 64 * b1 + 32 * b2 + 16 * b3 + 8 * b4 + 4 * b5 + 2 * b6 + b7)
        by (bit_vector)
        requires
            b0 <= 1,
            b1 <= 1,
            b2 <= 1,
            b3 <= 1,
            b4 <= 1,
            b5 <= 1,
            b6 <= 1,
            b7 <= 1,
    ;
    assert(forall|x: u8| 0u8 | x == x) by (bit_vector);
}

/// Packing puts every bit of the group where reading finds it again.
pub proof fn lemma_bit_of_packed(group: Seq<bool>, k: int)
    requires
        group.len() == 8,
        0 <= k < 8,
    ensures
        bit_at(packed(group), (7 - k) as u8) == group[k],
{
    reveal_with_fuel(packed_prefix, 9);
    let m0 = placed(group[0], 7);
    let m1 = placed(group[1], 6);
    let m2 = placed(group[2], 5);
    let m3 = placed(group[3], 4);
    let m4 = placed(group[4], 3);
    let m5 = placed(group[5], 2);
    let m6 = placed(group[6], 1);
    let m7 = placed(group[7], 0);
    let all = 0u8 | m0 | m1 | m2 | m3 | m4 | m5 | m6 | m7;
    assert(packed(group) == all);
    assert({
        &&& (all & (1u8 << 7u8) != 0) == (m0 != 0)
        &&& (all & (1u8 << 6u8) != 0) == (m1 != 0)
        &&& (all & (1u8 << 5u8) != 0) == (m2 != 0)
        &&& (all & (1u8 << 4u8) != 0) == (m3 != 0)
        &&& (all & (1u8 << 3u8) != 0) == (m4 != 0)
        &&& (all & (1u8 << 2u8) != 0) == (m5 != 0)
        &&& (all & (1u8 << 1u8) != 0) == (m6 != 0)
        &&& (all & (1u8 << 0u8) != 0) == (m7 != 0)
    }) by (bit_vector)
        requires
            all == 0u8 | m0 | m1 | m2 | m3 | m4 | m5 | m6 | m7,
            m0 == 0 || m0 == 1u8 << 7u8,
            m1 == 0 || m1 == 1u8 << 6u8,
            m2 == 0 || m2 == 1u8 << 5u8,
            m3 == 0 || m3 == 1u8 << 4u8,
            m4 == 0 || m4 == 1u8 << 3u8,
            m5 == 0 || m5 == 1u8 << 2u8,
            m6 == 0 || m6 == 1u8 << 1u8,
            m7 == 0 || m7 == 1u8 << 0u8,
    ;
    assert(forall|pos: u8| pos < 8 ==> 1u8 << pos != 0) by (bit_vector);
}

/// A byte is the packing of its own bits.
pub proof fn lemma_packed_unpacked(byte: u8)
    ensures
        packed(unpacked(byte)) == byte,
{
    reveal_with_fuel(packed_prefix, 9);
    assert(forall|pos: u8|
        pos < 8 ==> (if byte & (1u8 << pos) != 0 {
            1u8 << pos
        } else {
            0u8
        }) == byte & (1u8 << pos)) by (bit_vector);
    assert((0u8 | byte & (1u8 << 7u8) | byte & (1u8 << 6u8) | byte & (1u8 << 5u8) | byte & (1u8
        << 4u8) | byte & (1u8 << 3u8) | byte & (1u8 << 2u8) | byte & (1u8 << 1u8) | byte & (1u8
        << 0u8)) == byte) by (bit_vector);
}

} // verus!
