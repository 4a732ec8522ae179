//! Bits and bytes: how a bit sequence is packed into bytes, most significant
//! bit first, and unpacked again.

use vstd::prelude::*;

verus! {

/// Bit `j` of a byte, counted from its most significant bit.
pub open spec fn byte_bit(byte: u8, j: int) -> bool {
    (byte >> ((7 - j) as u8)) & 1u8 == 1u8
}

/// The bits of a byte sequence, eight per byte, most significant bit first.
pub open spec fn bits_of_bytes(bytes: Seq<u8>) -> Seq<bool> {
    Seq::new(bytes.len() * 8, |i: int| byte_bit(bytes[i / 8], i % 8))
}

/// The bit at `i`, taken as unset past the end.
pub open spec fn bit_or_unset(bits: Seq<bool>, i: int) -> bool {
    0 <= i < bits.len() && bits[i]
}

/// The byte made of eight bits, the most significant first.
pub open spec fn byte_of(
    b0: bool,
    b1: bool,
    b2: bool,
    b3: bool,
    b4: bool,
    b5: bool,
    b6: bool,
    b7: bool,
) -> u8 {
    (if b0 { 0x80u8 } else { 0u8 }) | (if b1 { 0x40u8 } else { 0u8 }) | (if b2 { 0x20u8 } else { 0u8 })
        | (if b3 { 0x10u8 } else { 0u8 }) | (if b4 { 0x08u8 } else { 0u8 }) | (if b5 { 0x04u8 } else { 0u8 })
        | (if b6 { 0x02u8 } else { 0u8 }) | (if b7 { 0x01u8 } else { 0u8 })
}

/// Byte `i` of a packed bit sequence: the bits `8 * i` to `8 * i + 7`, the
/// first in the most significant position, bits past the end unset.
pub open spec fn packed_byte(bits: Seq<bool>, i: int) -> u8 {
    byte_of(
        bit_or_unset(bits, 8 * i),
        bit_or_unset(bits, 8 * i + 1),
        bit_or_unset(bits, 8 * i + 2),
        bit_or_unset(bits, 8 * i + 3),
        bit_or_unset(bits, 8 * i + 4),
        bit_or_unset(bits, 8 * i + 5),
        bit_or_unset(bits, 8 * i + 6),
        bit_or_unset(bits, 8 * i + 7),
    )
}

/// A bit sequence packed into bytes, eight bits per byte, most significant
/// bit first, the last byte filled up with unset bits.
pub open spec fn bytes_of_bits(bits: Seq<bool>) -> Seq<u8> {
    Seq::new((bits.len() + 7) / 8, |i: int| packed_byte(bits, i))
}

/// A byte is made of its own eight bits.
pub proof fn lemma_byte_of_its_bits(byte: u8)
    ensures
        byte == byte_of(
            byte_bit(byte, 0),
            byte_bit(byte, 1),
            byte_bit(byte, 2),
            byte_bit(byte, 3),
            byte_bit(byte, 4),
            byte_bit(byte, 5),
            byte_bit(byte, 6),
            byte_bit(byte, 7),
        ),
{
    let b0 = (byte >> 7u8) & 1u8 == 1u8;
    let b1 = (byte >> 6u8) & 1u8 == 1u8;
    let b2 = (byte >> 5u8) & 1u8 == 1u8;
    let b3 = (byte >> 4u8) & 1u8 == 1u8;
    let b4 = (byte >> 3u8) & 1u8 == 1u8;
    let b5 = (byte >> 2u8) & 1u8 == 1u8;
    let b6 = (byte >> 1u8) & 1u8 == 1u8;
    let b7 = (byte >> 0u8) & 1u8 == 1u8;
    assert(byte == byte_of(b0, b1, b2, b3, b4, b5, b6, b7)) by (bit_vector)
        requires
            b0 == ((byte >> 7u8) & 1u8 == 1u8),
            b1 == ((byte >> 6u8) & 1u8 == 1u8),
            b2 == ((byte >> 5u8) & 1u8 == 1u8),
            b3 == ((byte >> 4u8) & 1u8 == 1u8),
            b4 == ((byte >> 3u8) & 1u8 == 1u8),
            b5 == ((byte >> 2u8) & 1u8 == 1u8),
            b6 == ((byte >> 1u8) & 1u8 == 1u8),
            b7 == ((byte >> 0u8) & 1u8 == 1u8),
    ;
}

/// The eight bits of a byte made of eight bits are those bits.
pub proof fn lemma_bits_of_byte_of(
    b0: bool,
    b1: bool,
    b2: bool,
    b3: bool,
    b4: bool,
    b5: bool,
    b6: bool,
    b7: bool,
)
    ensures
        byte_bit(byte_of(b0, b1, b2, b3, b4, b5, b6, b7), 0) == b0,
        byte_bit(byte_of(b0, b1, b2, b3, b4, b5, b6, b7), 1) == b1,
        byte_bit(byte_of(b0, b1, b2, b3, b4, b5, b6, b7), 2) == b2,
        byte_bit(byte_of(b0, b1, b2, b3, b4, b5, b6, b7), 3) == b3,
        byte_bit(byte_of(b0, b1, b2, b3, b4, b5, b6, b7), 4) == b4,
        byte_bit(byte_of(b0, b1, b2, b3, b4, b5, b6, b7), 5) == b5,
        byte_bit(byte_of(b0, b1, b2, b3, b4, b5, b6, b7), 6) == b6,
        byte_bit(byte_of(b0, b1, b2, b3, b4, b5, b6, b7), 7) == b7,
{
    let byte = byte_of(b0, b1, b2, b3, b4, b5, b6, b7);
    assert({
        &&& ((byte >> 7u8) & 1u8 == 1u8) == b0
        &&& ((byte >> 6u8) & 1u8 == 1u8) == b1
        &&& ((byte >> 5u8) & 1u8 == 1u8) == b2
        &&& ((byte >> 4u8) & 1u8 == 1u8) == b3
        &&& ((byte >> 3u8) & 1u8 == 1u8) == b4
        &&& ((byte >> 2u8) & 1u8 == 1u8) == b5
        &&& ((byte >> 1u8) & 1u8 == 1u8) == b6
        &&& ((byte >> 0u8) & 1u8 == 1u8) == b7
    }) by (bit_vector)
        requires
            byte == byte_of(b0, b1, b2, b3, b4, b5, b6, b7),
    ;
}

/// A bit sequence extended with unset bits to a whole number of bytes.
pub open spec fn pad_to_bytes(bits: Seq<bool>) -> Seq<bool> {
    Seq::new(((bits.len() + 7) / 8 * 8) as nat, |i: int| i < bits.len() && bits[i])
}

/// Packing the bits of a byte sequence gives the bytes back.
pub proof fn lemma_pack_unpack(bytes: Seq<u8>)
    ensures
        bytes_of_bits(bits_of_bytes(bytes)) == bytes,
{
    let bits = bits_of_bytes(bytes);
    assert forall|i: int| 0 <= i < bytes.len() implies packed_byte(bits, i) == bytes[i] by {
        lemma_byte_of_its_bits(bytes[i]);
        assert(bit_or_unset(bits, 8 * i) == byte_bit(bytes[i], 0));
        assert(bit_or_unset(bits, 8 * i + 1) == byte_bit(bytes[i], 1));
        assert(bit_or_unset(bits, 8 * i + 2) == byte_bit(bytes[i], 2));
        assert(bit_or_unset(bits, 8 * i + 3) == byte_bit(bytes[i], 3));
        assert(bit_or_unset(bits, 8 * i + 4) == byte_bit(bytes[i], 4));
        assert(bit_or_unset(bits, 8 * i + 5) == byte_bit(bytes[i], 5));
        assert(bit_or_unset(bits, 8 * i + 6) == byte_bit(bytes[i], 6));
        assert(bit_or_unset(bits, 8 * i + 7) == byte_bit(bytes[i], 7));
    }
    assert(bytes_of_bits(bits) =~= bytes);
}

/// Bit `j` of byte `at` of a packed bit sequence is bit `8 * at + j` of the
/// sequence.
pub proof fn lemma_packed_byte_bit(bits: Seq<bool>, at: int, j: int)
    requires
        0 <= j < 8,
    ensures
        byte_bit(packed_byte(bits, at), j) == bit_or_unset(bits, 8 * at + j),
{
    lemma_bits_of_byte_of(
        bit_or_unset(bits, 8 * at),
        bit_or_unset(bits, 8 * at + 1),
        bit_or_unset(bits, 8 * at + 2),
        bit_or_unset(bits, 8 * at + 3),
        bit_or_unset(bits, 8 * at + 4),
        bit_or_unset(bits, 8 * at + 5),
        bit_or_unset(bits, 8 * at + 6),
        bit_or_unset(bits, 8 * at + 7),
    );
}

/// Unpacking a packed bit sequence gives the bits back, extended with unset
/// bits to a whole number of bytes.
#[verifier::rlimit(40)]
pub proof fn lemma_unpack_pack(bits: Seq<bool>)
    ensures
        bits_of_bytes(bytes_of_bits(bits)) == pad_to_bytes(bits),
{
    let bytes = bytes_of_bits(bits);
    assert forall|i: int| 0 <= i < bytes.len() * 8 implies bits_of_bytes(bytes)[i] == bit_or_unset(
        bits,
        i,
    ) by {
        let at = i / 8;
        let j = i % 8;
        assert(bytes[at] == packed_byte(bits, at));
        assert(bits_of_bytes(bytes)[i] == byte_bit(bytes[at], j));
        lemma_packed_byte_bit(bits, at, j);
        assert(8 * at + j == i);
    }
    assert forall|i: int| 0 <= i < bytes.len() * 8 implies bits_of_bytes(bytes)[i] == pad_to_bytes(
        bits,
    )[i] by {
        assert(pad_to_bytes(bits)[i] == bit_or_unset(bits, i));
    }
    assert(bits_of_bytes(bytes) =~= pad_to_bytes(bits));
}

/// Bits that fill whole bytes need no padding.
pub proof fn lemma_pad_whole_bytes(bits: Seq<bool>)
    requires
        bits.len() % 8 == 0,
    ensures
        pad_to_bytes(bits) == bits,
{
    assert(pad_to_bytes(bits) =~= bits);
}

/// Padding does not change the packed bytes.
pub proof fn lemma_pack_padded(bits: Seq<bool>)
    ensures
        bytes_of_bits(pad_to_bytes(bits)) == bytes_of_bits(bits),
{
    let padded = pad_to_bytes(bits);
    assert forall|i: int| 0 <= i < (bits.len() + 7) / 8 implies packed_byte(padded, i)
        == packed_byte(bits, i) by {
        assert(bit_or_unset(padded, 8 * i) == bit_or_unset(bits, 8 * i));
        assert(bit_or_unset(padded, 8 * i + 1) == bit_or_unset(bits, 8 * i + 1));
        assert(bit_or_unset(padded, 8 * i + 2) == bit_or_unset(bits, 8 * i + 2));
        assert(bit_or_unset(padded, 8 * i + 3) == bit_or_unset(bits, 8 * i + 3));
        assert(bit_or_unset(padded, 8 * i + 4) == bit_or_unset(bits, 8 * i + 4));
        assert(bit_or_unset(padded, 8 * i + 5) == bit_or_unset(bits, 8 * i + 5));
        assert(bit_or_unset(padded, 8 * i + 6) == bit_or_unset(bits, 8 * i + 6));
        assert(bit_or_unset(padded, 8 * i + 7) == bit_or_unset(bits, 8 * i + 7));
    }
    assert(bytes_of_bits(padded) =~= bytes_of_bits(bits));
}

/// A sequence of `len` unset bits.
pub open spec fn zero_bits(len: nat) -> Seq<bool> {
    Seq::new(len, |i: int| false)
}

} // verus!
